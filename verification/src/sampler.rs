//! Frame sampling: which frames of a video are extracted, at which times, and
//! under which names.
use vstd::prelude::*;
use crate::text::{all_digits, decimal, decimal_string, chars_of, digits_value, law_decimal_round_trip, slice_chars, string_of};
use crate::paths::{
    file_name, file_stem, join, path_file_name, path_file_stem, path_join, path_with_file_name,
    with_file_name,
};
use crate::output::{parent_or_current, parent_or_dot};
use crate::settings::Sampling;

verus! {

/// Whether `s` ends with `.png` in any mix of letter case. This is what
/// `s.to_lowercase().ends_with(".png")` decides: no character outside ASCII
/// lowercases to `.`, `p`, `n` or `g`.
pub open spec fn ends_with_png(s: Seq<char>) -> bool {
    &&& s.len() >= 4
    &&& s[s.len() - 4] == '.'
    &&& (s[s.len() - 3] == 'p' || s[s.len() - 3] == 'P')
    &&& (s[s.len() - 2] == 'n' || s[s.len() - 2] == 'N')
    &&& (s[s.len() - 1] == 'g' || s[s.len() - 1] == 'G')
}

/// The ffmpeg output name for a single frame written to the file `name`:
/// the name without its `.png` ending, then `%01d.png`.
pub open spec fn single_frame_pattern_name(name: Seq<char>) -> Seq<char> {
    if ends_with_png(name) {
        name.take(name.len() - 4) + "%01d.png"@
    } else {
        name + "%01d.png"@
    }
}

/// Extracting one frame: at `timestamp_ms`, to the ffmpeg output `pattern`;
/// then, when the target is a file, renaming what ffmpeg wrote (the first
/// path) to the target (the second).
#[derive(Debug)]
pub struct SingleFramePlan {
    pub timestamp_ms: u64,
    pub pattern: String,
    pub rename: Option<(String, String)>,
}

/// The single frame taken from the middle of a video `duration_ms` long,
/// written to `output_path`: into that file when it is a file, else into
/// the directory as `sample_frame1.png`.
pub open spec fn single_frame_spec(
    duration_ms: u64,
    output_path: Seq<char>,
    output_is_file: bool,
) -> Result<(u64, Seq<char>, Option<(Seq<char>, Seq<char>)>), Seq<char>> {
    if !output_is_file {
        Ok((duration_ms / 2, path_join(output_path, "sample_frame%01d.png"@), None))
    } else {
        match path_file_name(output_path) {
            None => Err("Invalid file name"@),
            Some(name) => {
                let pattern = path_join(parent_or_dot(output_path), single_frame_pattern_name(name));
                Ok((
                    duration_ms / 2,
                    pattern,
                    Some((path_with_file_name(pattern, path_file_stem(output_path)->0 + "1.png"@), output_path)),
                ))
            },
        }
    }
}

/// The ffmpeg output name for a frame written to the file `name`.
fn pattern_name(name: &str) -> (r: String)
    ensures
        r@ == single_frame_pattern_name(name@),
{
    let cs = chars_of(name);
    let n = cs.len();
    let png = n >= 4 && cs[n - 4] == '.' && (cs[n - 3] == 'p' || cs[n - 3] == 'P')
        && (cs[n - 2] == 'n' || cs[n - 2] == 'N') && (cs[n - 1] == 'g' || cs[n - 1] == 'G');
    let mut r = if png {
        string_of(slice_chars(&cs, 0, n - 4).as_slice())
    } else {
        String::from_str(name)
    };
    proof {
        if png {
            assert(name@.subrange(0, n - 4) =~= name@.take(n - 4));
        }
    }
    r.append("%01d.png");
    r
}

/// How to extract the frame in the middle of a video `duration_ms` long to
/// `output_path`, which is a file when `output_is_file`.
pub fn single_frame_plan(
    duration_ms: u64,
    output_path: &str,
    output_is_file: bool,
    running: bool,
) -> (r: Result<SingleFramePlan, String>)
    ensures
        !running ==> (r matches Err(m) && m@ == "Extraction interrupted before starting."@),
        running && duration_ms == 0 ==> (r matches Err(m) && m@ == "Failed to determine video length."@),
        running && duration_ms > 0 ==> match single_frame_spec(duration_ms, output_path@, output_is_file) {
            Ok((t, p, ren)) => r matches Ok(plan) && plan.timestamp_ms == t && plan.pattern@ == p
                && match ren {
                    Some((a, b)) => plan.rename matches Some((ra, rb)) && ra@ == a && rb@ == b,
                    None => plan.rename is None,
                },
            Err(e) => r matches Err(m) && m@ == e,
        },
{
    if !running {
        return Err(String::from_str("Extraction interrupted before starting."));
    }
    if duration_ms == 0 {
        return Err(String::from_str("Failed to determine video length."));
    }
    let middle = duration_ms / 2;
    if !output_is_file {
        return Ok(SingleFramePlan {
            timestamp_ms: middle,
            pattern: join(output_path, "sample_frame%01d.png"),
            rename: None,
        });
    }
    let name = match file_name(output_path) {
        Some(n) => n,
        None => return Err(String::from_str("Invalid file name")),
    };
    let pattern = join(parent_or_current(output_path).as_str(), pattern_name(name.as_str()).as_str());
    let stem = match file_stem(output_path) {
        Some(s) => s,
        None => {
            proof {
                assert(false);
            }
            String::new()
        },
    };
    let mut renamed = stem;
    renamed.append("1.png");
    let extracted = with_file_name(pattern.as_str(), renamed.as_str());
    Ok(SingleFramePlan {
        timestamp_ms: middle,
        pattern,
        rename: Some((extracted, String::from_str(output_path))),
    })
}

/// The time of frame `i` (counted from zero) of `num_frames` frames spread
/// evenly over a video `duration_ms` long: the duration is cut into
/// `num_frames + 1` equal whole-millisecond intervals, and the frames sit at
/// the inner cut points.
pub open spec fn frame_timestamp(duration_ms: nat, num_frames: nat, i: nat) -> nat {
    (duration_ms / (num_frames + 1)) * (i + 1)
}

/// The sampled frames are spread evenly: each lies one interval (the
/// duration cut into `num_frames + 1` equal whole-millisecond parts) after
/// the one before, the first one interval after the start, and every frame
/// lies strictly inside the video.
pub proof fn law_frames_spread_evenly(duration_ms: nat, num_frames: nat, i: nat)
    requires
        duration_ms > 0,
        i < num_frames,
    ensures
        frame_timestamp(duration_ms, num_frames, 0) == duration_ms / (num_frames + 1),
        frame_timestamp(duration_ms, num_frames, i + 1) == frame_timestamp(duration_ms, num_frames, i)
            + duration_ms / (num_frames + 1),
        frame_timestamp(duration_ms, num_frames, i) < duration_ms,
{
    let interval = duration_ms / (num_frames + 1);
    assert(interval * (num_frames + 1) <= duration_ms) by (nonlinear_arith)
        requires interval == duration_ms / (num_frames + 1);
    assert(interval * (i + 1 + 1) == interval * (i + 1) + interval) by (nonlinear_arith);
    assert(interval * (0 + 1) == interval) by (nonlinear_arith);
    assert(interval * (i + 1) < duration_ms) by (nonlinear_arith)
        requires interval * (num_frames + 1) <= duration_ms, i < num_frames, duration_ms > 0;
}

/// The name of frame `i` (counted from zero) among several sampled frames.
pub open spec fn sample_frame_name(i: nat) -> Seq<char> {
    "sample_frame_"@ + decimal(i + 1) + ".png"@
}

/// The name of each sampled frame carries its position: frame `i`
/// (counted from zero) is named `sample_frame_`, a non-empty string of
/// digits that reads back as `i + 1`, and `.png`; so two different frames
/// never share a name.
pub proof fn law_sample_frame_names_distinct(i: nat, j: nat)
    ensures
        ({
            let name = sample_frame_name(i);
            let digits = name.subrange(13, name.len() - 4);
            &&& name.len() > 17
            &&& name == "sample_frame_"@ + digits + ".png"@
            &&& all_digits(digits)
            &&& digits_value(digits) == i + 1
        }),
        i != j ==> sample_frame_name(i) != sample_frame_name(j),
{
    reveal_strlit("sample_frame_");
    reveal_strlit(".png");
    reveal_strlit(".");
    reveal_strlit("png");
    let m = if i <= j { j + 1 } else { i + 1 };
    law_decimal_round_trip(i + 1, m);
    law_decimal_round_trip(j + 1, m);
    let da = decimal(i + 1);
    let db = decimal(j + 1);
    let a = sample_frame_name(i);
    let b = sample_frame_name(j);
    assert(a.subrange(13, a.len() - 4) =~= da);
    assert(a =~= "sample_frame_"@ + da + ".png"@);
    if i != j && a == b {
        assert(a.skip(13) =~= da + "."@ + "png"@);
        assert(b.skip(13) =~= db + "."@ + "png"@);
        crate::gmicer::lemma_digits_before_dot(da, db, "png"@, "png"@);
    }
}

/// One frame to extract: when, and to which file.
#[derive(Debug)]
pub struct SampleFrame {
    pub timestamp_ms: u64,
    pub output: String,
}

/// `frames` are the `num_frames` frames of a video `duration_ms` long, in
/// order, written into `output_dir`.
pub open spec fn frames_for(frames: Seq<SampleFrame>, duration_ms: u64, num_frames: usize, output_dir: Seq<char>) -> bool {
    &&& frames.len() == num_frames
    &&& forall|i: int| 0 <= i < frames.len() ==> {
        &&& (#[trigger] frames[i]).timestamp_ms == frame_timestamp(duration_ms as nat, num_frames as nat, i as nat)
        &&& frames[i].output@ == path_join(output_dir, sample_frame_name(i as nat))
    }
}

/// How to extract `num_frames` frames spread evenly over a video
/// `duration_ms` long into `output_dir`.
pub fn multiple_frames_plan(
    duration_ms: u64,
    num_frames: usize,
    output_dir: &str,
    running: bool,
) -> (r: Result<Vec<SampleFrame>, String>)
    requires
        num_frames < u64::MAX,
    ensures
        !running ==> (r matches Err(m) && m@ == "Extraction interrupted before starting."@),
        running && duration_ms == 0 ==> (r matches Err(m) && m@ == "Failed to determine video length."@),
        running && duration_ms > 0 ==> (r matches Ok(frames) && frames_for(frames@, duration_ms, num_frames, output_dir@)),
{
    if !running {
        return Err(String::from_str("Extraction interrupted before starting."));
    }
    if duration_ms == 0 {
        return Err(String::from_str("Failed to determine video length."));
    }
    let parts: u64 = num_frames as u64 + 1;
    let interval: u64 = duration_ms / parts;
    let mut frames: Vec<SampleFrame> = Vec::new();
    let mut i: usize = 0;
    while i < num_frames
        invariant
            i <= num_frames < u64::MAX,
            parts == num_frames + 1,
            interval == duration_ms / parts,
            frames@.len() == i,
            forall|j: int| 0 <= j < i ==> {
                &&& (#[trigger] frames@[j]).timestamp_ms == frame_timestamp(duration_ms as nat, num_frames as nat, j as nat)
                &&& frames@[j].output@ == path_join(output_dir@, sample_frame_name(j as nat))
            },
        decreases num_frames - i,
    {
        let k: u64 = i as u64 + 1;
        assert(interval * k <= duration_ms) by (nonlinear_arith)
            requires interval == duration_ms / parts, k <= parts, parts > 0;
        let timestamp: u64 = interval * k;
        let mut name = String::from_str("sample_frame_");
        name.append(decimal_string(k).as_str());
        name.append(".png");
        frames.push(SampleFrame { timestamp_ms: timestamp, output: join(output_dir, name.as_str()) });
        i = i + 1;
    }
    Ok(frames)
}

/// What sampling a video amounts to.
#[derive(Debug)]
pub enum SamplePlan {
    /// One frame, from the middle of the video.
    Single(SingleFramePlan),
    /// Several frames, spread evenly.
    Multiple(Vec<SampleFrame>),
}

/// The number of frames sampled: the number given, else the default of a
/// single frame (`Sampling::default`).
pub open spec fn effective_sampling_number(n: Option<usize>) -> usize {
    match n {
        Some(k) => k,
        None => 1,
    }
}

/// Samples frames of a video.
#[derive(Debug)]
pub struct Sampler {
    /// The video.
    pub video_path: String,
    /// Where the frames go: a file or a directory for a single frame, a
    /// directory for several.
    pub output_path: Option<String>,
    /// The video's duration in milliseconds.
    pub duration: u64,
    /// How many frames to take.
    pub sampling_number: Option<usize>,
}

impl Sampler {
    /// A sampler of `sampling_number` frames of the video at `video_path`,
    /// `duration` milliseconds long, writing to `output_path`.
    pub fn new(
        video_path: String,
        output_path: Option<String>,
        duration: u64,
        sampling_number: Option<usize>,
    ) -> (r: Sampler)
        ensures
            r.video_path@ == video_path@,
            crate::output::opt_view(r.output_path) == crate::output::opt_view(output_path),
            r.duration == duration,
            r.sampling_number == sampling_number,
    {
        Sampler { video_path, output_path, duration, sampling_number }
    }

    /// What sampling the video takes: nothing when interrupted before the
    /// start, when the duration is zero or when there is no output path; one
    /// frame from the middle for a sampling number of one; several frames
    /// spread evenly for more; and nothing for zero. Without a sampling
    /// number the default, one frame, is taken. `output_is_file` tells
    /// whether the output path is an existing file.
    pub fn sample_images(&self, running: bool, output_is_file: bool) -> (r: Result<SamplePlan, String>)
        requires
            effective_sampling_number(self.sampling_number) < u64::MAX,
        ensures
            !running ==> (r matches Err(m) && m@ == "Processing interrupted before starting."@),
            running && self.duration == 0 ==> (r matches Err(m)
                && m@ == "Invalid video duration: must be greater than 0."@),
            running && self.duration > 0 && self.output_path is None ==> (r matches Err(m)
                && m@ == "Output path not provided"@),
            running && self.duration > 0 && self.output_path is Some && effective_sampling_number(self.sampling_number) == 0
                ==> (r matches Err(m) && m@ == "Invalid sampling number: Some("@ + decimal(0) + ")"@),
            running && self.duration > 0 && self.output_path is Some && effective_sampling_number(self.sampling_number) == 1
                ==> match single_frame_spec(self.duration, self.output_path->0@, output_is_file) {
                Ok((t, p, ren)) => r matches Ok(SamplePlan::Single(plan)) && plan.timestamp_ms == t
                    && plan.pattern@ == p && match ren {
                    Some((a, b)) => plan.rename matches Some((ra, rb)) && ra@ == a && rb@ == b,
                    None => plan.rename is None,
                },
                Err(e) => r matches Err(m) && m@ == e,
            },
            running && self.duration > 0 && self.output_path is Some && effective_sampling_number(self.sampling_number) > 1
                ==> (r matches Ok(SamplePlan::Multiple(frames))
                && frames_for(frames@, self.duration, effective_sampling_number(self.sampling_number), self.output_path->0@)),
    {
        if !running {
            return Err(String::from_str("Processing interrupted before starting."));
        }
        if self.duration == 0 {
            return Err(String::from_str("Invalid video duration: must be greater than 0."));
        }
        let output_path = match &self.output_path {
            Some(p) => p,
            None => return Err(String::from_str("Output path not provided")),
        };
        let n = match self.sampling_number {
            Some(n) => n,
            None => Sampling::default().number,
        };
        if n == 1 {
            match single_frame_plan(self.duration, output_path.as_str(), output_is_file, running) {
                Ok(plan) => Ok(SamplePlan::Single(plan)),
                Err(e) => Err(e),
            }
        } else if n > 1 {
            match multiple_frames_plan(self.duration, n, output_path.as_str(), running) {
                Ok(frames) => Ok(SamplePlan::Multiple(frames)),
                Err(e) => Err(e),
            }
        } else {
            let mut m = String::from_str("Invalid sampling number: Some(");
            m.append(decimal_string(n as u64).as_str());
            m.append(")");
            Err(m)
        }
    }
}

} // verus!
