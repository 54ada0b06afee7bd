//! Clip assembly: checking what a clip is made from, and the plan that turns
//! numbered frames, and optionally an audio track, into a video.
use vstd::prelude::*;
use crate::text::{decimal, decimal_string};
use crate::paths::{
    extension, file_stem, join, path_eq, path_extension, path_file_name, path_file_stem, path_join,
    path_with_mp4_extension, same_path, with_mp4_extension,
};
use crate::output::{concat, file_name_or_input, file_stem_or_input, or_input, parent_or_current, parent_or_dot, PathKind};
use crate::random::{generate_random_name, is_ascii_alphanumeric, suffixed};
use crate::filename_handling::{strings_view, LoadOutcome};
use crate::filename_parts::mapping_error_message;

verus! {

/// Whether `e` is `mp4` in any mix of letter case. This is what
/// `e.to_lowercase() == "mp4"` decides: no character outside ASCII
/// lowercases to `m`, `p` or `4`.
pub open spec fn is_mp4_extension(e: Seq<char>) -> bool {
    &&& e.len() == 3
    &&& (e[0] == 'm' || e[0] == 'M')
    &&& (e[1] == 'p' || e[1] == 'P')
    &&& e[2] == '4'
}

/// The path a trimmed video is written to before it takes the place of
/// `output_path`: `output_path` itself when it has an `mp4` extension, else
/// `output_path` with its extension set to `mp4`.
pub open spec fn tmp_output_path(output_path: Seq<char>) -> Seq<char> {
    match path_extension(output_path) {
        Some(e) => if is_mp4_extension(e) {
            output_path
        } else {
            path_with_mp4_extension(output_path)
        },
        None => path_with_mp4_extension(output_path),
    }
}

/// The path a trimmed video is written to before it takes the place of
/// `output_path`, so that ffmpeg sees an `.mp4` name.
pub fn get_tmp_output_path(output_path: &str) -> (r: String)
    ensures
        r@ == tmp_output_path(output_path@),
{
    match extension(output_path) {
        Some(e) => {
            let cs = crate::text::chars_of(e.as_str());
            if cs.len() == 3 && (cs[0] == 'm' || cs[0] == 'M') && (cs[1] == 'p' || cs[1] == 'P') && cs[2] == '4' {
                String::from_str(output_path)
            } else {
                with_mp4_extension(output_path)
            }
        },
        None => with_mp4_extension(output_path),
    }
}

/// The stem of a path, or `output` when it has none.
pub open spec fn stem_or_output(p: Seq<char>) -> Seq<char> {
    match path_file_stem(p) {
        Some(s) => s,
        None => "output"@,
    }
}

/// The stem of a path, or `output` when it has none.
fn stem_or_output_exec(p: &str) -> (r: String)
    ensures
        r@ == stem_or_output(p@),
{
    match file_stem(p) {
        Some(s) => s,
        None => String::from_str("output"),
    }
}

/// The ffmpeg input pattern for the frames of `input_dir`: the files
/// `frame_0001.png`, `frame_0002.png`, ...
pub open spec fn frame_pattern(input_dir: Seq<char>) -> Seq<char> {
    path_join(input_dir, "frame_%04d.png"@)
}

/// Where the video without audio is made: in `tmp_dir`, named after the
/// final output with `_no_audio.mp4` appended.
pub open spec fn no_audio_video_path(tmp_dir: Seq<char>, output_path: Seq<char>) -> Seq<char> {
    path_join(tmp_dir, stem_or_output(output_path) + "_no_audio.mp4"@)
}

/// Where the video merged with its audio is made: next to `video_path`,
/// named after it with `_videoclipped` appended, as an `.mp4` file.
pub open spec fn merged_video_path(video_path: Seq<char>) -> Seq<char> {
    path_with_mp4_extension(
        path_join(parent_or_dot(video_path), stem_or_output(video_path) + "_videoclipped"@),
    )
}

/// The ffmpeg arguments that make the video without audio.
pub open spec fn ffmpeg_video_args(fps: u32, pattern: Seq<char>, output: Seq<char>) -> Seq<Seq<char>> {
    seq![
        "-framerate"@, decimal(fps as nat), "-start_number"@, "1"@, "-i"@, pattern, "-c:v"@,
        "libx264"@, "-pix_fmt"@, "yuv420p"@, output,
    ]
}

/// The ffmpeg arguments that merge a video with an audio file.
pub open spec fn ffmpeg_merge_args(video: Seq<char>, audio: Seq<char>, output: Seq<char>) -> Seq<Seq<char>> {
    seq!["-y"@, "-i"@, video, "-i"@, audio, "-c:v"@, "copy"@, "-c:a"@, "aac"@, output]
}

/// Adding the audio track: merge, then trim to the duration.
#[derive(Debug)]
pub struct AudioStep {
    /// The audio file.
    pub mp3_path: String,
    /// The merged video.
    pub merged_video: String,
    /// The ffmpeg arguments of the merge.
    pub merge_args: Vec<String>,
    /// The duration in milliseconds the merged video is cut to.
    pub duration_ms: u64,
    /// Where the trimmed video is written.
    pub trimmed_video: String,
    /// Whether the trimmed video is then renamed to the final output.
    pub rename: bool,
}

/// The steps that make a clip.
#[derive(Debug)]
pub struct ClipPlan {
    /// The video without audio, made in the temporary directory.
    pub no_audio_video: String,
    /// The ffmpeg arguments that make it.
    pub video_args: Vec<String>,
    /// With an audio file, how the track is added; without one, the video
    /// without audio is copied to the final output.
    pub audio: Option<AudioStep>,
    /// The final video.
    pub final_video: String,
}

/// The views of a list of strings built from literals and other strings.
fn strings(parts: &[&str]) -> (r: Vec<String>)
    ensures
        strings_view(r@) == parts@.map_values(|p: &str| p@),
{
    let mut r: Vec<String> = Vec::new();
    let mut i: usize = 0;
    while i < parts.len()
        invariant
            i <= parts@.len(),
            strings_view(r@) == parts@.take(i as int).map_values(|p: &str| p@),
        decreases parts@.len() - i,
    {
        let ghost before = r@;
        r.push(String::from_str(parts[i]));
        assert(strings_view(r@) =~= strings_view(before).push(parts@[i as int]@));
        assert(parts@.take(i + 1).map_values(|p: &str| p@) =~= parts@.take(i as int).map_values(|p: &str| p@).push(parts@[i as int]@));
        i = i + 1;
    }
    assert(parts@.take(parts@.len() as int) =~= parts@);
    r
}

/// Assembles a video clip from numbered frames and an optional audio file.
#[derive(Debug)]
pub struct Clipper {
    /// The directory of the frames.
    pub input_dir: String,
    /// The final video.
    pub output_path: String,
    /// The audio file, if any.
    pub mp3_path: Option<String>,
    /// Frames per second of the video.
    pub fps: u32,
    /// How long the clip is, in milliseconds, when there is audio.
    pub duration: Option<u64>,
}

/// The error `Clipper::new` reports for its inputs, if any: a zero frame
/// rate, an input that is not a directory, images that could not be
/// loaded, or no images.
pub open spec fn clipper_input_error(
    input_dir: Seq<char>,
    fps: u32,
    input_kind: PathKind,
    frames: crate::filename_handling::LoadOutcomeView,
) -> Option<Seq<char>> {
    if fps == 0 {
        Some("FPS must be greater than zero"@)
    } else if input_kind != PathKind::Directory {
        Some("Input directory does not exist or is not a directory: "@ + input_dir)
    } else {
        match frames {
            crate::filename_handling::LoadOutcomeView::Failed(e) => Some("Failed to rename image "@ + mapping_error_message(e)),
            crate::filename_handling::LoadOutcomeView::Loaded(m) => if m.len() == 0 {
                Some("No valid image frames found in input directory: "@ + input_dir)
            } else {
                None
            },
        }
    }
}

/// What a clip plan holds for clipper `c` with intermediate files in
/// `tmp_dir`: the video without audio made from the frames, and, with an
/// audio file, the merge, the trim to the duration and the rename.
pub open spec fn clip_plan_spec(c: &Clipper, tmp_dir: Seq<char>, r: ClipPlan) -> bool {
    &&& r.no_audio_video@ == no_audio_video_path(tmp_dir, c.output_path@)
    &&& strings_view(r.video_args@) == ffmpeg_video_args(c.fps, frame_pattern(c.input_dir@), r.no_audio_video@)
    &&& r.final_video@ == c.output_path@
    &&& match c.mp3_path {
        None => r.audio is None,
        Some(mp3) => r.audio matches Some(a) && a.mp3_path@ == mp3@
            && a.merged_video@ == merged_video_path(r.no_audio_video@)
            && strings_view(a.merge_args@) == ffmpeg_merge_args(r.no_audio_video@, mp3@, a.merged_video@)
            && a.duration_ms == c.duration->0
            && a.trimmed_video@ == tmp_output_path(c.output_path@)
            && a.rename == !path_eq(a.trimmed_video@, c.output_path@),
    }
}

impl Clipper {
    /// Checks the frame rate and the input directory, the checks made before
    /// the output is created: the frame rate must not be zero, and the input
    /// must be a directory.
    pub fn check_inputs(input_dir: &str, fps: u32, input_kind: PathKind) -> (r: Result<(), String>)
        ensures
            fps == 0 ==> (r matches Err(m) && m@ == "FPS must be greater than zero"@),
            fps > 0 && input_kind != PathKind::Directory ==> (r matches Err(m)
                && m@ == "Input directory does not exist or is not a directory: "@ + input_dir@),
            fps > 0 && input_kind == PathKind::Directory ==> r is Ok,
    {
        if fps == 0 {
            return Err(String::from_str("FPS must be greater than zero"));
        }
        if input_kind != PathKind::Directory {
            return Err(concat("Input directory does not exist or is not a directory: ", input_dir));
        }
        Ok(())
    }

    /// A clipper for the frames of `input_dir`, writing `output_path`.
    /// `input_kind` is what the input is in the file system and `frames`
    /// what loading its images gave. Fails on a zero frame rate, an input
    /// that is not a directory, a loading failure (reported as a rename
    /// error with its text) or an empty directory.
    pub fn new(
        input_dir: String,
        mp3_path: Option<String>,
        output_path: String,
        fps: u32,
        duration: Option<u64>,
        input_kind: PathKind,
        frames: LoadOutcome,
    ) -> (r: Result<Clipper, String>)
        ensures
            match clipper_input_error(input_dir@, fps, input_kind, frames@) {
                Some(e) => r matches Err(m) && m@ == e,
                None => r matches Ok(c) && c.input_dir@ == input_dir@ && c.output_path@ == output_path@
                    && crate::output::opt_view(c.mp3_path) == crate::output::opt_view(mp3_path)
                    && c.fps == fps && c.duration == duration,
            },
    {
        match Clipper::check_inputs(input_dir.as_str(), fps, input_kind) {
            Ok(()) => {},
            Err(m) => return Err(m),
        }
        match frames {
            LoadOutcome::Failed(e) => Err(concat("Failed to rename image ", e.message().as_str())),
            LoadOutcome::Loaded(m) => {
                broadcast use vstd::std_specs::btree::group_btree_axioms;
                assert(crate::filename_handling::string_map_view(m@).dom() =~= m@.dom());
                if m.is_empty() {
                    Err(concat("No valid image frames found in input directory: ", input_dir.as_str()))
                } else {
                    Ok(Clipper { input_dir, output_path, mp3_path, fps, duration })
                }
            },
        }
    }

    /// The steps that make the clip, with intermediate files in `tmp_dir`:
    /// the frames are made into a video without audio; with an audio file
    /// that video is merged with it and trimmed to the duration, written to
    /// the final output through `get_tmp_output_path`; without one it is
    /// copied to the final output. With an audio file and no duration the
    /// clip cannot be trimmed, and that is reported as an error.
    pub fn clip(&self, tmp_dir: &str) -> (res: Result<ClipPlan, String>)
        ensures
            self.mp3_path is Some && self.duration is None <==> res is Err,
            res matches Err(m) ==> m@ == "duration must be provided"@,
            res matches Ok(r) ==> clip_plan_spec(self, tmp_dir@, r),
    {
        if self.mp3_path.is_some() && self.duration.is_none() {
            return Err(String::from_str("duration must be provided"));
        }
        Ok(self.clip_plan(tmp_dir))
    }

    /// The steps of `clip` once the inputs are known to be complete.
    fn clip_plan(&self, tmp_dir: &str) -> (r: ClipPlan)
        requires
            self.mp3_path.is_some() ==> self.duration.is_some(),
        ensures
            clip_plan_spec(self, tmp_dir@, r),
    {
        let pattern = join(self.input_dir.as_str(), "frame_%04d.png");
        let stem = stem_or_output_exec(self.output_path.as_str());
        let no_audio_name = concat(stem.as_str(), "_no_audio.mp4");
        let no_audio_video = join(tmp_dir, no_audio_name.as_str());
        let fps_text = decimal_string(self.fps as u64);
        let video_args = strings(
            &[
                "-framerate",
                fps_text.as_str(),
                "-start_number",
                "1",
                "-i",
                pattern.as_str(),
                "-c:v",
                "libx264",
                "-pix_fmt",
                "yuv420p",
                no_audio_video.as_str(),
            ],
        );
        assert(strings_view(video_args@) =~= ffmpeg_video_args(self.fps, frame_pattern(self.input_dir@), no_audio_video@));
        let audio = match &self.mp3_path {
            None => None,
            Some(mp3) => {
                let parent = parent_or_current(no_audio_video.as_str());
                let video_stem = stem_or_output_exec(no_audio_video.as_str());
                let clipped = concat(video_stem.as_str(), "_videoclipped");
                let merged = with_mp4_extension(join(parent.as_str(), clipped.as_str()).as_str());
                let merge_args = strings(
                    &[
                        "-y",
                        "-i",
                        no_audio_video.as_str(),
                        "-i",
                        mp3.as_str(),
                        "-c:v",
                        "copy",
                        "-c:a",
                        "aac",
                        merged.as_str(),
                    ],
                );
                assert(strings_view(merge_args@) =~= ffmpeg_merge_args(no_audio_video@, mp3@, merged@));
                let duration_ms = match self.duration {
                    Some(d) => d,
                    None => {
                        proof {
                            assert(false);
                        }
                        0
                    },
                };
                let trimmed = get_tmp_output_path(self.output_path.as_str());
                let rename = !same_path(trimmed.as_str(), self.output_path.as_str());
                Some(AudioStep {
                    mp3_path: mp3.clone(),
                    merged_video: merged,
                    merge_args,
                    duration_ms,
                    trimmed_video: trimmed,
                    rename,
                })
            },
        };
        ClipPlan { no_audio_video, video_args, audio, final_video: self.output_path.clone() }
    }
}

/// Where the clip goes when no output is given, before a free name is
/// found: the given output, or a file in `dir` with stem `stem`.
#[derive(Debug)]
pub enum ClipTarget {
    /// The output that was given.
    Given(String),
    /// An `.mp4` file in `dir` named after `stem`.
    File { dir: String, stem: String },
}

/// A `ClipTarget` with its strings taken as character sequences.
pub enum ClipTargetView {
    Given(Seq<char>),
    File { dir: Seq<char>, stem: Seq<char> },
}

impl View for ClipTarget {
    type V = ClipTargetView;

    open spec fn view(&self) -> ClipTargetView {
        match self {
            ClipTarget::Given(p) => ClipTargetView::Given(p@),
            ClipTarget::File { dir, stem } => ClipTargetView::File { dir: dir@, stem: stem@ },
        }
    }
}

/// Where the clip goes: the given output; else next to the audio file,
/// named after its stem; else next to the input directory, named after it.
pub fn create_output_directory(input_dir: &str, mp3_path: Option<String>, output_path: Option<String>) -> (r: ClipTarget)
    ensures
        r@ == match output_path {
            Some(o) => ClipTargetView::Given(o@),
            None => match mp3_path {
                Some(mp3) => ClipTargetView::File { dir: parent_or_dot(mp3@), stem: or_input(path_file_stem(mp3@)) },
                None => ClipTargetView::File {
                    dir: parent_or_dot(input_dir@),
                    stem: or_input(path_file_name(input_dir@)),
                },
            },
        },
{
    match output_path {
        Some(o) => ClipTarget::Given(o),
        None => match mp3_path {
            Some(mp3) => ClipTarget::File {
                dir: parent_or_current(mp3.as_str()),
                stem: file_stem_or_input(mp3.as_str()),
            },
            None => ClipTarget::File {
                dir: parent_or_current(input_dir),
                stem: file_name_or_input(input_dir),
            },
        },
    }
}

/// The first choice for the clip file in `dir` with stem `stem`: the stem
/// with `.mp4` appended.
pub fn build_output_file(dir: &str, stem: &str) -> (r: String)
    ensures
        r@ == path_join(dir@, stem@ + ".mp4"@),
{
    let file = concat(stem, ".mp4");
    join(dir, file.as_str())
}

/// The choice for the clip file when the first one exists: the stem with
/// two random ASCII letters or digits appended.
pub fn random_output_file(dir: &str, stem: &str) -> (r: String)
    ensures
        exists|c1: char, c2: char|
            is_ascii_alphanumeric(c1) && is_ascii_alphanumeric(c2)
                && r@ == path_join(dir@, #[trigger] suffixed(stem@, c1, c2) + ".mp4"@),
{
    let name = generate_random_name(stem);
    let ghost n = name@;
    let r = build_output_file(dir, name.as_str());
    assert(exists|c1: char, c2: char|
        is_ascii_alphanumeric(c1) && is_ascii_alphanumeric(c2)
            && r@ == path_join(dir@, #[trigger] suffixed(stem@, c1, c2) + ".mp4"@)) by {
        let (c1, c2) = choose|c1: char, c2: char|
            is_ascii_alphanumeric(c1) && is_ascii_alphanumeric(c2) && n == #[trigger] suffixed(stem@, c1, c2);
        assert(r@ == path_join(dir@, suffixed(stem@, c1, c2) + ".mp4"@));
    }
    r
}

} // verus!
