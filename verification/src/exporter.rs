//! Frame export: the exporter's settings, the scaling of a video to a pixel
//! limit, and the names of the files it writes.
use vstd::prelude::*;
use crate::text::{chars_of, decimal, decimal_string, slice_chars, string_of, zero_pad, zero_padded_decimal};
use crate::paths::{file_name, join, path_file_name, path_join};
use crate::settings::{trim_whitespace, trimmed};
use crate::text::{parse_unsigned, parse_unsigned_str};

verus! {

/// Settings of a frame export.
#[derive(Debug, Clone)]
pub struct Exporter {
    pub video_path: String,
    pub output_dir: String,
    pub duration: u64,
    pub fps: u32,
    pub pixel_upper_limit: u32,
}

/// Why the settings of an exporter are refused, if they are: a zero
/// duration, else a zero frame rate.
pub open spec fn exporter_settings_error(duration: u64, fps: u32) -> Option<Seq<char>> {
    if duration == 0 {
        Some("Duration must be greater than zero"@)
    } else if fps == 0 {
        Some("FPS must be greater than zero"@)
    } else {
        None
    }
}

impl Exporter {
    /// An exporter for the video at `video_path` that writes its frames to
    /// `output_dir`, a directory already prepared for it. The duration and
    /// the frame rate must be greater than zero.
    pub fn new(
        video_path: String,
        output_dir: String,
        duration: u64,
        fps: u32,
        pixel_upper_limit: u32,
    ) -> (r: Result<Self, String>)
        ensures
            match exporter_settings_error(duration, fps) {
                Some(e) => r matches Err(m) && m@ == e,
                None => r matches Ok(x) && x.video_path == video_path && x.output_dir == output_dir
                    && x.duration == duration && x.fps == fps && x.pixel_upper_limit == pixel_upper_limit,
            },
    {
        if duration == 0 {
            return Err(String::from_str("Duration must be greater than zero"));
        }
        if fps == 0 {
            return Err(String::from_str("FPS must be greater than zero"));
        }
        Ok(Exporter { video_path, output_dir, duration, fps, pixel_upper_limit })
    }
}

/// What the export works on: the video cut to the requested duration, or,
/// when the video is known to be shorter than that, the video as it is,
/// for its own length.
#[derive(Debug, PartialEq, Eq, Structural)]
pub enum CutChoice {
    /// The video is used as it is; it lasts `duration_ms`.
    Original { duration_ms: u64 },
    /// The video is cut to `duration_ms`, resized and re-timed.
    Cut { duration_ms: u64 },
}

/// The choice for a requested duration and the video's length, when it
/// could be read.
pub open spec fn cut_choice(requested_ms: u64, video_ms: Option<u64>) -> CutChoice {
    match video_ms {
        Some(v) => if requested_ms > v {
            CutChoice::Original { duration_ms: v }
        } else {
            CutChoice::Cut { duration_ms: requested_ms }
        },
        None => CutChoice::Cut { duration_ms: requested_ms },
    }
}

/// Decides whether the video is cut: a requested duration longer than the
/// video gives back the original video.
pub fn choose_cut(requested_ms: u64, video_ms: Option<u64>) -> (r: CutChoice)
    ensures
        r == cut_choice(requested_ms, video_ms),
{
    match video_ms {
        Some(v) => if requested_ms > v {
            CutChoice::Original { duration_ms: v }
        } else {
            CutChoice::Cut { duration_ms: requested_ms }
        },
        None => CutChoice::Cut { duration_ms: requested_ms },
    }
}

/// The export never lasts longer than asked, and is shortened only by the
/// video itself: a cut always lasts exactly the requested duration; the
/// video is kept as it is exactly when its known length is shorter than the
/// request, and then for that length; whenever the video is at least as
/// long as the request, or its length is unknown, it is cut to the request.
pub proof fn law_cut_choice(requested_ms: u64, video_ms: Option<u64>)
    ensures
        cut_choice(requested_ms, video_ms) matches CutChoice::Cut { duration_ms } ==> duration_ms == requested_ms,
        cut_choice(requested_ms, video_ms) matches CutChoice::Original { duration_ms } ==> video_ms == Some(duration_ms)
            && duration_ms < requested_ms,
        (video_ms matches Some(v) && requested_ms > v) <==> cut_choice(requested_ms, video_ms) is Original,
        (video_ms is None || requested_ms <= video_ms->0) ==> cut_choice(requested_ms, video_ms)
            == (CutChoice::Cut { duration_ms: requested_ms }),
{
}

/// `p` rounded up to the next even number.
pub open spec fn even_up(p: nat) -> nat {
    if p % 2 != 0 {
        p + 1
    } else {
        p
    }
}

/// `limit * num / den` rounded to the nearest integer, halves rounded up;
/// zero when `den` is zero.
pub open spec fn rounded_scale(limit: nat, num: nat, den: nat) -> nat {
    if den == 0 {
        0
    } else {
        (2 * limit * num + den) / (2 * den)
    }
}

/// `p` rounded down to an even number.
pub open spec fn even_down(p: nat) -> nat {
    if p % 2 != 0 {
        (p - 1) as nat
    } else {
        p
    }
}

/// The dimensions of a `width` x `height` picture scaled to a pixel limit:
/// its larger side (the width when both are equal) becomes the limit
/// rounded down to an even number, the other side is scaled in proportion
/// to that and rounded up to an even number.
pub open spec fn scaled_dimensions(width: nat, height: nat, limit: nat) -> (nat, nat) {
    let side = even_down(limit);
    if width >= height {
        (side, even_up(rounded_scale(side, height, width)))
    } else {
        (even_up(rounded_scale(side, width, height)), side)
    }
}

/// The scaled side is the exact proportional size rounded to the nearest
/// pixel: it is off by at most half a pixel, and never larger than the
/// limit.
pub proof fn law_rounded_scale_nearest(limit: nat, num: nat, den: nat)
    requires
        den > 0,
        num <= den,
    ensures
        2 * (rounded_scale(limit, num, den) * den) <= 2 * (limit * num) + den,
        2 * (limit * num) < 2 * (rounded_scale(limit, num, den) * den) + den,
        rounded_scale(limit, num, den) <= limit,
{
    let q = rounded_scale(limit, num, den);
    let x = 2 * limit * num + den;
    assert(q == x / (2 * den));
    assert(q * (2 * den) <= x && x < q * (2 * den) + 2 * den) by (nonlinear_arith)
        requires q == x / (2 * den), den > 0;
    assert(2 * (q * den) == q * (2 * den)) by (nonlinear_arith);
    assert(2 * limit * num == 2 * (limit * num)) by (nonlinear_arith);
    assert(limit * num <= limit * den) by (nonlinear_arith)
        requires num <= den;
    assert(q <= limit) by (nonlinear_arith)
        requires q * (2 * den) <= 2 * (limit * num) + den, limit * num <= limit * den, den > 0;
}

/// Scaled dimensions keep to the limit: both sides are even and no larger
/// than the limit, the larger side is the limit rounded down to even, and
/// the other side is no larger than it.
pub proof fn law_scaled_dimensions(width: nat, height: nat, limit: nat)
    ensures
        scaled_dimensions(width, height, limit).0 % 2 == 0,
        scaled_dimensions(width, height, limit).1 % 2 == 0,
        scaled_dimensions(width, height, limit).0 <= limit,
        scaled_dimensions(width, height, limit).1 <= limit,
        width >= height ==> scaled_dimensions(width, height, limit).0 == even_down(limit)
            && scaled_dimensions(width, height, limit).1 <= scaled_dimensions(width, height, limit).0,
        width < height ==> scaled_dimensions(width, height, limit).1 == even_down(limit)
            && scaled_dimensions(width, height, limit).0 <= scaled_dimensions(width, height, limit).1,
{
    let side = even_down(limit);
    if width >= height {
        if width > 0 {
            law_rounded_scale_nearest(side, height, width);
        }
    } else {
        law_rounded_scale_nearest(side, width, height);
    }
}

/// Rounds a pixel limit up to an even number.
pub fn ensure_even(pixel_limit: u32) -> (r: u32)
    requires
        pixel_limit < u32::MAX,
    ensures
        r == even_up(pixel_limit as nat),
{
    if pixel_limit % 2 != 0 {
        pixel_limit + 1
    } else {
        pixel_limit
    }
}

/// `limit * num / den`, rounded to the nearest integer with halves rounded
/// up, for `num <= den`.
fn rounded_scale_exec(limit: u32, num: u32, den: u32) -> (r: u32)
    requires
        num <= den,
    ensures
        r == rounded_scale(limit as nat, num as nat, den as nat),
        r <= limit,
{
    if den == 0 {
        return 0;
    }
    let l = limit as u128;
    let n = num as u128;
    let d = den as u128;
    assert(2 * l * n + d <= 2 * 0xffff_ffffu128 * 0xffff_ffffu128 + 0xffff_ffffu128) by (nonlinear_arith)
        requires l <= 0xffff_ffff, n <= 0xffff_ffff, d <= 0xffff_ffff;
    let q = (2 * l * n + d) / (2 * d);
    assert(q <= l) by (nonlinear_arith)
        requires q == (2 * l * n + d) / (2 * d), n <= d, d > 0;
    q as u32
}

/// Scales a `width` x `height` picture so that its larger side becomes
/// `pixel_upper_limit` rounded down to an even number, so that it does not
/// exceed the limit, and the other keeps the aspect ratio, rounded to the
/// nearest pixel and then up to an even number. (The ratio is taken
/// exactly, where a floating-point computation of it may round a half
/// differently.)
pub fn calculate_aspect_ratio_dimensions(width: u32, height: u32, pixel_upper_limit: u32) -> (r: (u32, u32))
    ensures
        (r.0 as nat, r.1 as nat) == scaled_dimensions(width as nat, height as nat, pixel_upper_limit as nat),
{
    let side = if pixel_upper_limit % 2 != 0 { pixel_upper_limit - 1 } else { pixel_upper_limit };
    if width >= height {
        let scaled = rounded_scale_exec(side, height, width);
        (side, ensure_even(scaled))
    } else {
        let scaled = rounded_scale_exec(side, width, height);
        (ensure_even(scaled), side)
    }
}

/// The `scale` filter that resizes a `width` x `height` video to the pixel
/// limit: `scale={w}:{h}` with the scaled dimensions.
pub fn scale_filter(width: u32, height: u32, pixel_upper_limit: u32) -> (r: String)
    ensures
        r@ == "scale="@ + decimal(scaled_dimensions(width as nat, height as nat, pixel_upper_limit as nat).0)
            + ":"@ + decimal(scaled_dimensions(width as nat, height as nat, pixel_upper_limit as nat).1),
{
    let (w, h) = calculate_aspect_ratio_dimensions(width, height, pixel_upper_limit);
    let mut s = String::from_str("scale=");
    s.append(decimal_string(w as u64).as_str());
    s.append(":");
    s.append(decimal_string(h as u64).as_str());
    s
}

/// The filter that re-times a video to `fps` frames per second.
pub fn fps_filter(fps: u32) -> (r: String)
    ensures
        r@ == "fps=fps="@ + decimal(fps as nat),
{
    let mut s = String::from_str("fps=fps=");
    s.append(decimal_string(fps as u64).as_str());
    s
}

/// The filter that selects the frame with index `i` (counted from zero).
pub fn frame_select_filter(i: u64) -> (r: String)
    ensures
        r@ == "select=eq(n\\,"@ + decimal(i as nat) + ")"@,
{
    let mut s = String::from_str("select=eq(n\\,");
    s.append(decimal_string(i).as_str());
    s.append(")");
    s
}

/// `s` without all repetitions of `suffix` at its end.
pub open spec fn trim_end_matches(s: Seq<char>, suffix: Seq<char>) -> Seq<char>
    decreases s.len(),
{
    if suffix.len() > 0 && s.len() >= suffix.len() && s.skip(s.len() - suffix.len()) == suffix {
        trim_end_matches(s.take(s.len() - suffix.len()), suffix)
    } else {
        s
    }
}

/// The name of the `n`-th extracted frame: `frame_{n:04}.png`.
pub open spec fn frame_file_name(n: nat) -> Seq<char> {
    "frame_"@ + zero_pad(decimal(n), 4) + ".png"@
}

/// The name of the `n`-th extracted frame: `frame_{n:04}.png`.
pub fn frame_file(n: u64) -> (r: String)
    ensures
        r@ == frame_file_name(n as nat),
{
    let mut s = String::from_str("frame_");
    s.append(zero_padded_decimal(n, 4).as_str());
    s.append(".png");
    s
}

/// The extension suffix `.mp4`.
pub open spec fn mp4_suffix() -> Seq<char> {
    seq!['.', 'm', 'p', '4']
}

/// The name the cut video is given: the video's file name, or `video` when
/// its path has none.
pub open spec fn video_file_name(video_path: Seq<char>) -> Seq<char> {
    match path_file_name(video_path) {
        Some(n) => n,
        None => "video"@,
    }
}

/// The file a video is cut, resized and re-timed into: inside `tmp_dir`,
/// named after the video's file name with every trailing `.mp4` removed and
/// one `.mp4` appended.
pub fn cut_video_output_path(tmp_dir: &str, video_path: &str) -> (r: String)
    ensures
        r@ == path_join(tmp_dir@, trim_end_matches(video_file_name(video_path@), mp4_suffix()) + mp4_suffix()),
{
    let name = match file_name(video_path) {
        Some(n) => n,
        None => String::from_str("video"),
    };
    let video_path = name.as_str();
    let cs = chars_of(video_path);
    let mut end: usize = cs.len();
    proof {
        assert(cs@.take(end as int) =~= cs@);
    }
    while end >= 4 && cs[end - 4] == '.' && cs[end - 3] == 'm' && cs[end - 2] == 'p' && cs[end - 1] == '4'
        invariant
            end <= cs@.len(),
            cs@ == video_path@,
            trim_end_matches(cs@.take(end as int), mp4_suffix()) == trim_end_matches(video_path@, mp4_suffix()),
        decreases end,
    {
        proof {
            let t = cs@.take(end as int);
            assert(t.skip(t.len() - 4) =~= mp4_suffix());
            assert(t.take(t.len() - 4) =~= cs@.take(end - 4));
        }
        end = end - 4;
    }
    proof {
        let t = cs@.take(end as int);
        if t.len() >= 4 && t.skip(t.len() - 4) == mp4_suffix() {
            assert(t.skip(t.len() - 4)[0] == cs@[end - 4]);
            assert(t.skip(t.len() - 4)[1] == cs@[end - 3]);
            assert(t.skip(t.len() - 4)[2] == cs@[end - 2]);
            assert(t.skip(t.len() - 4)[3] == cs@[end - 1]);
        }
    }
    let stem_chars = slice_chars(&cs, 0, end);
    assert(stem_chars@ =~= cs@.take(end as int));
    let mut stem = string_of(stem_chars.as_slice());
    stem.append(".mp4");
    proof {
        reveal_strlit(".mp4");
        assert(".mp4"@ =~= mp4_suffix());
    }
    join(tmp_dir, stem.as_str())
}

/// The number of `x` characters in `s`.
pub open spec fn x_count(s: Seq<char>) -> nat
    decreases s.len(),
{
    if s.len() == 0 {
        0
    } else {
        x_count(s.drop_last()) + if s.last() == 'x' { 1nat } else { 0nat }
    }
}

/// The index of the first `x` in `s`, or the length when there is none.
pub open spec fn first_x(s: Seq<char>) -> int
    decreases s.len(),
{
    if s.len() == 0 {
        0
    } else if s[0] == 'x' {
        0
    } else {
        first_x(s.drop_first()) + 1
    }
}

/// The frame size ffprobe reports as `WIDTHxHEIGHT`: the trimmed output
/// must split at `x` into exactly two parts, each a valid `u32`.
pub open spec fn dimensions_spec(output: Seq<char>) -> Result<(u32, u32), Seq<char>> {
    let t = trimmed(output);
    if x_count(t) != 1 {
        Err("Unexpected dimensions format: "@ + t)
    } else {
        let i = first_x(t);
        match parse_unsigned(t.take(i), u32::MAX as nat) {
            None => Err("Failed to parse video width"@),
            Some(w) => match parse_unsigned(t.skip(i + 1), u32::MAX as nat) {
                None => Err("Failed to parse video height"@),
                Some(h) => Ok((w as u32, h as u32)),
            },
        }
    }
}

/// Reads the frame size from ffprobe's output.
pub fn parse_dimensions(output: &str) -> (r: Result<(u32, u32), String>)
    ensures
        match dimensions_spec(output@) {
            Ok(d) => r == Ok::<(u32, u32), String>(d),
            Err(m) => r matches Err(e) && e@ == m,
        },
{
    let t = trim_whitespace(output);
    let cs = chars_of(t.as_str());
    let mut count: usize = 0;
    let mut first: usize = cs.len();
    let mut i: usize = 0;
    assert(cs@.skip(0) =~= cs@);
    while i < cs.len()
        invariant
            cs@ == t@,
            i <= cs@.len(),
            count == x_count(cs@.take(i as int)),
            count <= i,
            count == 0 ==> first == cs@.len() && first_x(cs@) == first_x(cs@.skip(i as int)) + i,
            count > 0 ==> first < i && first_x(cs@) == first,
        decreases cs@.len() - i,
    {
        assert(cs@.take(i + 1).drop_last() =~= cs@.take(i as int));
        assert(cs@.skip(i as int).drop_first() =~= cs@.skip(i + 1));
        if cs[i] == 'x' {
            if count == 0 {
                first = i;
            }
            count = count + 1;
        }
        i = i + 1;
    }
    assert(cs@.take(cs@.len() as int) =~= cs@);
    if count != 1 {
        let mut m = String::from_str("Unexpected dimensions format: ");
        m.append(t.as_str());
        return Err(m);
    }
    let w = slice_chars(&cs, 0, first);
    let h = slice_chars(&cs, first + 1, cs.len());
    assert(w@ =~= cs@.take(first as int));
    assert(h@ =~= cs@.skip(first + 1));
    let width = match parse_unsigned_str(string_of(w.as_slice()).as_str(), u32::MAX as u64) {
        Some(v) => v as u32,
        None => return Err(String::from_str("Failed to parse video width")),
    };
    let height = match parse_unsigned_str(string_of(h.as_slice()).as_str(), u32::MAX as u64) {
        Some(v) => v as u32,
        None => return Err(String::from_str("Failed to parse video height")),
    };
    Ok((width, height))
}

} // verus!
