//! Settings taken from the command line, the environment and the
//! configuration file, in that order of precedence.
use vstd::prelude::*;
use crate::text::{chars_of, parse_unsigned, parse_unsigned_str};
use crate::output::concat;

verus! {

/// Whether a character has the Unicode `White_Space` property, which is
/// what `char::is_whitespace` tests: the controls tab to carriage return,
/// space, next line, no-break space, ogham space mark, the spaces from en
/// quad to hair space, line and paragraph separator, narrow no-break space,
/// medium mathematical space and ideographic space.
pub open spec fn unicode_whitespace(c: char) -> bool {
    ||| ('\u{9}' <= c && c <= '\u{d}')
    ||| c == ' '
    ||| c == '\u{85}'
    ||| c == '\u{a0}'
    ||| c == '\u{1680}'
    ||| ('\u{2000}' <= c && c <= '\u{200a}')
    ||| c == '\u{2028}'
    ||| c == '\u{2029}'
    ||| c == '\u{202f}'
    ||| c == '\u{205f}'
    ||| c == '\u{3000}'
}

/// Whether a character has the Unicode `White_Space` property.
pub fn is_whitespace(c: char) -> (r: bool)
    ensures
        r == unicode_whitespace(c),
{
    ('\u{9}' <= c && c <= '\u{d}') || c == ' ' || c == '\u{85}' || c == '\u{a0}' || c == '\u{1680}'
        || ('\u{2000}' <= c && c <= '\u{200a}') || c == '\u{2028}' || c == '\u{2029}' || c == '\u{202f}'
        || c == '\u{205f}' || c == '\u{3000}'
}

/// Whether `s` is made of whitespace only, which is when `s.trim()` is
/// empty: `trim` removes the characters with the `White_Space` property
/// from both ends.
pub open spec fn blank(s: Seq<char>) -> bool {
    forall|i: int| 0 <= i < s.len() ==> unicode_whitespace(#[trigger] s[i])
}

/// Whether `s` is made of whitespace only.
pub fn is_blank(s: &str) -> (r: bool)
    ensures
        r == blank(s@),
{
    let cs = chars_of(s);
    let mut i: usize = 0;
    while i < cs.len()
        invariant
            cs@ == s@,
            i <= cs@.len(),
            forall|j: int| 0 <= j < i ==> unicode_whitespace(#[trigger] s@[j]),
        decreases cs@.len() - i,
    {
        if !is_whitespace(cs[i]) {
            return false;
        }
        i = i + 1;
    }
    true
}

/// `s` without its leading whitespace.
pub open spec fn trim_start(s: Seq<char>) -> Seq<char>
    decreases s.len(),
{
    if s.len() > 0 && unicode_whitespace(s[0]) {
        trim_start(s.drop_first())
    } else {
        s
    }
}

/// `s` without its trailing whitespace.
pub open spec fn trim_end(s: Seq<char>) -> Seq<char>
    decreases s.len(),
{
    if s.len() > 0 && unicode_whitespace(s.last()) {
        trim_end(s.drop_last())
    } else {
        s
    }
}

/// `s` without leading and trailing whitespace, as `str::trim` gives it.
pub open spec fn trimmed(s: Seq<char>) -> Seq<char> {
    trim_end(trim_start(s))
}

/// `s` without leading and trailing whitespace.
pub fn trim_whitespace(s: &str) -> (r: String)
    ensures
        r@ == trimmed(s@),
{
    let cs = chars_of(s);
    let n = cs.len();
    let mut a: usize = 0;
    assert(s@.skip(0) =~= s@);
    while a < n && is_whitespace(cs[a])
        invariant
            cs@ == s@,
            n == cs@.len(),
            a <= n,
            trim_start(s@) == trim_start(s@.skip(a as int)),
        decreases n - a,
    {
        assert(s@.skip(a as int).drop_first() =~= s@.skip(a + 1));
        a = a + 1;
    }
    let mut b: usize = n;
    let ghost t = s@.skip(a as int);
    assert(trim_start(s@) == t);
    assert(t =~= s@.subrange(a as int, n as int));
    while b > a && is_whitespace(cs[b - 1])
        invariant
            cs@ == s@,
            n == cs@.len(),
            a <= b <= n,
            t == s@.subrange(a as int, n as int),
            trim_end(t) == trim_end(s@.subrange(a as int, b as int)),
        decreases b - a,
    {
        assert(s@.subrange(a as int, b as int).drop_last() =~= s@.subrange(a as int, b - 1));
        b = b - 1;
    }
    let r = crate::text::slice_chars(&cs, a, b);
    crate::text::string_of(r.as_slice())
}

/// The frame rate: from the command line; else from the environment,
/// which must then hold a valid number; else from the configuration when
/// it is not zero.
pub open spec fn fps_spec(cli_fps: Option<u32>, env_fps: Option<Seq<char>>, config_fps: u32) -> Result<u32, Seq<char>> {
    match cli_fps {
        Some(v) => Ok(v),
        None => match env_fps {
            Some(s) => match parse_unsigned(s, u32::MAX as nat) {
                Some(v) => Ok(v as u32),
                None => Err("Invalid FPS value in FXP_VIDEOCLIPPER_FPS: '"@ + s),
            },
            None => if config_fps > 0 {
                Ok(config_fps)
            } else {
                Err("No FPS source provided and no fallback methods available"@)
            },
        },
    }
}

/// The frame rate to use. `env_fps` is the value of the variable
/// `FXP_VIDEOCLIPPER_FPS`, when it is set.
pub fn get_fps(cli_fps: Option<u32>, env_fps: Option<String>, config_fps: u32) -> (r: Result<u32, String>)
    ensures
        match fps_spec(cli_fps, crate::output::opt_view(env_fps), config_fps) {
            Ok(v) => r matches Ok(x) && x == v,
            Err(m) => r matches Err(e) && e@ == m,
        },
{
    match cli_fps {
        Some(v) => Ok(v),
        None => match env_fps {
            Some(s) => match parse_unsigned_str(s.as_str(), u32::MAX as u64) {
                Some(v) => Ok(v as u32),
                None => Err(concat("Invalid FPS value in FXP_VIDEOCLIPPER_FPS: '", s.as_str())),
            },
            None => {
                if config_fps > 0 {
                    Ok(config_fps)
                } else {
                    Err(String::from_str("No FPS source provided and no fallback methods available"))
                }
            },
        },
    }
}

/// The pixel limit: from the command line; else from the environment,
/// which must then hold a valid number; else from the configuration when
/// it is not zero.
pub open spec fn pixel_limit_spec(cli: Option<u32>, env: Option<Seq<char>>, config: u32) -> Result<u32, Seq<char>> {
    match cli {
        Some(v) => Ok(v),
        None => match env {
            Some(s) => match parse_unsigned(s, u32::MAX as nat) {
                Some(v) => Ok(v as u32),
                None => Err(
                    "Invalid Pixel Upper Limit in FXP_VIDEOCLIPPER_PIXEL_LIMIT environment variable: '"@ + s + "'"@,
                ),
            },
            None => if config > 0 {
                Ok(config)
            } else {
                Err("No Pixel Upper Limit source provided and no fallback methods available"@)
            },
        },
    }
}

/// The upper limit of the frame size. `env_limit` is the value of the
/// variable `FXP_VIDEOCLIPPER_PIXEL_LIMIT`, when it is set.
pub fn get_pixel_upper_limit(cli_pixel_limit: Option<u32>, env_limit: Option<String>, config_limit: u32) -> (r: Result<u32, String>)
    ensures
        match pixel_limit_spec(cli_pixel_limit, crate::output::opt_view(env_limit), config_limit) {
            Ok(v) => r matches Ok(x) && x == v,
            Err(m) => r matches Err(e) && e@ == m,
        },
{
    match cli_pixel_limit {
        Some(v) => Ok(v),
        None => match env_limit {
            Some(s) => match parse_unsigned_str(s.as_str(), u32::MAX as u64) {
                Some(v) => Ok(v as u32),
                None => {
                    let m = concat(
                        "Invalid Pixel Upper Limit in FXP_VIDEOCLIPPER_PIXEL_LIMIT environment variable: '",
                        s.as_str(),
                    );
                    Err(concat(m.as_str(), "'"))
                },
            },
            None => {
                if config_limit > 0 {
                    Ok(config_limit)
                } else {
                    Err(String::from_str("No Pixel Upper Limit source provided and no fallback methods available"))
                }
            },
        },
    }
}

/// The number of frames to sample for a single sample.
#[derive(Debug)]
pub struct Sampling {
    pub number: usize,
}

/// The number of frames to sample for multiple samples.
#[derive(Debug)]
pub struct MultiSampling {
    pub number: usize,
}

impl Default for MultiSampling {
    fn default() -> (r: Self)
        ensures
            r.number == 10,
    {
        MultiSampling { number: 10 }
    }
}

impl Default for Sampling {
    fn default() -> (r: Self)
        ensures
            r.number == 1,
    {
        Sampling { number: 1 }
    }
}

/// The number of frames to sample: a positive number from the environment,
/// else a positive number from the configuration, else one.
pub open spec fn sampling_spec(env_value: Option<Seq<char>>, config_number: usize) -> usize {
    let from_env = match env_value {
        Some(s) => match parse_unsigned(s, usize::MAX as nat) {
            Some(v) => if v > 0 { Some(v as usize) } else { None },
            None => None,
        },
        None => None,
    };
    match from_env {
        Some(v) => v,
        None => if config_number > 0 { config_number } else { 1 },
    }
}

impl Sampling {
    /// The sampling number from the environment (the value of
    /// `FRAME_EXPORTER_SAMPLING_NUMBER`, when set) or the configuration.
    pub fn new(env_value: Option<String>, config_number: usize) -> (r: Sampling)
        ensures
            r.number == sampling_spec(crate::output::opt_view(env_value), config_number),
    {
        let from_env: Option<usize> = match env_value {
            Some(s) => match parse_unsigned_str(s.as_str(), usize::MAX as u64) {
                Some(v) => if v > 0 { Some(v as usize) } else { None },
                None => None,
            },
            None => None,
        };
        match from_env {
            Some(v) => Sampling { number: v },
            None => if config_number > 0 {
                Sampling { number: config_number }
            } else {
                Sampling::default()
            },
        }
    }
}

/// How many frames the sampler takes: the number given, else ten for
/// multiple samples, else the configured sampling number.
pub fn get_sampling_number(
    multiple: bool,
    number: Option<usize>,
    env_value: Option<String>,
    config_number: usize,
) -> (r: usize)
    ensures
        r == match number {
            Some(n) => n,
            None => if multiple { 10 } else { sampling_spec(crate::output::opt_view(env_value), config_number) },
        },
{
    match number {
        Some(n) => n,
        None => if multiple {
            MultiSampling::default().number
        } else {
            Sampling::new(env_value, config_number).number
        },
    }
}

/// Where audio files are looked for.
#[derive(Debug)]
pub enum AudioDir {
    /// This path.
    Path(String),
    /// The current directory.
    CurrentDirectory,
}

/// The audio directory: from the command line, else from the environment,
/// else from the configuration unless that is blank, else the current
/// directory.
pub fn get_audio_dir(cli_audio: Option<String>, env_dir: Option<String>, config_path: Option<String>) -> (r: AudioDir)
    ensures
        match (cli_audio, env_dir) {
            (Some(c), _) => r matches AudioDir::Path(p) && p@ == c@,
            (None, Some(e)) => r matches AudioDir::Path(p) && p@ == e@,
            (None, None) => match config_path {
                Some(f) => if blank(f@) {
                    r is CurrentDirectory
                } else {
                    r matches AudioDir::Path(p) && p@ == f@
                },
                None => r is CurrentDirectory,
            },
        },
{
    match cli_audio {
        Some(c) => AudioDir::Path(c),
        None => match env_dir {
            Some(e) => AudioDir::Path(e),
            None => match config_path {
                Some(f) => if is_blank(f.as_str()) {
                    AudioDir::CurrentDirectory
                } else {
                    AudioDir::Path(f)
                },
                None => AudioDir::CurrentDirectory,
            },
        },
    }
}

/// Where the audio file is looked for: the command line; else the
/// environment, unless it is blank, in which case nowhere; else the
/// configuration unless it is blank.
pub fn audio_file_source(cli_audio: Option<String>, env_file: Option<String>, config_path: Option<String>) -> (r: Option<String>)
    ensures
        crate::output::opt_view(r) == match (cli_audio, env_file) {
            (Some(c), _) => Some(c@),
            (None, Some(e)) => if blank(e@) { None } else { Some(e@) },
            (None, None) => match config_path {
                Some(f) => if blank(f@) { None } else { Some(f@) },
                None => None,
            },
        },
{
    match cli_audio {
        Some(c) => Some(c),
        None => match env_file {
            Some(e) => if is_blank(e.as_str()) {
                None
            } else {
                Some(e)
            },
            None => match config_path {
                Some(f) => if is_blank(f.as_str()) {
                    None
                } else {
                    Some(f)
                },
                None => None,
            },
        },
    }
}

} // verus!
