//! Decisions of the command line front end: the log level, the GMIC
//! arguments passed on, and the merging done after a CLUT transfer.
use vstd::prelude::*;
use crate::output::{concat, PathKind};
use crate::filename_parts::str_eq;
use crate::filename_handling::strings_view;

verus! {

/// How much is logged.
#[derive(Debug, Clone, Copy, PartialEq, Eq, Structural)]
pub enum LogLevel {
    Warn,
    Info,
    Debug,
    Trace,
}

/// How many times `-v` and `-q` were given.
#[derive(Debug, Clone, Copy)]
pub struct Verbosity {
    pub verbose: u8,
    pub quiet: u8,
}

impl Verbosity {
    /// The log level: warnings only when quiet; else information, with one
    /// `-v` debugging, with more tracing.
    pub fn log_level_filter(&self) -> (r: LogLevel)
        ensures
            r == if self.quiet > 0 {
                LogLevel::Warn
            } else if self.verbose == 0 {
                LogLevel::Info
            } else if self.verbose == 1 {
                LogLevel::Debug
            } else {
                LogLevel::Trace
            },
    {
        if self.quiet > 0 {
            LogLevel::Warn
        } else {
            match self.verbose {
                0 => LogLevel::Info,
                1 => LogLevel::Debug,
                _ => LogLevel::Trace,
            }
        }
    }
}

/// Whether `a` is one of the verbosity flags `-v` to `-vvvv`, which are
/// not passed on to GMIC.
pub open spec fn is_verbosity_flag(a: Seq<char>) -> bool {
    a == "-v"@ || a == "-vv"@ || a == "-vvv"@ || a == "-vvvv"@
}

/// `args` without the verbosity flags, in their order.
pub open spec fn without_verbosity_flags(args: Seq<Seq<char>>) -> Seq<Seq<char>>
    decreases args.len(),
{
    if args.len() == 0 {
        Seq::empty()
    } else {
        let rest = without_verbosity_flags(args.drop_last());
        if is_verbosity_flag(args.last()) {
            rest
        } else {
            rest.push(args.last())
        }
    }
}

/// The GMIC arguments passed on: at least one argument must be given;
/// verbosity flags are then left out.
pub fn gmic_arguments(args: Option<Vec<String>>) -> (r: Result<Vec<String>, String>)
    ensures
        match args {
            None => r matches Err(m) && m@ == "GMIC mode requires at least one GMIC argument."@,
            Some(v) => if v@.len() == 0 {
                r matches Err(m) && m@ == "GMIC mode requires at least one GMIC argument."@
            } else {
                r matches Ok(kept) && strings_view(kept@) == without_verbosity_flags(strings_view(v@))
            },
        },
{
    let v = match args {
        Some(v) => v,
        None => return Err(String::from_str("GMIC mode requires at least one GMIC argument.")),
    };
    if v.len() == 0 {
        return Err(String::from_str("GMIC mode requires at least one GMIC argument."));
    }
    let ghost sv = strings_view(v@);
    let mut kept: Vec<String> = Vec::new();
    let mut i: usize = 0;
    while i < v.len()
        invariant
            i <= v@.len(),
            sv == strings_view(v@),
            strings_view(kept@) == without_verbosity_flags(sv.take(i as int)),
        decreases v@.len() - i,
    {
        let a = v[i].as_str();
        assert(sv.take(i + 1).drop_last() =~= sv.take(i as int));
        assert(sv.take(i + 1).last() == a@);
        if !(str_eq(a, "-v") || str_eq(a, "-vv") || str_eq(a, "-vvv") || str_eq(a, "-vvvv")) {
            let ghost before = kept@;
            kept.push(v[i].clone());
            assert(strings_view(kept@) =~= strings_view(before).push(a@));
        }
        i = i + 1;
    }
    assert(sv.take(v@.len() as int) =~= sv);
    Ok(kept)
}

/// GMIC works on a directory.
pub fn check_gmic_input(input: &str, kind: PathKind) -> (r: Result<(), String>)
    ensures
        kind == PathKind::Directory ==> r is Ok,
        kind != PathKind::Directory ==> (r matches Err(m)
            && m@ == "For GMIC mode, the input must be a directory: "@ + input@),
{
    if kind == PathKind::Directory {
        Ok(())
    } else {
        Err(concat("For GMIC mode, the input must be a directory: ", input))
    }
}

/// The sampler needs a video.
pub fn check_video_path(video_path: &str) -> (r: Result<(), String>)
    ensures
        video_path@.len() == 0 ==> (r matches Err(m) && m@ == "Video path must be provided."@),
        video_path@.len() > 0 ==> r is Ok,
{
    if video_path.unicode_len() == 0 {
        Err(String::from_str("Video path must be provided."))
    } else {
        Ok(())
    }
}

/// What merging follows a CLUT transfer.
#[derive(Debug, Clone, Copy, PartialEq, Eq, Structural)]
pub enum ClutMerge {
    /// None.
    Skip,
    /// One merge with the given opacity.
    Single,
    /// One merge per configured opacity.
    Multiple,
}

/// The merging after a CLUT transfer, and whether to warn that both a
/// single opacity and multiple opacities were asked for: a given opacity
/// wins over multiple opacities; the merge flag alone merges nothing.
pub fn clut_merge_choice(clut_merge: bool, clut_multiple: bool, has_opacity: bool) -> (r: (ClutMerge, bool))
    ensures
        r.0 == if has_opacity {
            ClutMerge::Single
        } else if clut_multiple {
            ClutMerge::Multiple
        } else {
            ClutMerge::Skip
        },
        r.1 == (has_opacity && clut_multiple),
{
    let enabled = clut_merge || clut_multiple || has_opacity;
    if !enabled {
        return (ClutMerge::Skip, false);
    }
    let warn = has_opacity && clut_multiple;
    if has_opacity {
        (ClutMerge::Single, warn)
    } else if clut_multiple {
        (ClutMerge::Multiple, warn)
    } else {
        (ClutMerge::Skip, warn)
    }
}

} // verus!
