//! How long the processed part of a video is: a given duration, the
//! duration of the audio, or the video's own, never more than the video.
use vstd::prelude::*;
use crate::text::{parse_unsigned, parse_unsigned_str};

verus! {

/// How much a duration exceeds the video's, when it does.
pub open spec fn validate_duration_spec(calculated_duration: u64, video_duration: u64) -> Option<u64> {
    if video_duration < calculated_duration {
        Some((calculated_duration - video_duration) as u64)
    } else {
        None
    }
}

/// How much a duration exceeds the video's, when it does; the caller warns
/// about it.
pub fn validate_duration(calculated_duration: u64, video_duration: u64) -> (r: Option<u64>)
    ensures
        r == validate_duration_spec(calculated_duration, video_duration),
{
    if video_duration < calculated_duration {
        Some(calculated_duration - video_duration)
    } else {
        None
    }
}

/// A duration cut down to the video's: the smaller of the two.
pub fn minimum_duration(calculated_duration: u64, video_duration: u64) -> (r: u64)
    ensures
        r == if calculated_duration > video_duration { video_duration } else { calculated_duration },
        r <= calculated_duration && r <= video_duration,
        validate_duration_spec(calculated_duration, video_duration) is None <==> r == calculated_duration,
{
    if calculated_duration > video_duration {
        video_duration
    } else {
        calculated_duration
    }
}

/// Where the duration comes from.
#[derive(Debug)]
pub enum DurationPlan {
    /// A duration given on the command line.
    Given(u64),
    /// The duration of the audio: of the given file, which must have one;
    /// or of the audio found from the environment or the configuration,
    /// falling back to the video's.
    FromAudio { mp3_path: Option<String> },
}

/// Where the duration comes from: a given duration wins over an audio
/// file, and must be a valid number of milliseconds.
pub fn duration_plan(mp3_path: Option<String>, duration_arg: Option<String>) -> (r: Result<DurationPlan, String>)
    ensures
        match duration_arg {
            Some(d) => match parse_unsigned(d@, u64::MAX as nat) {
                Some(v) => r matches Ok(DurationPlan::Given(x)) && x == v,
                None => r matches Err(m) && m@ == "Invalid duration argument"@,
            },
            None => r matches Ok(DurationPlan::FromAudio { mp3_path: p })
                && crate::output::opt_view(p) == crate::output::opt_view(mp3_path),
        },
{
    match duration_arg {
        Some(d) => match parse_unsigned_str(d.as_str(), u64::MAX) {
            Some(v) => Ok(DurationPlan::Given(v)),
            None => Err(String::from_str("Invalid duration argument")),
        },
        None => Ok(DurationPlan::FromAudio { mp3_path }),
    }
}

/// Where the duration comes from, as the command line front end asks for
/// it: a given duration wins, and must be a valid number of milliseconds;
/// else the duration of the given audio file, or of the audio found from
/// the environment or the configuration.
pub fn requested_duration(
    mp3_provided: bool,
    duration_provided: bool,
    mp3_path: Option<String>,
    duration_arg: Option<String>,
) -> (r: Result<DurationPlan, String>)
    ensures
        duration_provided ==> match duration_arg {
            Some(d) => match parse_unsigned(d@, u64::MAX as nat) {
                Some(v) => r matches Ok(DurationPlan::Given(x)) && x == v,
                None => r matches Err(m) && m@ == "Invalid or missing duration argument"@,
            },
            None => r matches Err(m) && m@ == "Invalid or missing duration argument"@,
        },
        !duration_provided && mp3_provided ==> (r matches Ok(DurationPlan::FromAudio { mp3_path: Some(p) })
            && p@ == match mp3_path { Some(m) => m@, None => Seq::empty() }),
        !duration_provided && !mp3_provided ==> (r matches Ok(DurationPlan::FromAudio { mp3_path: None })),
{
    if duration_provided {
        match duration_arg {
            Some(d) => match parse_unsigned_str(d.as_str(), u64::MAX) {
                Some(v) => Ok(DurationPlan::Given(v)),
                None => Err(String::from_str("Invalid or missing duration argument")),
            },
            None => Err(String::from_str("Invalid or missing duration argument")),
        }
    } else if mp3_provided {
        let p = match mp3_path {
            Some(m) => m,
            None => String::new(),
        };
        Ok(DurationPlan::FromAudio { mp3_path: Some(p) })
    } else {
        Ok(DurationPlan::FromAudio { mp3_path: None })
    }
}

/// What asking for the audio's duration gave.
#[derive(Debug, Clone, Copy, PartialEq, Eq, Structural)]
pub enum AudioDuration {
    /// No audio source is named anywhere.
    NoSource,
    /// No audio file was found, or its duration could not be read.
    NotFound,
    /// The audio lasts this many milliseconds.
    Found(u64),
}

/// The duration to use, given where it comes from, what the audio gave
/// and how long the video is: never more than the video.
pub fn settle_duration(plan: &DurationPlan, audio: AudioDuration, video_duration: u64) -> (r: Result<u64, String>)
    ensures
        match plan {
            DurationPlan::Given(d) => r == Ok::<u64, String>(
                if *d > video_duration { video_duration } else { *d },
            ),
            DurationPlan::FromAudio { mp3_path } => match audio {
                AudioDuration::Found(a) => r == Ok::<u64, String>(
                    if a > video_duration { video_duration } else { a },
                ),
                AudioDuration::NotFound => match mp3_path {
                    Some(_) => r matches Err(m) && m@ == "MP3 duration not found"@,
                    None => r == Ok::<u64, String>(video_duration),
                },
                AudioDuration::NoSource => r matches Err(m) && m@ == "Error determining MP3 duration"@,
            },
        },
        r matches Ok(d) ==> d <= video_duration,
{
    match plan {
        DurationPlan::Given(d) => Ok(minimum_duration(*d, video_duration)),
        DurationPlan::FromAudio { mp3_path } => match audio {
            AudioDuration::Found(a) => Ok(minimum_duration(a, video_duration)),
            AudioDuration::NotFound => match mp3_path {
                Some(_) => Err(String::from_str("MP3 duration not found")),
                None => Ok(minimum_duration(video_duration, video_duration)),
            },
            AudioDuration::NoSource => Err(String::from_str("Error determining MP3 duration")),
        },
    }
}

/// The duration asked for, given what the audio gave and how long the
/// video is, not cut to the video; the caller warns when it is longer
/// (`validate_duration`).
pub fn calculated_duration(plan: &DurationPlan, audio: AudioDuration, video_duration: u64) -> (r: Result<u64, String>)
    ensures
        match plan {
            DurationPlan::Given(d) => r == Ok::<u64, String>(*d),
            DurationPlan::FromAudio { mp3_path } => match audio {
                AudioDuration::Found(a) => r == Ok::<u64, String>(a),
                AudioDuration::NotFound => match mp3_path {
                    Some(_) => r matches Err(m) && m@ == "MP3 duration not found"@,
                    None => r == Ok::<u64, String>(video_duration),
                },
                AudioDuration::NoSource => r matches Err(m) && m@ == "Error determining MP3 duration (false, false)"@,
            },
        },
{
    match plan {
        DurationPlan::Given(d) => Ok(*d),
        DurationPlan::FromAudio { mp3_path } => match audio {
            AudioDuration::Found(a) => Ok(a),
            AudioDuration::NotFound => match mp3_path {
                Some(_) => Err(String::from_str("MP3 duration not found")),
                None => Ok(video_duration),
            },
            AudioDuration::NoSource => Err(String::from_str("Error determining MP3 duration (false, false)")),
        },
    }
}

} // verus!
