use fxp_videoclipper::audio::{
    find_audio_file, find_mp3_file, find_wanted_file, resolve_audio_path, resolve_mp3_path,
    select_audio_source, AudioSource, PathState, PathType, Wanted,
};
use fxp_videoclipper::cli::{
    check_gmic_input, check_video_path, clut_merge_choice, gmic_arguments, ClutMerge, LogLevel, Verbosity,
};
use fxp_videoclipper::duration::{
    duration_plan, minimum_duration, settle_duration, validate_duration, AudioDuration, DurationPlan,
};
use fxp_videoclipper::output::PathKind;
use fxp_videoclipper::settings::{
    audio_file_source, get_audio_dir, get_fps, get_pixel_upper_limit, get_sampling_number, is_blank,
    trim_whitespace, AudioDir, MultiSampling, Sampling,
};

fn strings(v: &[&str]) -> Vec<String> {
    v.iter().map(|s| s.to_string()).collect()
}

fn dir(entries: &[&str]) -> PathState {
    PathState { kind: PathKind::Directory, entries: Some(strings(entries)) }
}

fn missing() -> PathState {
    PathState { kind: PathKind::Missing, entries: None }
}

#[test]
fn audio_file_is_taken_by_extension() {
    let file = PathState { kind: PathKind::File, entries: None };
    assert_eq!(find_audio_file("/m/a.wav", PathState { kind: PathKind::File, entries: None }).unwrap(), "/m/a.wav");
    assert_eq!(
        find_audio_file("/m/a.txt", PathState { kind: PathKind::File, entries: None }).unwrap_err(),
        "The specified file is not a supported audio file: /m/a.txt"
    );
    assert_eq!(find_mp3_file("/m/a.wav", &file).unwrap_err(), "The specified path is a file but not an MP3: /m/a.wav");
    assert_eq!(find_mp3_file("/m/a.MP3", &file).unwrap_err(), "The specified path is a file but not an MP3: /m/a.MP3");
    assert_eq!(find_wanted_file(Wanted::Mp3AnyCase, "/m/a.MP3", &file).unwrap(), "/m/a.MP3");
}

#[test]
fn audio_in_a_directory_is_the_first_listed() {
    assert_eq!(
        find_audio_file("/m", dir(&["/m/readme.txt", "/m/b.flac", "/m/a.mp3"])).unwrap(),
        "/m/b.flac"
    );
    assert_eq!(find_mp3_file("/m", &dir(&["/m/readme.txt", "/m/b.flac", "/m/a.mp3"])).unwrap(), "/m/a.mp3");
    assert_eq!(find_audio_file("/m", dir(&["/m/x.txt"])).unwrap_err(), "No supported audio file found in directory: /m");
    assert_eq!(find_mp3_file("/m", &dir(&[])).unwrap_err(), "No MP3 file found in directory: /m");
    assert_eq!(
        find_audio_file("/m", PathState { kind: PathKind::Directory, entries: None }).unwrap_err(),
        "Failed to read directory: /m"
    );
    assert_eq!(find_audio_file("/nope", missing()).unwrap_err(), "Path does not exist or is not accessible: /nope");
}

#[test]
fn path_type_follows_the_kind() {
    assert!(matches!(PathType::from_path("/a", PathKind::File), Ok(PathType::File(_))));
    assert!(matches!(PathType::from_path("/a", PathKind::Directory), Ok(PathType::Directory(_))));
    assert_eq!(
        PathType::from_path("/a", PathKind::Other).unwrap_err(),
        "Path does not exist or is not accessible: /a"
    );
    assert_eq!(PathType::File("/a.mp3".into()).find_audio(None).unwrap(), "/a.mp3");
}

#[test]
fn audio_source_precedence() {
    assert!(matches!(
        select_audio_source(Some("c".into()), Some("e".into()), Some("f".into())),
        Some(AudioSource::CliArgument(p)) if p == "c"
    ));
    assert!(matches!(
        select_audio_source(None, Some("e".into()), Some("f".into())),
        Some(AudioSource::SearchInExportPath(p)) if p == "e"
    ));
    assert!(matches!(select_audio_source(None, None, Some("f".into())), Some(AudioSource::FromConfigFile(p)) if p == "f"));
    assert!(select_audio_source(None, None, None).is_none());
}

#[test]
fn export_directory_falls_back_to_configuration() {
    let r = resolve_audio_path(
        AudioSource::SearchInExportPath("/e".into()),
        Some("/cfg".into()),
        &dir(&["/e/notes.txt"]),
        &dir(&["/cfg/song.mp3"]),
    );
    assert_eq!(r, Some("/cfg/song.mp3".to_string()));
    let none = resolve_audio_path(AudioSource::SearchInExportPath("/e".into()), None, &dir(&[]), &dir(&["/cfg/song.mp3"]));
    assert_eq!(none, None);
}

#[test]
fn command_line_audio_has_no_fallback() {
    let r = resolve_mp3_path(
        AudioSource::CliArgument("/cli".into()),
        Some("/cfg".into()),
        &missing(),
        &dir(&["/cfg/song.mp3"]),
    );
    assert_eq!(r, None);
    let c = resolve_mp3_path(AudioSource::FromConfigFile("/cfg".into()), Some("/cfg".into()), &dir(&["/cfg/song.mp3"]), &missing());
    assert_eq!(c, Some("/cfg/song.mp3".to_string()));
}

#[test]
fn fps_precedence_and_errors() {
    assert_eq!(get_fps(Some(25), Some("30".into()), 60), Ok(25));
    assert_eq!(get_fps(None, Some("+30".into()), 60), Ok(30));
    assert_eq!(get_fps(None, Some("x".into()), 60), Err("Invalid FPS value in FXP_VIDEOCLIPPER_FPS: 'x".to_string()));
    assert_eq!(get_fps(None, None, 60), Ok(60));
    assert_eq!(get_fps(None, None, 0), Err("No FPS source provided and no fallback methods available".to_string()));
}

#[test]
fn pixel_limit_precedence_and_errors() {
    assert_eq!(get_pixel_upper_limit(Some(720), None, 480), Ok(720));
    assert_eq!(get_pixel_upper_limit(None, Some("1080".into()), 480), Ok(1080));
    assert_eq!(
        get_pixel_upper_limit(None, Some("-1".into()), 480),
        Err("Invalid Pixel Upper Limit in FXP_VIDEOCLIPPER_PIXEL_LIMIT environment variable: '-1'".to_string())
    );
    assert_eq!(get_pixel_upper_limit(None, None, 480), Ok(480));
    assert_eq!(
        get_pixel_upper_limit(None, None, 0),
        Err("No Pixel Upper Limit source provided and no fallback methods available".to_string())
    );
}

#[test]
fn sampling_numbers() {
    assert_eq!(MultiSampling::default().number, 10);
    assert_eq!(Sampling::default().number, 1);
    assert_eq!(Sampling::new(Some("4".into()), 7).number, 4);
    assert_eq!(Sampling::new(Some("0".into()), 7).number, 7);
    assert_eq!(Sampling::new(Some("x".into()), 0).number, 1);
    assert_eq!(Sampling::new(None, 0).number, 1);
    assert_eq!(get_sampling_number(true, None, Some("4".into()), 7), 10);
    assert_eq!(get_sampling_number(false, None, None, 7), 7);
    assert_eq!(get_sampling_number(true, Some(3), None, 7), 3);
}

#[test]
fn audio_directory_and_file_sources() {
    assert!(matches!(get_audio_dir(Some("/c".into()), Some("/e".into()), None), AudioDir::Path(p) if p == "/c"));
    assert!(matches!(get_audio_dir(None, Some("".into()), None), AudioDir::Path(p) if p.is_empty()));
    assert!(matches!(get_audio_dir(None, None, Some("  ".into())), AudioDir::CurrentDirectory));
    assert!(matches!(get_audio_dir(None, None, Some("/f".into())), AudioDir::Path(p) if p == "/f"));
    assert_eq!(audio_file_source(None, Some(" \t".into()), Some("/f".into())), None);
    assert_eq!(audio_file_source(None, None, Some("/f".into())), Some("/f".to_string()));
    assert_eq!(audio_file_source(Some(" ".into()), None, None), Some(" ".to_string()));
}

#[test]
fn blank_and_trim_follow_unicode_whitespace() {
    assert!(is_blank(""));
    assert!(is_blank(" \t\n\u{a0}"));
    assert!(!is_blank(" a "));
    assert_eq!(trim_whitespace("\u{3000} 640x480\n"), "640x480");
}

#[test]
fn durations_never_exceed_the_video() {
    assert_eq!(validate_duration(5000, 4000), Some(1000));
    assert_eq!(validate_duration(3000, 4000), None);
    assert_eq!(minimum_duration(5000, 4000), 4000);
    assert_eq!(minimum_duration(3000, 4000), 3000);
    assert!(matches!(duration_plan(Some("/a.mp3".into()), Some("1500".into())), Ok(DurationPlan::Given(1500))));
    assert_eq!(duration_plan(None, Some("1.5".into())).unwrap_err(), "Invalid duration argument");
    let from_file = duration_plan(Some("/a.mp3".into()), None).unwrap();
    assert_eq!(settle_duration(&from_file, AudioDuration::Found(9000), 4000), Ok(4000));
    assert_eq!(settle_duration(&from_file, AudioDuration::NotFound, 4000), Err("MP3 duration not found".to_string()));
    let default = duration_plan(None, None).unwrap();
    assert_eq!(settle_duration(&default, AudioDuration::NotFound, 4000), Ok(4000));
    assert_eq!(settle_duration(&default, AudioDuration::Found(1000), 4000), Ok(1000));
    assert_eq!(
        settle_duration(&default, AudioDuration::NoSource, 4000),
        Err("Error determining MP3 duration".to_string())
    );
    assert_eq!(settle_duration(&DurationPlan::Given(7000), AudioDuration::NoSource, 4000), Ok(4000));
}

#[test]
fn verbosity_levels() {
    assert_eq!(Verbosity { verbose: 3, quiet: 1 }.log_level_filter(), LogLevel::Warn);
    assert_eq!(Verbosity { verbose: 0, quiet: 0 }.log_level_filter(), LogLevel::Info);
    assert_eq!(Verbosity { verbose: 1, quiet: 0 }.log_level_filter(), LogLevel::Debug);
    assert_eq!(Verbosity { verbose: 2, quiet: 0 }.log_level_filter(), LogLevel::Trace);
}

#[test]
fn gmic_arguments_drop_verbosity_flags() {
    assert_eq!(
        gmic_arguments(Some(strings(&["-v", "blur", "-vvvv", "3", "-vvvvv"]))).unwrap(),
        strings(&["blur", "3", "-vvvvv"])
    );
    assert_eq!(gmic_arguments(None).unwrap_err(), "GMIC mode requires at least one GMIC argument.");
    assert_eq!(gmic_arguments(Some(vec![])).unwrap_err(), "GMIC mode requires at least one GMIC argument.");
    assert!(gmic_arguments(Some(strings(&["-vv"]))).unwrap().is_empty());
    assert_eq!(
        check_gmic_input("/x", PathKind::File).unwrap_err(),
        "For GMIC mode, the input must be a directory: /x"
    );
    assert_eq!(check_video_path("").unwrap_err(), "Video path must be provided.");
    assert!(check_video_path("/v.mp4").is_ok());
}

#[test]
fn clut_merge_choices() {
    assert_eq!(clut_merge_choice(false, false, false), (ClutMerge::Skip, false));
    assert_eq!(clut_merge_choice(true, false, false), (ClutMerge::Skip, false));
    assert_eq!(clut_merge_choice(false, true, false), (ClutMerge::Multiple, false));
    assert_eq!(clut_merge_choice(false, true, true), (ClutMerge::Single, true));
}

#[test]
fn whitespace_is_the_unicode_white_space_list() {
    for c in (0u32..=0x10FFFF).filter_map(char::from_u32) {
        assert_eq!(fxp_videoclipper::settings::is_whitespace(c), c.is_whitespace(), "{:?}", c);
    }
}
