use std::collections::BTreeMap;

use fxp_videoclipper::clipper::{
    build_output_file, create_output_directory, get_tmp_output_path, random_output_file, ClipTarget,
    Clipper,
};
use fxp_videoclipper::filename_handling::LoadOutcome;
use fxp_videoclipper::filename_parts::ImageMappingError;
use fxp_videoclipper::output::PathKind;

fn strings(v: &[&str]) -> Vec<String> {
    v.iter().map(|s| s.to_string()).collect()
}

fn one_frame() -> BTreeMap<u32, String> {
    let mut m = BTreeMap::new();
    m.insert(1u32, "/in/frame_0001.png".to_string());
    m
}

#[test]
fn clipper_checks_fps_then_input() {
    assert_eq!(Clipper::check_inputs("/in", 0, PathKind::Directory).unwrap_err(), "FPS must be greater than zero");
    assert_eq!(
        Clipper::check_inputs("/in", 24, PathKind::File).unwrap_err(),
        "Input directory does not exist or is not a directory: /in"
    );
    assert!(Clipper::check_inputs("/in", 24, PathKind::Directory).is_ok());
}

#[test]
fn clipper_needs_frames() {
    let r = Clipper::new("/in".into(), None, "/o.mp4".into(), 24, None, PathKind::Directory, LoadOutcome::Loaded(BTreeMap::new()));
    assert_eq!(r.unwrap_err(), "No valid image frames found in input directory: /in");
    let f = Clipper::new(
        "/in".into(),
        None,
        "/o.mp4".into(),
        24,
        None,
        PathKind::Directory,
        LoadOutcome::Failed(ImageMappingError::RenameError("boom".into())),
    );
    assert_eq!(f.unwrap_err(), "Failed to rename image Failed to rename image boom");
    let z = Clipper::new("/in".into(), None, "/o.mp4".into(), 0, None, PathKind::Directory, LoadOutcome::Loaded(one_frame()));
    assert_eq!(z.unwrap_err(), "FPS must be greater than zero");
}

#[test]
fn clip_with_audio_merges_and_trims() {
    let c = Clipper::new(
        "/in".into(),
        Some("/a/song.mp3".into()),
        "/out/video.mov".into(),
        24,
        Some(5000),
        PathKind::Directory,
        LoadOutcome::Loaded(one_frame()),
    )
    .unwrap();
    let plan = c.clip("/tmp/t").unwrap();
    assert_eq!(plan.no_audio_video, "/tmp/t/video_no_audio.mp4");
    assert_eq!(
        plan.video_args,
        strings(&[
            "-framerate", "24", "-start_number", "1", "-i", "/in/frame_%04d.png", "-c:v", "libx264", "-pix_fmt",
            "yuv420p", "/tmp/t/video_no_audio.mp4",
        ])
    );
    let audio = plan.audio.unwrap();
    assert_eq!(audio.merged_video, "/tmp/t/video_no_audio_videoclipped.mp4");
    assert_eq!(
        audio.merge_args,
        strings(&[
            "-y", "-i", "/tmp/t/video_no_audio.mp4", "-i", "/a/song.mp3", "-c:v", "copy", "-c:a", "aac",
            "/tmp/t/video_no_audio_videoclipped.mp4",
        ])
    );
    assert_eq!(audio.duration_ms, 5000);
    assert_eq!(audio.trimmed_video, "/out/video.mp4");
    assert!(audio.rename);
    assert_eq!(plan.final_video, "/out/video.mov");
}

#[test]
fn clip_without_audio_is_copied() {
    let c = Clipper::new("/in".into(), None, "/out/v.mp4".into(), 30, None, PathKind::Directory, LoadOutcome::Loaded(one_frame()))
        .unwrap();
    let plan = c.clip("/tmp/t").unwrap();
    assert!(plan.audio.is_none());
    assert_eq!(plan.no_audio_video, "/tmp/t/v_no_audio.mp4");
    assert_eq!(plan.final_video, "/out/v.mp4");
}

#[test]
fn tmp_output_path_ends_in_mp4() {
    assert_eq!(get_tmp_output_path("/o/v.MP4"), "/o/v.MP4");
    assert_eq!(get_tmp_output_path("/o/v.mp4"), "/o/v.mp4");
    assert_eq!(get_tmp_output_path("/o/v.mov"), "/o/v.mp4");
    assert_eq!(get_tmp_output_path("/o/v"), "/o/v.mp4");
}

#[test]
fn clip_target_follows_audio_then_input() {
    match create_output_directory("/in/frames", Some("/m/song.mp3".into()), None) {
        ClipTarget::File { dir, stem } => {
            assert_eq!(dir, "/m");
            assert_eq!(stem, "song");
        }
        other => panic!("unexpected {:?}", other),
    }
    match create_output_directory("/in/frames", None, None) {
        ClipTarget::File { dir, stem } => {
            assert_eq!(dir, "/in");
            assert_eq!(stem, "frames");
        }
        other => panic!("unexpected {:?}", other),
    }
    match create_output_directory("/in/frames", None, Some("/x.mp4".into())) {
        ClipTarget::Given(p) => assert_eq!(p, "/x.mp4"),
        other => panic!("unexpected {:?}", other),
    }
    assert_eq!(build_output_file("/m", "song"), "/m/song.mp4");
    assert_eq!(build_output_file("/m", "song.v2"), "/m/song.v2.mp4");
    let r = random_output_file("/m", "song");
    assert!(r.starts_with("/m/song"));
    assert!(r.ends_with(".mp4"));
    assert_eq!(r.len(), "/m/song.mp4".len() + 2);
}

#[test]
fn clip_into_an_mp4_file_needs_no_rename() {
    let c = Clipper::new(
        "/in".into(),
        Some("/a/song.mp3".into()),
        "/out/v.mp4".into(),
        24,
        Some(1000),
        PathKind::Directory,
        LoadOutcome::Loaded(one_frame()),
    )
    .unwrap();
    let audio = c.clip("/tmp/t").unwrap().audio.unwrap();
    assert_eq!(audio.trimmed_video, "/out/v.mp4");
    assert!(!audio.rename);
}

#[test]
fn clip_with_audio_and_no_duration_is_refused() {
    let c = Clipper::new(
        "/in".into(),
        Some("/a/song.mp3".into()),
        "/out/v.mp4".into(),
        24,
        None,
        PathKind::Directory,
        LoadOutcome::Loaded(one_frame()),
    )
    .unwrap();
    assert_eq!(c.clip("/tmp/t").unwrap_err(), "duration must be provided");
}
