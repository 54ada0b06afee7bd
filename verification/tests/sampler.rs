use fxp_videoclipper::sampler::{multiple_frames_plan, single_frame_plan, SamplePlan, Sampler};

#[test]
fn sampling_checks_come_first() {
    let s = Sampler::new("/v/clip.mp4".into(), Some("/out".into()), 1000, Some(3));
    assert_eq!(s.sample_images(false, false).unwrap_err(), "Processing interrupted before starting.");
    let z = Sampler::new("/v/clip.mp4".into(), Some("/out".into()), 0, Some(3));
    assert_eq!(z.sample_images(true, false).unwrap_err(), "Invalid video duration: must be greater than 0.");
    let o = Sampler::new("/v/clip.mp4".into(), None, 1000, Some(3));
    assert_eq!(o.sample_images(true, false).unwrap_err(), "Output path not provided");
    let n = Sampler::new("/v/clip.mp4".into(), Some("/out".into()), 1000, Some(0));
    assert_eq!(n.sample_images(true, false).unwrap_err(), "Invalid sampling number: Some(0)");
    let none = Sampler::new("/v/clip.mp4".into(), Some("/out".into()), 1000, None);
    match none.sample_images(true, false).unwrap() {
        SamplePlan::Single(plan) => {
            assert_eq!(plan.timestamp_ms, 500);
            assert_eq!(plan.pattern, "/out/sample_frame%01d.png");
        }
        other => panic!("unexpected {:?}", other),
    }
}

#[test]
fn one_frame_is_taken_from_the_middle_into_a_directory() {
    let s = Sampler::new("/v/clip.mp4".into(), Some("/out".into()), 10001, Some(1));
    match s.sample_images(true, false).unwrap() {
        SamplePlan::Single(plan) => {
            assert_eq!(plan.timestamp_ms, 5000);
            assert_eq!(plan.pattern, "/out/sample_frame%01d.png");
            assert!(plan.rename.is_none());
        }
        other => panic!("unexpected {:?}", other),
    }
}

#[test]
fn one_frame_into_a_png_file_is_renamed_afterwards() {
    let plan = single_frame_plan(4000, "/out/shot.PNG", true, true).unwrap();
    assert_eq!(plan.timestamp_ms, 2000);
    assert_eq!(plan.pattern, "/out/shot%01d.png");
    assert_eq!(plan.rename, Some(("/out/shot1.png".to_string(), "/out/shot.PNG".to_string())));
}

#[test]
fn one_frame_into_another_file_keeps_its_name_in_the_pattern() {
    let plan = single_frame_plan(4000, "/out/shot.jpg", true, true).unwrap();
    assert_eq!(plan.pattern, "/out/shot.jpg%01d.png");
    assert_eq!(plan.rename, Some(("/out/shot1.png".to_string(), "/out/shot.jpg".to_string())));
}

#[test]
fn single_frame_plan_errors() {
    assert_eq!(single_frame_plan(4000, "/out", false, false).unwrap_err(), "Extraction interrupted before starting.");
    assert_eq!(single_frame_plan(0, "/out", false, true).unwrap_err(), "Failed to determine video length.");
}

#[test]
fn several_frames_are_spread_evenly() {
    let s = Sampler::new("/v/clip.mp4".into(), Some("/out".into()), 1000, Some(3));
    match s.sample_images(true, false).unwrap() {
        SamplePlan::Multiple(frames) => {
            let got: Vec<(u64, String)> = frames.into_iter().map(|f| (f.timestamp_ms, f.output)).collect();
            assert_eq!(
                got,
                vec![
                    (250, "/out/sample_frame_1.png".to_string()),
                    (500, "/out/sample_frame_2.png".to_string()),
                    (750, "/out/sample_frame_3.png".to_string()),
                ]
            );
        }
        other => panic!("unexpected {:?}", other),
    }
}

#[test]
fn spread_frames_lie_inside_the_video_and_keep_their_spacing() {
    let frames = multiple_frames_plan(999, 4, "/o", true).unwrap();
    let interval = 999 / 5;
    assert_eq!(frames[0].timestamp_ms, interval);
    for w in frames.windows(2) {
        assert_eq!(w[1].timestamp_ms - w[0].timestamp_ms, interval);
    }
    assert!(frames.iter().all(|f| f.timestamp_ms < 999));
    assert_eq!(multiple_frames_plan(0, 4, "/o", true).unwrap_err(), "Failed to determine video length.");
}
