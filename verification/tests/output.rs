use fxp_videoclipper::output::{search_step, SearchStep};
use fxp_videoclipper::modes::Modes;
use fxp_videoclipper::output::{
    clipper_file_candidate, counted_name_exec, unique_dir_candidate, ClipperOutput, ClutterOutput,
    ExporterOutput, GmicerOutput, MergerOutput, ModeOutput, Output, OutputRequest, PathKind,
    SamplerOutput, SamplerTargetPlan,
};

#[test]
fn each_mode_has_its_own_output() {
    assert!(matches!(Output::from(Modes::Exporter), Output::Exporter(_)));
    assert!(matches!(Output::from(Modes::Sampler), Output::Sampler(_)));
    assert!(matches!(Output::from(Modes::Merger), Output::Merger(_)));
    assert!(matches!(Output::from(Modes::Clutter), Output::Clutter(_)));
    assert!(matches!(Output::from(Modes::Gmicer), Output::Gmicer(_)));
    assert!(matches!(Output::from(Modes::Clipper), Output::Clipper(_)));
}

#[test]
fn exporter_output_is_named_after_the_video() {
    match ExporterOutput.create_output(("/v/clip.mp4".to_string(), None)) {
        OutputRequest::UniqueDirectory { parent, base } => {
            assert_eq!(parent, "/v");
            assert_eq!(base, "clip_original_frames");
        }
        other => panic!("unexpected {:?}", other),
    }
    match ExporterOutput.create_output(("/v/clip.mp4".to_string(), Some("/out".to_string()))) {
        OutputRequest::ExplicitDirectory(d) => assert_eq!(d, "/out"),
        other => panic!("unexpected {:?}", other),
    }
}

#[test]
fn clutter_and_merger_outputs_are_named_after_the_input() {
    match ClutterOutput.create_output(("/in/frames".to_string(), None)) {
        OutputRequest::UniqueDirectory { parent, base } => {
            assert_eq!(parent, "/in");
            assert_eq!(base, "frames_clutted");
        }
        other => panic!("unexpected {:?}", other),
    }
    match MergerOutput.create_output(("/in/frames".to_string(), None, "0.5".to_string())) {
        OutputRequest::UniqueDirectory { parent, base } => {
            assert_eq!(parent, "/in");
            assert_eq!(base, "frames_merged_0.5");
        }
        other => panic!("unexpected {:?}", other),
    }
}

#[test]
fn gmicer_output_needs_an_argument_without_explicit_directory() {
    match GmicerOutput.create_output(("/in/frames".to_string(), vec![], None)) {
        OutputRequest::Failed(m) => assert_eq!(m, "GMIC arguments should not be empty"),
        other => panic!("unexpected {:?}", other),
    }
    match GmicerOutput.create_output(("/in/frames".to_string(), vec!["blur".to_string()], None)) {
        OutputRequest::UniqueDirectory { parent, base } => {
            assert_eq!(parent, "/in");
            assert_eq!(base, "frames_blur");
        }
        other => panic!("unexpected {:?}", other),
    }
}

#[test]
fn sampler_output_defaults_to_sample_frames() {
    match SamplerOutput.create_output(("/v/clip.mp4".to_string(), None, 3)) {
        OutputRequest::UniqueDirectory { parent, base } => {
            assert_eq!(parent, "/v");
            assert_eq!(base, "sample_frames");
        }
        other => panic!("unexpected {:?}", other),
    }
    match SamplerOutput.explicit_target("/o", 1, PathKind::Directory) {
        SamplerTargetPlan::FileInDirectory(p) => assert_eq!(p, "/o/output_file"),
        other => panic!("unexpected {:?}", other),
    }
    match SamplerOutput.explicit_target("/o/x.png", 4, PathKind::File) {
        SamplerTargetPlan::Directory { path, remove_file } => {
            assert_eq!(path, "/o/x.png");
            assert!(remove_file);
        }
        other => panic!("unexpected {:?}", other),
    }
}

#[test]
fn clipper_output_follows_the_audio_file() {
    match ClipperOutput.create_output(("/in/frames".to_string(), Some("/m/song.mp3".to_string()), None)) {
        OutputRequest::ClipperFile { dir, stem } => {
            assert_eq!(dir, "/m");
            assert_eq!(stem, "song");
        }
        other => panic!("unexpected {:?}", other),
    }
    assert_eq!(
        ClipperOutput.explicit_output_file("/out", None, "/in/frames", true).unwrap(),
        "/out/frames.mp4"
    );
    assert_eq!(
        ClipperOutput.explicit_output_file("/out/v.mp4", None, "/in/frames", false).unwrap(),
        "/out/v.mp4"
    );
}

#[test]
fn counted_names_are_distinct() {
    assert_eq!(counted_name_exec("dir", 0), "dir");
    assert_eq!(counted_name_exec("dir", 2), "dir_2");
    assert_ne!(counted_name_exec("dir", 1), counted_name_exec("dir", 11));
    assert_eq!(unique_dir_candidate("/v", "dir", 1), "/v/dir_1");
    assert_eq!(clipper_file_candidate("/m", "song", 0), "/m/song.mp4");
    assert_eq!(clipper_file_candidate("/m", "song.v2", 0), "/m/song.v2.mp4");
    assert_eq!(clipper_file_candidate("/m", "song.v2", 1), "/m/song.v2_1.mp4");
    assert_eq!(clipper_file_candidate("/m", "song", 3), "/m/song_3.mp4");
}

#[test]
fn joining_an_absolute_path_replaces_the_base() {
    assert_eq!(fxp_videoclipper::paths::join("/tmp/t", "/v/a.mp4"), "/v/a.mp4");
    assert_eq!(fxp_videoclipper::paths::join("/tmp/t", "a.mp4"), "/tmp/t/a.mp4");
}

#[test]
fn the_search_takes_the_first_free_candidate() {
    assert_eq!(search_step(0, true), SearchStep::Next(1));
    assert_eq!(search_step(4, false), SearchStep::Take(4));
    let taken = [true, true, false, false];
    let mut k = 0u64;
    let found = loop {
        match search_step(k, taken[k as usize]) {
            SearchStep::Take(t) => break t,
            SearchStep::Next(n) => k = n,
        }
    };
    assert_eq!(found, 2);
}
