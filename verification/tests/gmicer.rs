use std::collections::BTreeMap;

use fxp_videoclipper::filename_handling::LoadOutcome;
use fxp_videoclipper::filename_parts::ImageMappingError;
use fxp_videoclipper::gmicer::{
    create_output_directory, display_warn_message, image_processing,
    output_number_of, output_numbers, random_directory_candidate, GmicOutputPlan, Gmicer,
};

fn strings(v: &[&str]) -> Vec<String> {
    v.iter().map(|s| s.to_string()).collect()
}

#[test]
fn gmic_output_directory_choices() {
    match create_output_directory("/in/frames", &strings(&["blur", "3"]), None) {
        GmicOutputPlan::Random { parent, base } => {
            assert_eq!(parent, "/in");
            assert_eq!(base, "frames_blur");
        }
        other => panic!("unexpected {:?}", other),
    }
    match create_output_directory("/in/frames", &vec![], None) {
        GmicOutputPlan::Failed(m) => assert_eq!(m, "GMIC arguments should not be empty"),
        other => panic!("unexpected {:?}", other),
    }
    match create_output_directory("/in/frames", &vec![], Some("/out".to_string())) {
        GmicOutputPlan::Replace(d) => assert_eq!(d, "/out"),
        other => panic!("unexpected {:?}", other),
    }
}

#[test]
fn random_directory_candidate_appends_two_alphanumerics() {
    let c = random_directory_candidate("/in", "frames_blur");
    assert!(c.starts_with("/in/frames_blur"));
    assert_eq!(c.len(), "/in/frames_blur".len() + 2);
    assert!(c.chars().rev().take(2).all(|ch| ch.is_ascii_alphanumeric()));
}

#[test]
fn image_processing_builds_one_job_per_image_in_order() {
    let mut images = BTreeMap::new();
    images.insert(2u32, "/in/a_0002".to_string());
    images.insert(1u32, "/in/a_0001.jpg".to_string());
    let jobs = image_processing(&images, &strings(&["blur", "3"]), "/out", true).unwrap();
    assert_eq!(jobs.len(), 2);
    assert_eq!(jobs[0].number, 1);
    assert_eq!(jobs[0].input, "/in/a_0001.jpg");
    assert_eq!(jobs[0].output, "/out/image_0001.jpg");
    assert_eq!(jobs[0].arguments, strings(&["/in/a_0001.jpg", "blur", "3", "-output", "/out/image_0001.jpg"]));
    assert_eq!(jobs[1].number, 2);
    assert_eq!(jobs[1].output, "/out/image_0002.png");
}

#[test]
fn image_processing_errors() {
    let mut images = BTreeMap::new();
    images.insert(1u32, "/in/a_1.png".to_string());
    assert_eq!(
        image_processing(&images, &vec![], "/out", false).unwrap_err(),
        "Error: The specified output directory does not exist."
    );
    assert_eq!(
        image_processing(&BTreeMap::new(), &vec![], "/out", true).unwrap_err(),
        "No valid images provided."
    );
}

#[test]
fn gmicer_reports_a_loading_failure_as_rename_error() {
    match Gmicer::new("/in", Some("/out".to_string()), vec![], "/out".to_string(), LoadOutcome::Failed(ImageMappingError::UnsupportedMode)) {
        Err(m) => assert_eq!(m, "Failed to rename image Mode not supported"),
        Ok(_) => panic!("unexpected success"),
    }
}

#[test]
fn gmicer_without_arguments_needs_an_output_directory() {
    match Gmicer::new("frames", None, vec![], "frames_out".to_string(), LoadOutcome::Loaded(BTreeMap::new())) {
        Err(m) => assert_eq!(m, "GMIC arguments should not be empty"),
        Ok(_) => panic!("unexpected success"),
    }
    assert!(Gmicer::new("frames", Some("/o".into()), vec![], "/o".to_string(), LoadOutcome::Loaded(BTreeMap::new())).is_ok());
}

#[test]
fn gmicer_without_images_does_nothing() {
    let g = Gmicer::new("/in", None, strings(&["blur"]), "/out".to_string(), LoadOutcome::Loaded(BTreeMap::new())).unwrap();
    assert!(g.gmic_images(false).unwrap().is_empty());
    assert_eq!(g.output_path(), "/out");
}

#[test]
fn gmicer_jobs_use_its_arguments() {
    let mut images = BTreeMap::new();
    images.insert(5u32, "/in/x_5.tif".to_string());
    let g = Gmicer::new("/in", None, strings(&["sharpen"]), "/out".to_string(), LoadOutcome::Loaded(images)).unwrap();
    let jobs = g.gmic_images(true).unwrap();
    assert_eq!(jobs.len(), 1);
    assert_eq!(jobs[0].arguments, strings(&["/in/x_5.tif", "sharpen", "-output", "/out/image_0005.tif"]));
}

#[test]
fn output_numbers_read_between_second_underscore_and_dot() {
    assert_eq!(output_number_of("image_0001_12.png"), Some("12".to_string()));
    assert_eq!(output_number_of("image_0001.png"), None);
    assert_eq!(output_number_of("image_0001_1a.png"), None);
    assert_eq!(output_number_of("a_b_.png"), None);
    assert_eq!(output_number_of("a_b_7"), None);
    assert_eq!(output_number_of("a.b_c_d"), None);
    assert_eq!(output_number_of("a_b_1.2.png"), None);
    assert_eq!(output_number_of("a_b_12.x.png"), None);
}

#[test]
fn output_numbers_are_unique_and_sorted_as_text() {
    let names = strings(&["image_0001_2.png", "image_0002_10.png", "image_0003_2.png", "x.png"]);
    assert_eq!(output_numbers(&names), strings(&["10", "2"]));
}

#[test]
fn warning_lists_the_numbers() {
    assert_eq!(
        display_warn_message(&strings(&["10", "2"])),
        Some("Unique numbers found in output files: 10, 2".to_string())
    );
    assert_eq!(display_warn_message(&vec![]), None);
}
