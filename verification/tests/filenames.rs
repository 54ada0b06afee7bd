use std::collections::BTreeMap;

use fxp_videoclipper::filename_handling::{
    extract_correct_number, map_files_by_number, FileOperations, LoadOutcome,
};
use fxp_videoclipper::filename_parts::{extract_prefix, FilenameParts, ImageMappingError};
use fxp_videoclipper::modes::Modes;

fn strings(v: &[&str]) -> Vec<String> {
    v.iter().map(|s| s.to_string()).collect()
}

#[test]
fn filename_parts_split_at_first_underscore() {
    let parts = FilenameParts::new("/tmp/x/frame_12_b.png").unwrap();
    assert_eq!(parts.prefix, "frame");
    assert_eq!(parts.suffix, "12_b.png");
    assert_eq!(parts.file_extension, "png");
    assert_eq!(parts.path, "/tmp/x/frame_12_b.png");
    assert!(!parts.is_modified());
}

#[test]
fn filename_parts_without_underscore_is_invalid() {
    match FilenameParts::new("/tmp/frame12.png") {
        Err(ImageMappingError::InvalidFilename(p, m)) => {
            assert_eq!(p, "/tmp/frame12.png");
            assert_eq!(m, "Filename does not contain '_' to split into prefix and suffix");
        }
        other => panic!("unexpected {:?}", other),
    }
}

#[test]
fn filename_parts_without_extension_is_invalid() {
    match FilenameParts::new("/tmp/frame_12") {
        Err(ImageMappingError::InvalidFilename(p, m)) => {
            assert_eq!(p, "/tmp/frame_12");
            assert_eq!(m, "Filename does not have a valid extension");
        }
        other => panic!("unexpected {:?}", other),
    }
}

#[test]
fn check_suffix_keeps_digits_and_pads() {
    let mut parts = FilenameParts::new("/d/frame_12.png").unwrap();
    parts.check_suffix().unwrap();
    assert_eq!(parts.suffix, "0012");
    assert!(parts.is_modified());
}

#[test]
fn check_suffix_cuts_at_underscore_after_first_digit() {
    let mut parts = FilenameParts::new("/d/a_1_extra9.jpg").unwrap();
    parts.check_suffix().unwrap();
    assert_eq!(parts.suffix, "0001");
}

#[test]
fn check_suffix_of_long_number_pads_to_eight() {
    let mut parts = FilenameParts::new("/d/a_123456.png").unwrap();
    parts.check_suffix().unwrap();
    assert_eq!(parts.suffix, "00123456");
}

#[test]
fn check_suffix_twice_changes_nothing_more() {
    let mut parts = FilenameParts::new("/d/a_7x.png").unwrap();
    parts.check_suffix().unwrap();
    let once = parts.suffix.clone();
    parts.check_suffix().unwrap();
    assert_eq!(parts.suffix, once);
    assert_eq!(once, "0007");
}

#[test]
fn check_prefix_replaces_a_different_prefix() {
    let mut parts = FilenameParts::new("/d/frame_0001.png").unwrap();
    parts.check_prefix("img").unwrap();
    assert_eq!(parts.prefix, "img");
    assert!(parts.is_modified());
    let mut same = FilenameParts::new("/d/frame_0001.png").unwrap();
    same.check_prefix("frame").unwrap();
    assert_eq!(same.prefix, "frame");
    assert!(!same.is_modified());
}

#[test]
fn construct_new_filename_joins_the_parts() {
    let mut parts = FilenameParts::new("/d/frame_1.png").unwrap();
    parts.check_suffix().unwrap();
    assert_eq!(parts.construct_new_filename("img"), "img_0001.png");
}

#[test]
fn extract_prefix_takes_the_stem_before_the_underscore() {
    assert_eq!(extract_prefix("/d/frame_0001.png").unwrap(), "frame");
    assert_eq!(extract_prefix("/d/plain.png").unwrap(), "plain");
}

#[test]
fn extract_correct_number_reads_digits_after_an_underscore() {
    assert_eq!(extract_correct_number("frame_0042"), Some(42));
    assert_eq!(extract_correct_number("frame"), None);
    assert_eq!(extract_correct_number("a_b_12"), Some(12));
    assert_eq!(extract_correct_number("x_99999999999"), None);
    assert_eq!(extract_correct_number("x_4294967295"), Some(4294967295));
    assert_eq!(extract_correct_number("x__3_5"), Some(3));
    assert_eq!(extract_correct_number("x_"), None);
}

#[test]
fn map_files_by_number_orders_by_number_and_skips_unnumbered() {
    let m = map_files_by_number(strings(&["/d/f_0002.png", "/d/f_0001.png", "/d/readme.txt"])).unwrap();
    let mut expected = BTreeMap::new();
    expected.insert(1u32, "/d/image_0001.png".to_string());
    expected.insert(2u32, "/d/image_0002.png".to_string());
    assert_eq!(m, expected);
    let j = map_files_by_number(strings(&["d/cover.png", "d/img_12.jpeg", "d/raw_7"])).unwrap();
    assert_eq!(j.len(), 2);
    assert_eq!(j[&12], "d/image_0012.jpeg");
    assert_eq!(j[&7], "d/image_0007.");
}

#[test]
fn map_files_by_number_refuses_duplicates() {
    match map_files_by_number(strings(&["/d/a_1.png", "/d/b_01.png"])) {
        Err(ImageMappingError::DuplicateIdentifier(n, a, b)) => {
            assert_eq!(n, 1);
            assert_eq!(a, "/d/a_1.png");
            assert_eq!(b, "/d/b_01.png");
        }
        other => panic!("unexpected {:?}", other),
    }
    match map_files_by_number(strings(&["d/img_1.png", "d/img_0001.jpg"])) {
        Err(ImageMappingError::DuplicateIdentifier(n, a, b)) => {
            assert_eq!(n, 1);
            assert_eq!(a, "d/img_1.png");
            assert_eq!(b, "d/img_0001.jpg");
        }
        other => panic!("unexpected {:?}", other),
    }
}

#[test]
fn error_messages_match_their_display_text() {
    let dup = ImageMappingError::DuplicateIdentifier(1, "/d/a_1.png".into(), "/d/b_01.png".into());
    assert_eq!(dup.message(), "Duplicate numerical identifier 1 found in files: \"/d/a_1.png\" and \"/d/b_01.png\"");
    assert_eq!(ImageMappingError::RenameError("x".into()).message(), "Failed to rename image x");
    assert_eq!(ImageMappingError::UnsupportedMode.message(), "Mode not supported");
    assert_eq!(ImageMappingError::InvalidFilename("/p".into(), "m".into()).message(), "Invalid filename \"/p\": m");
    assert_eq!(ImageMappingError::FileNotFound("d".into()).message(), "No images found on target folder d");
}

#[test]
fn exporter_mode_does_not_load_files() {
    let plan = Modes::Exporter.load_files(&strings(&["/d/a_1.png"]));
    assert!(plan.renames.is_empty());
    assert!(matches!(plan.outcome, LoadOutcome::Failed(ImageMappingError::UnsupportedMode)));
}

#[test]
fn clipper_mode_renames_into_the_common_shape() {
    let plan = Modes::Clipper.load_files(&strings(&["/d/frame_1.png", "/d/frame_2.png", "/d/img_3.png"]));
    assert_eq!(
        plan.renames,
        vec![
            ("/d/frame_2.png".to_string(), "/d/frame_0002.png".to_string()),
            ("/d/img_3.png".to_string(), "/d/frame_0003.png".to_string()),
        ]
    );
    match plan.outcome {
        LoadOutcome::Loaded(m) => {
            let mut expected = BTreeMap::new();
            expected.insert(1u32, "/d/image_0001.png".to_string());
            expected.insert(2u32, "/d/image_0002.png".to_string());
            expected.insert(3u32, "/d/image_0003.png".to_string());
            assert_eq!(m, expected);
        }
        other => panic!("unexpected {:?}", other),
    }
}

#[test]
fn loading_stops_at_an_invalid_name() {
    let plan = Modes::Gmicer.load_files(&strings(&["/d/frame_1.png", "/d/broken.png"]));
    match plan.outcome {
        LoadOutcome::Failed(ImageMappingError::InvalidFilename(p, _)) => assert_eq!(p, "/d/broken.png"),
        other => panic!("unexpected {:?}", other),
    }
}

#[test]
fn check_suffix_counts_characters_not_bytes() {
    let mut parts = FilenameParts::new("/d/img_\u{e9}\u{e9}1_2.png").unwrap();
    parts.check_suffix().unwrap();
    assert_eq!(parts.suffix, "0001");
    assert!(parts.is_modified());
}

#[test]
fn loading_an_empty_directory_reports_no_images() {
    let plan = Modes::Clipper.load_files(&Vec::new());
    assert!(plan.renames.is_empty());
    match plan.outcome {
        LoadOutcome::Failed(ImageMappingError::FileNotFound(d)) => assert_eq!(d, ""),
        other => panic!("unexpected {:?}", other),
    }
}
