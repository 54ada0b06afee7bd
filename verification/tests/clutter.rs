use std::collections::BTreeMap;

use fxp_videoclipper::clutter::Clutter;
use fxp_videoclipper::merger::{merge_all_images, merge_total};
use fxp_videoclipper::output::PathKind;

#[test]
fn clutter_checks_its_inputs() {
    assert_eq!(
        Clutter::check_inputs("/in", PathKind::Missing, "/c.png", PathKind::File).unwrap_err(),
        "Input directory '/in' does not exist or is not a directory"
    );
    assert_eq!(
        Clutter::check_inputs("/in", PathKind::Directory, "/c.png", PathKind::Directory).unwrap_err(),
        "CLUT image '/c.png' does not exist or is not a file"
    );
    assert!(Clutter::check_inputs("/in", PathKind::Directory, "/c.png", PathKind::File).is_ok());
}

#[test]
fn clut_jobs_write_under_the_image_names() {
    let mut c = Clutter::new("/in".into(), "/c.png".into(), "/out".into());
    assert!(c.input_files().is_empty());
    let mut files = BTreeMap::new();
    files.insert(2u32, "/in/f_0002.png".to_string());
    files.insert(1u32, "/in/f_0001.png".to_string());
    let run = c.create_clut_images(files.clone());
    assert_eq!(run.output_directory, "/out");
    assert_eq!(run.jobs.len(), 2);
    assert_eq!(run.jobs[0].input, "/in/f_0001.png");
    assert_eq!(run.jobs[0].output, "/out/f_0001.png");
    assert_eq!(
        run.jobs[0].arguments,
        vec!["/c.png".to_string(), "/in/f_0001.png".to_string(), "-clut".to_string(), "/out/f_0001.png".to_string()]
    );
    assert_eq!(run.jobs[1].output, "/out/f_0002.png");
    assert_eq!(c.input_files(), &files);
}

#[test]
fn clut_jobs_refuse_an_image_without_name() {
    let mut c = Clutter::new("/in".into(), "/c.png".into(), "/out".into());
    let mut files = BTreeMap::new();
    files.insert(1u32, "/".to_string());
    assert!(c.try_create_clut_images(files).is_none());
    assert!(c.input_files().is_empty());
}

#[test]
fn merge_total_is_the_smaller_count() {
    assert_eq!(merge_total(3, 5), 3);
    assert_eq!(merge_total(7, 2), 2);
}

#[test]
fn merge_pairs_images_of_the_same_number() {
    let mut first = BTreeMap::new();
    first.insert(1u32, "/a/f_0001.png".to_string());
    first.insert(2u32, "/a/f_0002.png".to_string());
    first.insert(3u32, "/a/f_0003.png".to_string());
    let mut second = BTreeMap::new();
    second.insert(1u32, "/b/g_0001.png".to_string());
    second.insert(3u32, "/b/g_0003.png".to_string());
    let plan = merge_all_images(&first, &second, "/out", 3);
    assert!(plan.failure.is_none());
    let got: Vec<(u32, String, String, String)> =
        plan.pairs.into_iter().map(|p| (p.number, p.first, p.second, p.output)).collect();
    assert_eq!(
        got,
        vec![
            (1, "/a/f_0001.png".into(), "/b/g_0001.png".into(), "/out/f_0001.png".into()),
            (3, "/a/f_0003.png".into(), "/b/g_0003.png".into(), "/out/f_0003.png".into()),
        ]
    );
    let short = merge_all_images(&first, &second, "/out", 2);
    assert_eq!(short.pairs.len(), 1);
}

#[test]
fn merge_stops_at_an_image_without_name() {
    let mut first = BTreeMap::new();
    first.insert(1u32, "/a/f_0001.png".to_string());
    first.insert(2u32, "/".to_string());
    let mut second = BTreeMap::new();
    second.insert(1u32, "/b/g_0001.png".to_string());
    second.insert(2u32, "/b/g_0002.png".to_string());
    let plan = merge_all_images(&first, &second, "/out", 2);
    assert_eq!(plan.pairs.len(), 1);
    assert_eq!(plan.failure, Some("Failed to get file name from directory1".to_string()));
}
