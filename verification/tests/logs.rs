use fxp_videoclipper::logs::log_files_to_delete;

fn entries(v: &[(&str, Option<u128>)]) -> Vec<(String, Option<u128>)> {
    v.iter().map(|(p, t)| (p.to_string(), *t)).collect()
}

#[test]
fn oldest_log_files_go_first() {
    let files = entries(&[
        ("/l/app.log", Some(30)),
        ("/l/app.log.1", Some(5)),
        ("/l/old.log", Some(10)),
        ("/l/older.log", Some(2)),
        ("/l/notes.txt", Some(1)),
    ]);
    assert_eq!(log_files_to_delete(files, 1), vec!["/l/older.log".to_string(), "/l/old.log".to_string()]);
}

#[test]
fn nothing_is_deleted_within_the_limit() {
    let files = entries(&[("/l/a.log", Some(3)), ("/l/b.log", Some(1))]);
    assert!(log_files_to_delete(files, 2).is_empty());
    assert!(log_files_to_delete(Vec::new(), 0).is_empty());
}

#[test]
fn unknown_times_come_first_and_ties_keep_listing_order() {
    let files = entries(&[
        ("/l/c.log", Some(7)),
        ("/l/a.log", None),
        ("/l/d.log", Some(7)),
        ("/l/b.log", None),
    ]);
    assert_eq!(
        log_files_to_delete(files, 1),
        vec!["/l/a.log".to_string(), "/l/b.log".to_string(), "/l/c.log".to_string()]
    );
}
