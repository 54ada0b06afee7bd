use fxp_videoclipper::exporter::{choose_cut, CutChoice};
use fxp_videoclipper::exporter::{
    calculate_aspect_ratio_dimensions, cut_video_output_path, ensure_even, frame_file, parse_dimensions,
    scale_filter, Exporter,
};
use fxp_videoclipper::text::{decimal_string, parse_unsigned_str, zero_padded_decimal};

#[test]
fn ensure_even_rounds_up() {
    assert_eq!(ensure_even(479), 480);
    assert_eq!(ensure_even(480), 480);
    assert_eq!(ensure_even(0), 0);
}

#[test]
fn aspect_ratio_dimensions_keep_to_the_limit() {
    assert_eq!(calculate_aspect_ratio_dimensions(1920, 1080, 480), (480, 270 + 0));
    assert_eq!(calculate_aspect_ratio_dimensions(1080, 1920, 480), (270, 480));
    assert_eq!(calculate_aspect_ratio_dimensions(1000, 333, 101), (100, 34));
    assert_eq!(calculate_aspect_ratio_dimensions(100, 100, 7), (6, 6));
    assert_eq!(calculate_aspect_ratio_dimensions(100, 100, 1), (0, 0));
    assert_eq!(calculate_aspect_ratio_dimensions(0, 0, 480), (480, 0));
    let (w, h) = calculate_aspect_ratio_dimensions(1280, 719, 641);
    assert_eq!(w % 2, 0);
    assert_eq!(h % 2, 0);
    assert!(h <= w);
    assert_eq!(w, 640);
    assert_eq!(scale_filter(1920, 1080, 480), "scale=480:270");
}

#[test]
fn exporter_refuses_zero_settings() {
    assert_eq!(
        Exporter::new("/v/clip.mp4".into(), "/out".into(), 0, 24, 480).unwrap_err(),
        "Duration must be greater than zero"
    );
    assert_eq!(
        Exporter::new("/v/clip.mp4".into(), "/out".into(), 0, 0, 480).unwrap_err(),
        "Duration must be greater than zero"
    );
    assert_eq!(
        Exporter::new("/v/clip.mp4".into(), "/out".into(), 5000, 0, 480).unwrap_err(),
        "FPS must be greater than zero"
    );
}

#[test]
fn exporter_keeps_its_settings() {
    let e = Exporter::new("/v/clip.mp4".into(), "/out".into(), 5000, 24, 480).unwrap();
    assert_eq!(e.video_path, "/v/clip.mp4");
    assert_eq!(e.output_dir, "/out");
    assert_eq!(e.duration, 5000);
    assert_eq!(e.fps, 24);
    assert_eq!(e.pixel_upper_limit, 480);
}

#[test]
fn frame_and_cut_names() {
    assert_eq!(frame_file(7), "frame_0007.png");
    assert_eq!(frame_file(12345), "frame_12345.png");
    assert_eq!(cut_video_output_path("/tmp/t", "clip.mp4.mp4"), "/tmp/t/clip.mp4");
    assert_eq!(cut_video_output_path("/tmp/t", "clip.mov"), "/tmp/t/clip.mov.mp4");
    assert_eq!(cut_video_output_path("/tmp/t", "/v/a.mp4"), "/tmp/t/a.mp4");
    assert_eq!(cut_video_output_path("/tmp/t", "/"), "/tmp/t/video.mp4");
}

#[test]
fn dimensions_are_read_from_ffprobe_output() {
    assert_eq!(parse_dimensions("1920x1080\n"), Ok((1920, 1080)));
    assert_eq!(parse_dimensions("1920x1080x2"), Err("Unexpected dimensions format: 1920x1080x2".to_string()));
    assert_eq!(parse_dimensions(""), Err("Unexpected dimensions format: ".to_string()));
    assert_eq!(parse_dimensions("axb"), Err("Failed to parse video width".to_string()));
    assert_eq!(parse_dimensions("10x"), Err("Failed to parse video height".to_string()));
}

#[test]
fn decimal_round_trip() {
    for n in [0u64, 7, 10, 4294967295, 18446744073709551615] {
        assert_eq!(parse_unsigned_str(&decimal_string(n), u64::MAX), Some(n));
    }
    assert_eq!(zero_padded_decimal(7, 4), "0007");
    assert_eq!(zero_padded_decimal(123456, 4), "123456");
    assert_eq!(parse_unsigned_str("256", 255), None);
    assert_eq!(parse_unsigned_str("", 255), None);
    assert_eq!(parse_unsigned_str("+", 255), None);
}

#[test]
fn a_video_shorter_than_the_request_is_used_as_it_is() {
    assert_eq!(choose_cut(5000, Some(3000)), CutChoice::Original { duration_ms: 3000 });
    assert_eq!(choose_cut(3000, Some(3000)), CutChoice::Cut { duration_ms: 3000 });
    assert_eq!(choose_cut(5000, None), CutChoice::Cut { duration_ms: 5000 });
}
