use decoreco::encode::{
    interpret_encode, plan_encode, replace_plan, resolve_mode, scratch_name, worker_count,
    EncodeError, EncodeMode, ReplacePlan,
};

#[test]
fn png_selects_the_lossless_path() {
    let cmd = plan_encode(&EncodeMode::Image, "pic.png", "/tmp/0.png").unwrap();
    assert_eq!(cmd.program, "cjxl");
    assert_eq!(cmd.args, vec!["-d", "0", "pic.png", "/tmp/0.png"]);
}

#[test]
fn jpg_selects_the_lossy_path() {
    let cmd = plan_encode(&EncodeMode::Image, "pic.jpg", "/tmp/0.jpg").unwrap();
    assert_eq!(cmd.program, "cjxl");
    assert_eq!(cmd.args, vec!["pic.jpg", "/tmp/0.jpg"]);
    let cmd = plan_encode(&EncodeMode::Image, "pic.jpeg", "/tmp/1.jpeg").unwrap();
    assert_eq!(cmd.args, vec!["pic.jpeg", "/tmp/1.jpeg"]);
}

#[test]
fn gif_is_rejected_before_any_encoder_runs() {
    let err = plan_encode(&EncodeMode::Image, "pic.gif", "/tmp/0.gif").unwrap_err();
    let EncodeError::UnsupportedImage { path } = err;
    assert_eq!(path, "pic.gif");
}

#[test]
fn unsupported_image_message_names_the_file() {
    let err = plan_encode(&EncodeMode::Image, "pic.gif", "/tmp/0.gif").unwrap_err();
    assert_eq!(err.message(), "pic.gif is not a supported image format");
}

#[test]
fn video_mode_plans_the_general_transcoder() {
    let mode = resolve_mode(false, "hevc", "opus");
    let cmd = plan_encode(&mode, "clip.mp4", "/tmp/0.mp4").unwrap();
    assert_eq!(cmd.program, "ffmpeg");
    let expect: Vec<&str> = vec![
        "-i", "clip.mp4", "-c:v", "hevc", "-c:a", "opus", "-c:s", "copy", "-map_metadata", "0",
        "-y", "/tmp/0.mp4",
    ];
    assert_eq!(cmd.args, expect);
}

#[test]
fn image_flag_resolves_to_image_mode() {
    let mode = resolve_mode(true, "h264", "aac");
    assert!(matches!(mode, EncodeMode::Image));
}

#[test]
fn scratch_names_are_indexed_and_keep_the_extension() {
    assert_eq!(scratch_name(3, "dir/a.mp4"), "3.mp4");
    assert_eq!(scratch_name(0, "noext"), "0.noext");
    assert_eq!(scratch_name(12, "x.tar.gz"), "12.gz");
}

#[test]
fn clean_exit_is_a_success() {
    assert!(interpret_encode(true, "a.mp4", "").is_ok());
}

#[test]
fn failed_exit_reports_file_and_stderr() {
    let err = interpret_encode(false, "a.mp4", "codec not found").unwrap_err();
    assert_eq!(err, "a.mp4\ncodec not found\n");
}

#[test]
fn dry_run_never_replaces() {
    assert!(matches!(replace_plan(false, true, "a.mp4"), ReplacePlan::Skip));
    assert!(matches!(replace_plan(true, true, "a.png"), ReplacePlan::Skip));
}

#[test]
fn video_replacement_overwrites_in_place() {
    match replace_plan(false, false, "a.mp4") {
        ReplacePlan::Move { dest, remove_original } => {
            assert_eq!(dest, "a.mp4");
            assert!(!remove_original);
        },
        ReplacePlan::Skip => panic!("expected a move"),
    }
}

#[test]
fn image_replacement_targets_jxl_and_removes_the_original() {
    match replace_plan(true, false, "a.png") {
        ReplacePlan::Move { dest, remove_original } => {
            assert_eq!(dest, "a.png.jxl");
            assert!(remove_original);
        },
        ReplacePlan::Skip => panic!("expected a move"),
    }
}

#[test]
fn worker_count_policy() {
    assert_eq!(worker_count(4, false), 4);
    assert_eq!(worker_count(4, true), 4);
    assert_eq!(worker_count(0, false), 0);
    assert_eq!(worker_count(0, true), 1);
}
