use video_trimmer::app::{exit_code, LaunchState};
use video_trimmer::cli::LaunchOptions;
use video_trimmer::config::{Format, OnDone, Quality};
use video_trimmer::error::AppError;
use video_trimmer::lifecycle::{wayland_socket, EXIT_CANCELLED, EXIT_FAILURE, EXIT_STARTUP};

#[test]
fn exit_code_is_zero_only_after_success() {
    assert_eq!(exit_code(0, true), 0);
    assert_eq!(exit_code(130, true), 0);
    assert_eq!(exit_code(1, true), 0);
    assert_eq!(exit_code(0, false), EXIT_FAILURE);
    assert_eq!(exit_code(130, false), EXIT_CANCELLED);
    assert_eq!(exit_code(1, false), EXIT_FAILURE);
}

#[test]
fn exit_codes_are_distinct_and_nonzero() {
    assert_ne!(EXIT_FAILURE, EXIT_STARTUP);
    assert_ne!(EXIT_CANCELLED, EXIT_STARTUP);
    assert!([EXIT_FAILURE, EXIT_STARTUP, EXIT_CANCELLED]
        .iter()
        .all(|v| *v != 0))
}

fn options() -> LaunchOptions {
    LaunchOptions {
        input: Some("in.mp4".to_string()),
        output: None,
        format: Format::Gif,
        quality: Quality::Small,
        on_done: OnDone::Stay,
        verbose: true,
    }
}

#[test]
fn launch_options_are_taken_once() {
    let mut state = LaunchState::new(options());
    assert!(!state.succeeded);
    let first = state.take_launch_options().unwrap();
    assert_eq!(first.input.as_deref(), Some("in.mp4"));
    assert_eq!(first.format, Format::Gif);
    match state.take_launch_options() {
        Err(AppError::Internal(m)) => assert_eq!(m, "launch options were already consumed"),
        _ => panic!("second take must fail"),
    }
}

#[test]
fn success_makes_the_session_exit_zero() {
    let mut state = LaunchState::new(options());
    assert_eq!(exit_code(EXIT_CANCELLED, state.succeeded), EXIT_CANCELLED);
    state.mark_succeeded();
    assert_eq!(exit_code(EXIT_CANCELLED, state.succeeded), 0);
    assert_eq!(exit_code(7, state.succeeded), 0);
}

#[test]
fn error_messages_follow_their_kind() {
    assert_eq!(
        AppError::MissingInput("a.mp4".into()).message(),
        "Input does not exist: a.mp4"
    );
    assert_eq!(AppError::NoVideo.message(), "The MP4 contains no video stream");
    assert_eq!(AppError::ExportBusy.message(), "An export is already running");
    assert_eq!(AppError::Cancelled.message(), "Export cancelled");
    assert_eq!(
        AppError::Destination("missing filename".into()).message(),
        "Invalid destination: missing filename"
    );
    assert_eq!(AppError::Internal("x".into()).message(), "Internal error: x");
}

#[test]
fn missing_wayland_is_rejected() {
    assert_eq!(
        wayland_socket(None, Some("/run/user/1000")),
        Err("WAYLAND_DISPLAY is not set; video-trimmer requires a native Wayland session".to_string())
    );
}

#[test]
fn wayland_socket_is_absolute_or_inside_the_runtime_dir() {
    assert_eq!(
        wayland_socket(Some("wayland-1"), Some("/run/user/1000")),
        Ok("/run/user/1000/wayland-1".to_string())
    );
    assert_eq!(
        wayland_socket(Some("/tmp/wl-0"), None),
        Ok("/tmp/wl-0".to_string())
    );
    assert_eq!(
        wayland_socket(Some("wayland-0"), None),
        Err("XDG_RUNTIME_DIR is not set; cannot locate Wayland display".to_string())
    );
}
