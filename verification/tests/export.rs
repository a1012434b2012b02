use video_trimmer::acceleration::AccelerationState;
use video_trimmer::config::{Format, Quality};
use video_trimmer::error::AppError;
use video_trimmer::export::{
    args, attempts, check_not_source, check_output_name, completed_effective_start,
    export_failure, initial_effective_start, planned_attempts, progress_micros, records,
    scale_filter, validate_trim, with_verbose_loglevel, AttemptKind, AttemptRun, ExportPlan,
    ExportState,
};

fn plan(format: Format, quality: Quality, input: &str, temp: &str, start: u64, duration: u64) -> ExportPlan {
    ExportPlan {
        format,
        quality,
        input: input.to_string(),
        temp: temp.to_string(),
        start,
        duration,
    }
}

#[test]
fn ffmpeg_args_are_discrete_and_exact() {
    let p = plan(
        Format::Mp4,
        Quality::Original,
        "a;echo.mp4",
        "out.mp4",
        1_000_000,
        2_000_000,
    );
    let a = args(&p, AttemptKind::Software, None);
    assert!(a.contains(&"a;echo.mp4".into()));
    assert!(a.contains(&"libx264".into()));
    assert!(a.contains(&"18".into()));
    assert!(!a.contains(&"copy".into()));
    let input = a.iter().position(|v| v == "-i").unwrap();
    assert!(a.iter().position(|v| v == "-ss").unwrap() > input);
    let copy = args(
        &plan(
            Format::Copy,
            Quality::Small,
            &p.input,
            &p.temp,
            1_000_000,
            2_000_000,
        ),
        AttemptKind::Software,
        None,
    );
    assert!(copy.iter().position(|v| v == "-ss") < copy.iter().position(|v| v == "-i"));
    assert!(copy.contains(&"copy".into()));
    assert!(!copy.iter().any(|v| v == "-vf" || v.contains("scale")));
}

#[test]
fn attempts_and_records_follow_format() {
    assert_eq!(
        attempts(Format::Mp4),
        vec![
            AttemptKind::FullVaapi,
            AttemptKind::VaapiEncode,
            AttemptKind::Software
        ]
    );
    for format in [Format::Webm, Format::Gif, Format::Copy] {
        assert_eq!(attempts(format), vec![AttemptKind::Software]);
        let a = args(
            &plan(format, Quality::Original, "in.mp4", "t", 0, 1),
            AttemptKind::Software,
            None,
        );
        assert!(!a.iter().any(|v| v.contains("vaapi")));
    }
    assert!(records(AttemptKind::Software, Format::Copy, None).is_empty());
    let webm = records(AttemptKind::Software, Format::Webm, None);
    assert!(webm.iter().all(|r| r.state == AccelerationState::Software));
    assert_eq!(webm[1].implementation.as_deref(), Some("libvpx-vp9"));
    let gif = records(AttemptKind::Software, Format::Gif, None);
    assert_eq!(gif[1].implementation.as_deref(), Some("gif"));
}

#[test]
fn complete_software_mp4_command_line() {
    let a = args(
        &plan(Format::Mp4, Quality::Small, "in.mp4", "tmp.mp4", 1_500_000, 250_000),
        AttemptKind::Software,
        None,
    );
    let expected: Vec<String> = [
        "-hide_banner", "-nostdin", "-y", "-loglevel", "warning", "-i", "in.mp4", "-ss",
        "1.500000", "-t", "0.250000", "-map", "0:v:0", "-map", "0:a?", "-vf",
        "setpts=PTS-STARTPTS,scale=w='min(iw,if(gte(iw,ih),1280,720))':h='min(ih,if(gte(iw,ih),720,1280))':force_original_aspect_ratio=decrease:force_divisible_by=2",
        "-c:v", "libx264", "-crf", "28", "-preset", "medium", "-c:a", "aac", "-b:a", "192k",
        "-af", "asetpts=PTS-STARTPTS", "-movflags", "+faststart", "-avoid_negative_ts",
        "make_zero", "-progress", "pipe:1", "-nostats", "tmp.mp4",
    ]
    .iter()
    .map(|s| s.to_string())
    .collect();
    assert_eq!(a, expected);
}

#[test]
fn hardware_attempts_name_the_render_node() {
    let p = plan(Format::Mp4, Quality::High, "in.mp4", "t.mp4", 0, 1_000_000);
    let full = args(&p, AttemptKind::FullVaapi, Some("/dev/dri/renderD128"));
    assert_eq!(
        &full[5..11],
        &["-hwaccel", "vaapi", "-hwaccel_device", "/dev/dri/renderD128", "-hwaccel_output_format", "vaapi"]
    );
    assert!(full.contains(&"h264_vaapi".to_string()));
    assert!(full.contains(&"24".to_string()));
    assert!(full.iter().any(|v| v.starts_with("setpts=PTS-STARTPTS,scale_vaapi=")));
    let enc = args(&p, AttemptKind::VaapiEncode, Some("/dev/dri/renderD128"));
    assert_eq!(
        &enc[5..9],
        &["-init_hw_device", "vaapi=va:/dev/dri/renderD128", "-filter_hw_device", "va"]
    );
    assert!(enc.iter().any(|v| v.ends_with(",format=nv12,hwupload")));
    // without a node no device options are added
    let none = args(&p, AttemptKind::FullVaapi, None);
    assert_eq!(none[5], "-i");
}

#[test]
fn gif_and_webm_arguments() {
    let gif = args(
        &plan(Format::Gif, Quality::High, "in.mp4", "t.gif", 0, 1_000_000),
        AttemptKind::Software,
        None,
    );
    assert!(gif.contains(&"-an".to_string()));
    assert!(!gif.contains(&"0:a?".to_string()));
    assert!(!gif.contains(&"-movflags".to_string()));
    assert!(!gif.contains(&"-avoid_negative_ts".to_string()));
    assert!(gif.contains(&"setpts=PTS-STARTPTS,fps=12,scale='min(iw,720)':-1:flags=lanczos,split[a][b];[a]palettegen=stats_mode=diff[p];[b][p]paletteuse=dither=bayer:bayer_scale=5".to_string()));
    let original_gif = args(
        &plan(Format::Gif, Quality::Original, "in.mp4", "t.gif", 0, 1_000_000),
        AttemptKind::Software,
        None,
    );
    assert!(original_gif.iter().any(|v| v.starts_with("setpts=PTS-STARTPTS,fps=15,split")));
    let webm = args(
        &plan(Format::Webm, Quality::Small, "in.mp4", "t.webm", 0, 1_000_000),
        AttemptKind::Software,
        None,
    );
    assert!(webm.contains(&"libvpx-vp9".to_string()));
    assert!(webm.contains(&"36".to_string()));
    assert!(webm.contains(&"libopus".to_string()));
    assert!(!webm.contains(&"-movflags".to_string()));
}

#[test]
fn scale_filter_keeps_even_dimensions_or_fits_the_box() {
    assert_eq!(
        scale_filter("scale", Quality::Original),
        "scale=w=trunc(iw/2)*2:h=trunc(ih/2)*2"
    );
    assert_eq!(
        scale_filter("scale", Quality::High),
        "scale=w='min(iw,if(gte(iw,ih),1920,1080))':h='min(ih,if(gte(iw,ih),1080,1920))':force_original_aspect_ratio=decrease:force_divisible_by=2"
    );
}

#[test]
fn progress_lines_and_verbose_log_level() {
    assert_eq!(progress_micros("out_time_us=750000"), Some(750_000));
    assert_eq!(progress_micros("progress=continue"), None);
    assert_eq!(progress_micros("out_time_us=N/A"), None);
    let a = args(
        &plan(Format::Copy, Quality::Original, "in.mp4", "t.mp4", 0, 1),
        AttemptKind::Software,
        None,
    );
    let v = with_verbose_loglevel(a.clone());
    assert_eq!(v[4], "verbose");
    assert_eq!(&v[..4], &a[..4]);
    assert_eq!(&v[5..], &a[5..]);
    let odd = with_verbose_loglevel(vec!["-loglevel".to_string()]);
    assert_eq!(odd, vec!["-loglevel".to_string()]);
}

#[test]
fn records_report_hardware_and_software_paths() {
    let software = records(AttemptKind::Software, Format::Mp4, None);
    assert!(software
        .iter()
        .all(|r| r.state == AccelerationState::Software));
    assert_eq!(software[1].implementation.as_deref(), Some("libx264"));
    let hardware = records(AttemptKind::FullVaapi, Format::Mp4, Some("/dev/dri/renderD128"));
    assert!(hardware
        .iter()
        .all(|r| r.state == AccelerationState::Active));
    assert_eq!(hardware[0].device.as_deref(), Some("/dev/dri/renderD128"));
    let mixed = records(AttemptKind::VaapiEncode, Format::Mp4, Some("/dev/dri/renderD129"));
    assert_eq!(mixed[0].state, AccelerationState::Software);
    assert_eq!(mixed[0].device, None);
    assert_eq!(mixed[1].state, AccelerationState::Active);
    assert_eq!(mixed[1].device.as_deref(), Some("/dev/dri/renderD129"));
}

#[test]
fn destination_requires_format_extension_and_refuses_source() {
    for (format, good, bad) in [
        (Format::Mp4, "out.mp4", "out.mov"),
        (Format::Copy, "out.MP4", "out.webm"),
        (Format::Webm, "out.webm", "out.mp4"),
        (Format::Gif, "out.gif", "out"),
    ] {
        assert!(check_output_name(Some(good), format).is_ok());
        let e = check_output_name(Some(bad), format).unwrap_err();
        assert!(
            e.message().contains(&format!(".{}", format.extension())),
            "{}",
            e.message()
        );
    }
    assert!(matches!(check_output_name(None, Format::Mp4), Err(AppError::Destination(_))));
    // an existing destination is replaced; only the source itself is refused
    assert!(check_not_source(false).is_ok());
    let e = check_not_source(true).unwrap_err();
    assert!(e.message().contains("same file"));
}

#[test]
fn trim_interval_and_effective_start() {
    assert_eq!(validate_trim(1, 5).unwrap(), 4);
    assert!(matches!(validate_trim(5, 5), Err(AppError::InvalidTrim(_))));
    assert!(matches!(validate_trim(6, 5), Err(AppError::InvalidTrim(_))));
    let k = [0u64, 2_000_000, 4_000_000];
    assert_eq!(initial_effective_start(Format::Copy, 2_500_000, Some(&k)), Some(2_000_000));
    assert_eq!(initial_effective_start(Format::Mp4, 2_500_000, Some(&k)), Some(2_500_000));
    assert_eq!(initial_effective_start(Format::Copy, 2_500_000, None), None);
    assert_eq!(completed_effective_start(Format::Copy, None, 4_500_000, 2_500_000), Some(2_000_000));
    assert_eq!(completed_effective_start(Format::Copy, None, 1, 2), Some(0));
    assert_eq!(completed_effective_start(Format::Copy, Some(7), 9, 1), Some(7));
    assert_eq!(completed_effective_start(Format::Gif, Some(3), 9, 1), Some(3));
}

#[test]
fn attempt_plan_and_failure_report() {
    assert_eq!(planned_attempts(Format::Mp4, false), vec![AttemptKind::Software]);
    assert_eq!(planned_attempts(Format::Mp4, true), attempts(Format::Mp4));
    assert_eq!(planned_attempts(Format::Gif, true), vec![AttemptKind::Software]);
    assert_eq!(AttemptKind::Software.label(Format::Copy), "Stream copy");
    assert_eq!(AttemptKind::FullVaapi.label(Format::Gif), "VA-API decode + encode");
    let e = export_failure(&vec!["a failed".into(), "b failed".into()], "/s/ffmpeg.log");
    match e {
        AppError::Export(m) => assert_eq!(m, "a failed; b failed. Detailed diagnostics: /s/ffmpeg.log"),
        _ => panic!("wrong error"),
    }
}

#[test]
fn export_slot_is_exclusive_and_cancellation_needs_a_running_export() {
    let mut s = ExportState::new();
    s.request_cancel();
    assert!(!s.cancel_requested());
    assert!(s.begin().is_ok());
    assert!(matches!(s.begin(), Err(AppError::ExportBusy)));
    s.set_pid(42);
    assert_eq!(s.pid(), 42);
    s.request_cancel();
    assert!(s.cancel_requested());
    s.finish();
    assert!(!s.is_active());
    assert!(!s.cancel_requested());
    assert_eq!(s.pid(), 0);
    assert!(s.begin().is_ok());
}

#[test]
fn fallback_run_tries_in_order_and_stops_at_success() {
    let mut run = AttemptRun::new(Format::Mp4, true);
    assert_eq!(run.next(), Some(AttemptKind::FullVaapi));
    run.report(Err("VA-API decode + encode exited with 1".to_string()));
    assert_eq!(run.next(), Some(AttemptKind::VaapiEncode));
    run.report(Ok(()));
    assert_eq!(run.next(), None);
    run.report(Err("late".to_string()));
    assert!(matches!(run.outcome("/log"), Ok(AttemptKind::VaapiEncode)));
}

#[test]
fn fallback_run_without_render_node_is_software_only() {
    let mut run = AttemptRun::new(Format::Mp4, false);
    assert_eq!(run.next(), Some(AttemptKind::Software));
    run.report(Err("a".to_string()));
    assert_eq!(run.next(), None);
    match run.outcome("/state/ffmpeg.log") {
        Err(AppError::Export(m)) => {
            assert_eq!(m, "a. Detailed diagnostics: /state/ffmpeg.log")
        }
        _ => panic!("an exhausted run is an export error"),
    }
}

#[test]
fn fallback_run_reports_every_failure_and_cancellation() {
    let mut run = AttemptRun::new(Format::Mp4, true);
    run.report(Err("a".to_string()));
    run.report(Err("b".to_string()));
    run.report(Err("c".to_string()));
    assert_eq!(run.next(), None);
    match run.outcome("/l") {
        Err(AppError::Export(m)) => assert_eq!(m, "a; b; c. Detailed diagnostics: /l"),
        _ => panic!("an exhausted run is an export error"),
    }
    let mut run = AttemptRun::new(Format::Webm, true);
    assert_eq!(run.next(), Some(AttemptKind::Software));
    run.report(Err("cancelled".to_string()));
    assert_eq!(run.next(), None);
    assert!(matches!(run.outcome("/l"), Err(AppError::Cancelled)));
}
