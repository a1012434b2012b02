use video_trimmer::error::AppError;
use video_trimmer::logging::{gst_debug, stale_traces, trace_path, trace_pid};
use video_trimmer::media::{
    ascending_unique, check_input_extension, check_probe, keyframe_at_or_before,
    keyframe_times_text, preview_dir_name, preview_proxy_args, replace_current, thumbnail_count,
    thumbnail_file_name, inspect_outcome, step_label, step_progress_permille,
    thumbnail_progress, steps_after_probe, InspectStep,
    CurrentMedia, MediaResolver,
    MediaState,
};

#[test]
fn validates_extension_before_probe() {
    assert!(matches!(
        check_input_extension("x.mov"),
        Err(AppError::UnsupportedInput(_))
    ));
    assert!(check_input_extension("/v/clip.MP4").is_ok());
    assert!(matches!(
        check_input_extension("mp4"),
        Err(AppError::UnsupportedInput(p)) if p == "mp4"
    ));
}

#[test]
fn keyframe_lookup_prefers_the_preceding_keyframe() {
    let k = [0, 2_000_000, 4_000_000];
    assert_eq!(keyframe_at_or_before(&k, 2_500_000), Some(2_000_000));
    assert_eq!(keyframe_at_or_before(&k, 2_000_000), Some(2_000_000));
    assert_eq!(keyframe_at_or_before(&k, 9_000_000), Some(4_000_000));
    assert_eq!(keyframe_at_or_before(&[33_000], 0), Some(33_000));
    assert_eq!(keyframe_at_or_before(&[], 1), None);
}

#[test]
fn keyframe_index_is_ascending_and_unique() {
    let text = "0.000000,K_\n0.033333,__\n2.000000,K_\r\n4.000000,K__\nbad\n";
    let fields = keyframe_times_text(text);
    assert_eq!(fields, vec!["0.000000", "2.000000", "4.000000"]);
    assert_eq!(ascending_unique(&[4, 0, 2, 2, 0, 4]), vec![0, 2, 4]);
    assert_eq!(ascending_unique(&[]), Vec::<u64>::new());
}

#[test]
fn probe_results_require_mp4_and_video() {
    let types = |v: &[Option<&str>]| v.iter().map(|t| t.map(|s| s.to_string())).collect::<Vec<_>>();
    let streams = types(&[Some("audio"), Some("video"), Some("audio")]);
    assert_eq!(
        check_probe(Some("mov,mp4,m4a,3gp,3g2,mj2"), true, &streams).unwrap(),
        (1, Some(0))
    );
    assert!(matches!(
        check_probe(Some("matroska,webm"), true, &streams),
        Err(AppError::Probe(m)) if m == "container is not recognized as MP4"
    ));
    assert!(check_probe(Some("matroska,webm"), false, &streams).is_ok());
    assert!(matches!(
        check_probe(None, true, &streams),
        Err(AppError::Probe(_))
    ));
    assert!(matches!(
        check_probe(Some("mp4"), true, &types(&[Some("audio"), None])),
        Err(AppError::NoVideo)
    ));
    assert_eq!(
        check_probe(Some("mp4"), true, &types(&[None, Some("video")])).unwrap(),
        (1, None)
    );
}

#[test]
fn thumbnails_are_one_per_second_up_to_fourteen() {
    assert_eq!(thumbnail_count(0), 1);
    assert_eq!(thumbnail_count(3_000_000), 3);
    assert_eq!(thumbnail_count(15_000_000), 14);
}

fn media(preview: &str, cache: &str) -> CurrentMedia {
    CurrentMedia {
        preview: preview.to_string(),
        cache: cache.to_string(),
        thumbnails: vec![format!("{cache}/frame-01.jpg")],
    }
}

#[test]
fn replacement_cleans_previous_cache() {
    let mut current = Some(media("old.mp4", "old-cache"));
    let stale = replace_current(&mut current, media("new.mp4", "new-cache"));
    // the replaced media's cache is handed back for removal
    assert_eq!(stale.as_deref(), Some("old-cache"));
    assert_eq!(current.as_ref().unwrap().preview, "new.mp4");
    let mut empty = None;
    assert_eq!(replace_current(&mut empty, media("a.mp4", "a-cache")), None);
}

#[test]
fn newest_load_owns_the_preview() {
    let mut state = MediaState::new();
    assert_eq!(state.media(), None);
    state.note_load(3);
    state.note_load(2);
    assert!(state.is_latest(3));
    // an older load is refused and its own cache is dropped
    assert_eq!(state.install(2, media("a.mp4", "cache-2")).as_deref(), Some("cache-2"));
    assert!(state.current.is_none());
    assert_eq!(state.install(3, media("b.mp4", "cache-3")), None);
    assert_eq!(state.media().as_deref(), Some("b.mp4"));
    assert_eq!(state.thumbnail(0).as_deref(), Some("cache-3/frame-01.jpg"));
    assert_eq!(state.thumbnail(1), None);
    assert_eq!(state.release().as_deref(), Some("cache-3"));
    assert_eq!(state.media(), None);
}

#[test]
fn element_factory_trace_is_enabled_in_both_modes() {
    assert_eq!(gst_debug(false), "GST_ELEMENT_FACTORY:4");
    assert_eq!(
        gst_debug(true),
        "2,webkit*:4,va*:4,dmabuf*:4,GST_ELEMENT_FACTORY:4"
    );
    assert_eq!(trace_path("/state", 42), "/state/gstreamer-42.log")
}

#[test]
fn trace_names_give_back_their_pid() {
    assert_eq!(trace_pid("gstreamer-1.log"), Some(1));
    assert_eq!(trace_pid("gstreamer-42.log"), Some(42));
    assert_eq!(trace_pid("gstreamer.log"), None);
    assert_eq!(trace_pid("video-trimmer.log"), None);
    assert_eq!(trace_pid("gstreamer-99999999999.log"), None);
    let path = trace_path("", 7);
    assert_eq!(path, "gstreamer-7.log");
    assert_eq!(trace_pid(&path), Some(7));
}

#[test]
fn stale_traces_of_dead_instances_are_removed() {
    let names: Vec<String> = [
        "gstreamer-1.log",
        "gstreamer-2.log",
        "gstreamer.log",
        "video-trimmer.log",
    ]
    .iter()
    .map(|n| n.to_string())
    .collect();
    // only instance 1 still runs: the trace of instance 2 goes, nothing else
    assert_eq!(stale_traces(&names, &vec![1]), vec!["gstreamer-2.log".to_string()]);
    assert_eq!(
        stale_traces(&names, &vec![]),
        vec!["gstreamer-1.log".to_string(), "gstreamer-2.log".to_string()]
    );
}

#[test]
fn inspection_steps_are_weighted_in_order() {
    assert_eq!(step_label(InspectStep::Probe), "Reading container");
    assert_eq!(step_label(InspectStep::Keyframes), "Indexing keyframes");
    assert_eq!(step_label(InspectStep::Preview), "Building preview");
    assert_eq!(step_label(InspectStep::Thumbnails), "Building thumbnails");
    assert_eq!(step_progress_permille(InspectStep::Probe), 0);
    assert_eq!(step_progress_permille(InspectStep::Keyframes), 100);
    assert_eq!(step_progress_permille(InspectStep::Preview), 300);
    assert_eq!(step_progress_permille(InspectStep::Thumbnails), 800);
    assert_eq!(thumbnail_progress(0, 2), (1800, 2000));
    assert_eq!(thumbnail_progress(1, 2), (2000, 2000));
    // 0.8 + 0.2 / 3, exactly
    assert_eq!(thumbnail_progress(0, 3), (2600, 3000));
    assert_eq!(thumbnail_progress(13, 14), (14000, 14000));
    assert_eq!(
        steps_after_probe(true),
        vec![InspectStep::Keyframes, InspectStep::Preview, InspectStep::Thumbnails]
    );
    assert!(steps_after_probe(false).is_empty());
}

#[test]
fn only_a_failed_probe_is_fatal() {
    let fatal = inspect_outcome::<u32>(
        Err(AppError::NoVideo),
        Ok(vec![1]),
        Ok("p.mp4".to_string()),
        "/in.mp4",
        Ok(vec![]),
    );
    assert!(matches!(fatal, Err(AppError::NoVideo)));
    let o = inspect_outcome(
        Ok(7u32),
        Err("no index".to_string()),
        Err("no proxy".to_string()),
        "/in.mp4",
        Err("FFmpeg could not write thumbnail 1".to_string()),
    )
    .unwrap();
    assert_eq!(o.metadata, 7);
    assert!(o.keyframes.is_empty());
    assert_eq!(o.preview, "/in.mp4");
    assert!(o.thumbnails.is_empty());
    assert_eq!(o.warning.as_deref(), Some("FFmpeg could not write thumbnail 1"));
    let o = inspect_outcome(
        Ok(7u32),
        Ok(vec![0, 2_000_000]),
        Ok("/c/proxy.mp4".to_string()),
        "/in.mp4",
        Ok(vec!["/c/thumbs/frame-01.jpg".to_string()]),
    )
    .unwrap();
    assert_eq!(o.keyframes, vec![0, 2_000_000]);
    assert_eq!(o.preview, "/c/proxy.mp4");
    assert_eq!(o.thumbnails, vec!["/c/thumbs/frame-01.jpg".to_string()]);
    assert_eq!(o.warning, None);
}

#[test]
fn preview_files_are_named_per_process_and_load() {
    assert_eq!(preview_dir_name(1234, 7), "preview-1234-7");
    assert_eq!(preview_dir_name(0, 0), "preview-0-0");
    assert_eq!(thumbnail_file_name(1), "frame-01.jpg");
    assert_eq!(thumbnail_file_name(14), "frame-14.jpg");
    assert_eq!(thumbnail_file_name(123), "frame-123.jpg");
    let args = preview_proxy_args("/in.mp4", 2_500_000, "/c/proxy.mp4");
    assert_eq!(&args[..6], ["-hide_banner", "-nostdin", "-loglevel", "error", "-t", "2.500000"]);
    assert_eq!(&args[6..8], ["-i", "/in.mp4"]);
    assert_eq!(args[args.len() - 1], "/c/proxy.mp4");
    assert!(args.windows(2).any(|w| w == ["-movflags", "+faststart"]));
    assert!(args.windows(2).any(|w| w == ["-g", "30"]));
}
