use video_trimmer::acceleration::{
    classify_decoder, is_render_node_name, playback_from_diagnostics, unknown_playback,
    AccelerationState,
};

#[test]
fn decoder_classification_is_conservative() {
    assert_eq!(classify_decoder("vah264dec"), AccelerationState::Active);
    assert_eq!(classify_decoder("avdec_h264"), AccelerationState::Software);
    assert_eq!(classify_decoder("futuredec"), AccelerationState::Unknown)
}

#[test]
fn diagnostics_preserve_factory_and_dmabuf() {
    let r = playback_from_diagnostics("selected vah264dec and dmabuf sink");
    assert_eq!(r[0].implementation.as_deref(), Some("vah264dec"));
    assert_eq!(r[1].state, AccelerationState::Active)
}

#[test]
fn last_created_decoder_wins_after_fallback() {
    let trace = [
        "INFO GST_ELEMENT_FACTORY gstelementfactory.c:489:gst_element_factory_create_with_properties: creating element \"vah264dec\" named \"vah264dec0\"\n",
        "INFO GST_ELEMENT_FACTORY gstelementfactory.c:489:gst_element_factory_create_with_properties: creating element \"avdec_h264\" named \"avdec_h264-0\"\n",
        "INFO GST_ELEMENT_FACTORY gstelementfactory.c:489:gst_element_factory_create_with_properties: creating element \"avdec_aac\" named \"avdec_aac0\"\n",
    ]
    .join("");
    let r = playback_from_diagnostics(&trace);
    assert_eq!(r[0].implementation.as_deref(), Some("avdec_h264"));
    assert_eq!(r[0].state, AccelerationState::Software);
    assert_eq!(r[0].api, None)
}

#[test]
fn unknown_decoder_is_named_and_unknown() {
    let r = playback_from_diagnostics(
        "creating element \"vah264dec\"\ncreating element \"futureh264dec\" named \"f0\"\n",
    );
    assert_eq!(r[0].implementation.as_deref(), Some("futureh264dec"));
    assert_eq!(r[0].state, AccelerationState::Unknown);
    assert!(r[0].reason.is_some())
}

#[test]
fn classification_ignores_ascii_case_and_recognises_openh264() {
    assert_eq!(classify_decoder("VAAPIH264DEC"), AccelerationState::Active);
    assert_eq!(classify_decoder("vaav1dec"), AccelerationState::Active);
    assert_eq!(classify_decoder("OpenH264Dec"), AccelerationState::Software);
    assert_eq!(classify_decoder("xavdec_h264"), AccelerationState::Unknown);
}

#[test]
fn empty_diagnostics_report_unknown_playback() {
    let r = playback_from_diagnostics("");
    let u = unknown_playback();
    assert_eq!(r.len(), 2);
    assert_eq!(r[0].component, "playback_decode");
    assert_eq!(r[0].state, AccelerationState::Unknown);
    assert_eq!(r[0].reason, u[0].reason);
    assert_eq!(r[1].component, "playback_render");
    assert_eq!(r[1].reason.as_deref(), Some("DMA-BUF rendering has not been observed"));
    assert_eq!(
        u[0].reason.as_deref(),
        Some("WebKitGTK has not exposed decoder evidence yet")
    );
}

#[test]
fn hardware_decoder_reports_vaapi_and_dmabuf_case_insensitively() {
    let r = playback_from_diagnostics("creating element \"vah264dec\" ... DMABuf import");
    assert_eq!(r[0].state, AccelerationState::Active);
    assert_eq!(r[0].api.as_deref(), Some("VA-API"));
    assert_eq!(r[0].reason, None);
    assert_eq!(r[1].implementation.as_deref(), Some("DMA-BUF"));
    assert_eq!(r[1].api.as_deref(), Some("DMA-BUF"));
}

#[test]
fn audio_decoders_alone_fall_back_to_mentions() {
    // the only created element is an audio decoder; the text still mentions a factory
    let r = playback_from_diagnostics("creating element \"avdec_aac\"\nusing avdec_h265 later");
    assert_eq!(r[0].implementation.as_deref(), Some("avdec_h265"));
    assert_eq!(r[0].state, AccelerationState::Software);
    // a mention wins in the order of the factory list: openh264dec is last
    let r = playback_from_diagnostics("vah264dec openh264dec");
    assert_eq!(r[0].implementation.as_deref(), Some("openh264dec"));
}

#[test]
fn unterminated_factory_name_is_ignored() {
    let r = playback_from_diagnostics("creating element \"vah264dec");
    // no closing quote: the mention still names the factory
    assert_eq!(r[0].implementation.as_deref(), Some("vah264dec"));
}

#[test]
fn render_nodes_are_named_render_d() {
    assert!(is_render_node_name("renderD128"));
    assert!(is_render_node_name("renderD"));
    assert!(!is_render_node_name("card0"));
    assert!(!is_render_node_name("by-path"));
    assert!(!is_render_node_name("xrenderD128"));
}
