use vstd::prelude::*;

use crate::acceleration::{
    opt_text, record, record_view, records_view, AccelerationRecord, AccelerationState, RecordView,
};
use crate::config::{ext_text, Format, Quality};
use crate::error::AppError;
use crate::paths::{opt_view, path_extension, path_extension_of};
use crate::media::{keyframe_at_or_before, nondecreasing};
use crate::text::{
    decimal, eq_chars, eq_ignore_case, lemma_parse_decimal, join_strings, joined, has_prefix, lower, parse_u64, parse_unsigned, push_decimal, push_str,
    push_seconds, seconds_text, starts_with, string_from_chars, subrange, to_chars,
};

verus! {

// ---------------------------------------------------------------------------
// Export state
// ---------------------------------------------------------------------------

/// Whether an export runs, whether its cancellation was asked for, and the
/// process group of the running FFmpeg (0 when none).
pub struct ExportState {
    active: bool,
    cancel: bool,
    pid: i32,
}

impl View for ExportState {
    type V = (bool, bool, i32);

    closed spec fn view(&self) -> (bool, bool, i32) {
        (self.active, self.cancel, self.pid)
    }
}

/// No export running, no cancellation asked for, no process.
pub open spec fn idle_state() -> (bool, bool, i32) {
    (false, false, 0i32)
}

/// The state after claiming the slot: unchanged when it was taken.
pub open spec fn begin_state(v: (bool, bool, i32)) -> (bool, bool, i32) {
    (true, v.1, v.2)
}

/// The state after a cancellation request: noted only while an export runs.
pub open spec fn cancel_state(v: (bool, bool, i32)) -> (bool, bool, i32) {
    (v.0, v.1 || v.0, v.2)
}

/// Whether the export slot is taken, so that a claim is refused.
pub open spec fn slot_taken(v: (bool, bool, i32)) -> bool {
    v.0
}

/// One export at a time: once the slot is claimed, every further claim is
/// refused (neither a cancellation request nor a new process releases it)
/// until the export finishes, and a finished export leaves nothing behind,
/// not even a cancellation request; a cancellation while idle is ignored.
pub proof fn single_export_slot(v: (bool, bool, i32), pid: i32)
    ensures
        slot_taken(begin_state(v)),
        slot_taken(cancel_state(begin_state(v))),
        slot_taken((begin_state(v).0, begin_state(v).1, pid)),
        !slot_taken(idle_state()),
        idle_state() == (false, false, 0i32),
        cancel_state(idle_state()) == idle_state(),
{
}

impl ExportState {
    /// No export running.
    pub fn new() -> (r: Self)
        ensures
            r@ == idle_state(),
    {
        ExportState { active: false, cancel: false, pid: 0 }
    }

    /// Claims the single export slot; refused while another export runs.
    pub fn begin(&mut self) -> (r: Result<(), AppError>)
        ensures
            final(self)@ == begin_state(old(self)@),
            slot_taken(old(self)@) ==> r matches Err(AppError::ExportBusy),
            !slot_taken(old(self)@) ==> r is Ok,
    {
        if self.active {
            Err(AppError::ExportBusy)
        } else {
            self.active = true;
            Ok(())
        }
    }

    /// Releases the slot when an export ends, however it ends.
    pub fn finish(&mut self)
        ensures
            final(self)@ == idle_state(),
    {
        self.active = false;
        self.pid = 0;
        self.cancel = false;
    }

    /// Notes the process group of the FFmpeg that now runs.
    pub fn set_pid(&mut self, pid: i32)
        ensures
            final(self)@ == (old(self)@.0, old(self)@.1, pid),
    {
        self.pid = pid;
    }

    /// Asks the running export to stop; does nothing when none runs.
    pub fn request_cancel(&mut self)
        ensures
            final(self)@ == cancel_state(old(self)@),
    {
        if self.active {
            self.cancel = true;
        }
    }

    pub fn is_active(&self) -> (r: bool)
        ensures
            r == self@.0,
    {
        self.active
    }

    pub fn cancel_requested(&self) -> (r: bool)
        ensures
            r == self@.1,
    {
        self.cancel
    }

    pub fn pid(&self) -> (r: i32)
        ensures
            r == self@.2,
    {
        self.pid
    }
}

/// One export as the editor asks for it.
#[derive(Debug, Clone)]
pub struct ExportRequest {
    pub input: String,
    pub output: String,
    pub start_micros: u64,
    pub end_micros: u64,
    pub format: Format,
    pub quality: Quality,
}

/// What a successful export reports.
#[derive(Debug, Clone)]
pub struct ExportResult {
    pub output: String,
    pub acceleration: Vec<AccelerationRecord>,
    pub effective_start_micros: Option<u64>,
}

// ---------------------------------------------------------------------------
// Attempts
// ---------------------------------------------------------------------------

/// One way of running the export, from full hardware to software.
#[derive(Debug, Clone, Copy, PartialEq, Eq, Structural)]
pub enum AttemptKind {
    FullVaapi,
    VaapiEncode,
    Software,
}

pub open spec fn label_text(kind: AttemptKind, format: Format) -> Seq<char> {
    match (kind, format) {
        (AttemptKind::FullVaapi, _) => "VA-API decode + encode"@,
        (AttemptKind::VaapiEncode, _) => "Software decode + VA-API encode"@,
        (AttemptKind::Software, Format::Mp4) => "Software decode + libx264"@,
        (AttemptKind::Software, Format::Webm) => "Software decode + libvpx-vp9"@,
        (AttemptKind::Software, Format::Gif) => "Software decode + GIF palette"@,
        (AttemptKind::Software, Format::Copy) => "Stream copy"@,
    }
}

impl AttemptKind {
    pub fn label(&self, format: Format) -> (r: &'static str)
        ensures
            r@ == label_text(*self, format),
    {
        match (self, format) {
            (AttemptKind::FullVaapi, _) => "VA-API decode + encode",
            (AttemptKind::VaapiEncode, _) => "Software decode + VA-API encode",
            (AttemptKind::Software, Format::Mp4) => "Software decode + libx264",
            (AttemptKind::Software, Format::Webm) => "Software decode + libvpx-vp9",
            (AttemptKind::Software, Format::Gif) => "Software decode + GIF palette",
            (AttemptKind::Software, Format::Copy) => "Stream copy",
        }
    }
}

/// The attempts for a format, in the order they are tried: MP4 falls back
/// from full VA-API to VA-API encoding to software; the others are software only.
pub open spec fn attempts_of(format: Format) -> Seq<AttemptKind> {
    match format {
        Format::Mp4 => seq![AttemptKind::FullVaapi, AttemptKind::VaapiEncode, AttemptKind::Software],
        _ => seq![AttemptKind::Software],
    }
}

pub fn attempts(format: Format) -> (r: Vec<AttemptKind>)
    ensures
        r@ == attempts_of(format),
{
    let mut v: Vec<AttemptKind> = Vec::new();
    match format {
        Format::Mp4 => {
            v.push(AttemptKind::FullVaapi);
            v.push(AttemptKind::VaapiEncode);
            v.push(AttemptKind::Software);
        },
        _ => {
            v.push(AttemptKind::Software);
        },
    }
    assert(v@ =~= attempts_of(format));
    v
}

/// The attempts that are run: hardware attempts need a render node, so
/// without one only the software attempt remains.
pub open spec fn planned_attempts_of(format: Format, has_node: bool) -> Seq<AttemptKind> {
    if has_node {
        attempts_of(format)
    } else {
        seq![AttemptKind::Software]
    }
}

pub fn planned_attempts(format: Format, has_node: bool) -> (r: Vec<AttemptKind>)
    ensures
        r@ == planned_attempts_of(format, has_node),
{
    if has_node {
        attempts(format)
    } else {
        let mut v: Vec<AttemptKind> = Vec::new();
        v.push(AttemptKind::Software);
        assert(v@ =~= seq![AttemptKind::Software]);
        v
    }
}

/// A progress line `out_time_us=<n>` gives `n` back, for every `n`;
/// any other line gives nothing.
pub proof fn progress_lines_give_their_time(n: u64, line: Seq<char>)
    ensures
        progress_value("out_time_us="@ + decimal(n as nat)) == Some(n as nat),
        !has_prefix(line, "out_time_us="@) ==> progress_value(line) is None,
{
    let l = "out_time_us="@ + decimal(n as nat);
    assert(l.take("out_time_us="@.len() as int) =~= "out_time_us="@);
    assert(l.skip("out_time_us="@.len() as int) =~= decimal(n as nat));
    lemma_parse_decimal(n as nat, u64::MAX as nat);
}

/// The value of an FFmpeg `-progress` line `out_time_us=<n>`.
pub open spec fn progress_value(line: Seq<char>) -> Option<nat> {
    if has_prefix(line, "out_time_us="@) {
        parse_unsigned(line.skip("out_time_us="@.len() as int), u64::MAX as nat)
    } else {
        None
    }
}

pub fn progress_micros(line: &str) -> (r: Option<u64>)
    ensures
        match r {
            Some(v) => progress_value(line@) == Some(v as nat),
            None => progress_value(line@) is None,
        },
{
    let l = to_chars(line);
    let p = to_chars("out_time_us=");
    if !starts_with(l.as_slice(), p.as_slice()) {
        return None;
    }
    let rest = subrange(l.as_slice(), p.len(), l.len());
    assert(rest@ == l@.skip(p@.len() as int));
    parse_u64(rest.as_slice())
}

// ---------------------------------------------------------------------------
// FFmpeg arguments
// ---------------------------------------------------------------------------

/// What one export runs: format and tier, source and temporary output, and
/// the selected interval in microseconds.
#[derive(Debug, Clone)]
pub struct ExportPlan {
    pub format: Format,
    pub quality: Quality,
    pub input: String,
    pub temp: String,
    pub start: u64,
    pub duration: u64,
}

/// Bounding box (longer side, shorter side) of each re-encoding tier.
pub open spec fn video_cap_of(q: Quality) -> Option<(u32, u32)> {
    match q {
        Quality::Original => None,
        Quality::High => Some((1920u32, 1080u32)),
        Quality::Small => Some((1280u32, 720u32)),
    }
}

pub fn video_cap(q: Quality) -> (r: Option<(u32, u32)>)
    ensures
        r == video_cap_of(q),
{
    match q {
        Quality::Original => None,
        Quality::High => Some((1920, 1080)),
        Quality::Small => Some((1280, 720)),
    }
}

/// GIF frame rate and width cap of each tier.
pub open spec fn gif_settings_of(q: Quality) -> (u32, Option<u32>) {
    match q {
        Quality::Original => (15u32, None),
        Quality::High => (12u32, Some(720u32)),
        Quality::Small => (10u32, Some(480u32)),
    }
}

pub fn gif_settings(q: Quality) -> (r: (u32, Option<u32>))
    ensures
        r == gif_settings_of(q),
{
    match q {
        Quality::Original => (15, None),
        Quality::High => (12, Some(720)),
        Quality::Small => (10, Some(480)),
    }
}

/// The scale filter that fits the frame inside the tier's box (orientation
/// aware), never upscales, and keeps even dimensions for 4:2:0 encoders.
pub open spec fn scale_filter_text(filter: Seq<char>, q: Quality) -> Seq<char> {
    match video_cap_of(q) {
        None => filter + "=w=trunc(iw/2)*2:h=trunc(ih/2)*2"@,
        Some((long, short)) => filter + "=w='min(iw,if(gte(iw,ih),"@ + decimal(long as nat) + ","@
            + decimal(short as nat) + "))':h='min(ih,if(gte(iw,ih),"@ + decimal(short as nat) + ","@
            + decimal(long as nat)
            + "))':force_original_aspect_ratio=decrease:force_divisible_by=2"@,
    }
}

pub fn scale_filter(filter: &str, q: Quality) -> (r: String)
    ensures
        r@ == scale_filter_text(filter@, q),
{
    let mut v: Vec<char> = Vec::new();
    push_str(&mut v, filter);
    match video_cap(q) {
        None => {
            push_str(&mut v, "=w=trunc(iw/2)*2:h=trunc(ih/2)*2");
        },
        Some((long, short)) => {
            push_str(&mut v, "=w='min(iw,if(gte(iw,ih),");
            push_decimal(&mut v, long as u64);
            push_str(&mut v, ",");
            push_decimal(&mut v, short as u64);
            push_str(&mut v, "))':h='min(ih,if(gte(iw,ih),");
            push_decimal(&mut v, short as u64);
            push_str(&mut v, ",");
            push_decimal(&mut v, long as u64);
            push_str(&mut v, "))':force_original_aspect_ratio=decrease:force_divisible_by=2");
        },
    }
    string_from_chars(v.as_slice())
}

/// The GIF filter graph: frame rate and optional width cap, then a palette.
pub open spec fn gif_filter_text(q: Quality) -> Seq<char> {
    let (fps, width) = gif_settings_of(q);
    "setpts=PTS-STARTPTS,fps="@ + decimal(fps as nat) + match width {
        Some(w) => ",scale='min(iw,"@ + decimal(w as nat) + ")':-1:flags=lanczos"@,
        None => Seq::<char>::empty(),
    } + ",split[a][b];[a]palettegen=stats_mode=diff[p];[b][p]paletteuse=dither=bayer:bayer_scale=5"@
}

proof fn lemma_small_decimals()
    ensures
        decimal(10) == "10"@,
        decimal(12) == "12"@,
        decimal(15) == "15"@,
        decimal(480) == "480"@,
        decimal(720) == "720"@,
{
    reveal_strlit("10");
    reveal_strlit("12");
    reveal_strlit("15");
    reveal_strlit("480");
    reveal_strlit("720");
    reveal_with_fuel(decimal, 3);
    assert(decimal(10) =~= seq!['1', '0']);
    assert(decimal(12) =~= seq!['1', '2']);
    assert(decimal(15) =~= seq!['1', '5']);
    assert(decimal(48) =~= seq!['4', '8']);
    assert(decimal(480) =~= seq!['4', '8', '0']);
    assert(decimal(72) =~= seq!['7', '2']);
    assert(decimal(720) =~= seq!['7', '2', '0']);
}

/// The GIF tiers as documented: `original` runs at 15 fps at the source
/// width, `high` at 12 fps and at most 720 pixels wide, `small` at 10 fps
/// and at most 480 pixels wide; the frames then go through a palette.
pub proof fn gif_tiers(kind: AttemptKind)
    ensures
        video_args_of(Format::Gif, Quality::Original, kind)[1] == "setpts=PTS-STARTPTS,fps="@ + "15"@
            + ",split[a][b];[a]palettegen=stats_mode=diff[p];[b][p]paletteuse=dither=bayer:bayer_scale=5"@,
        video_args_of(Format::Gif, Quality::High, kind)[1] == "setpts=PTS-STARTPTS,fps="@ + "12"@
            + ",scale='min(iw,"@ + "720"@ + ")':-1:flags=lanczos"@
            + ",split[a][b];[a]palettegen=stats_mode=diff[p];[b][p]paletteuse=dither=bayer:bayer_scale=5"@,
        video_args_of(Format::Gif, Quality::Small, kind)[1] == "setpts=PTS-STARTPTS,fps="@ + "10"@
            + ",scale='min(iw,"@ + "480"@ + ")':-1:flags=lanczos"@
            + ",split[a][b];[a]palettegen=stats_mode=diff[p];[b][p]paletteuse=dither=bayer:bayer_scale=5"@,
{
    lemma_small_decimals();
    assert("setpts=PTS-STARTPTS,fps="@ + "15"@ + Seq::<char>::empty() =~= "setpts=PTS-STARTPTS,fps="@ + "15"@);
}

proof fn lemma_box_decimals()
    ensures
        decimal(1920) == "1920"@,
        decimal(1080) == "1080"@,
        decimal(1280) == "1280"@,
        decimal(720) == "720"@,
{
    reveal_strlit("1920");
    reveal_strlit("1080");
    reveal_strlit("1280");
    reveal_strlit("720");
    reveal_with_fuel(decimal, 4);
    assert(decimal(19) =~= seq!['1', '9']);
    assert(decimal(192) =~= seq!['1', '9', '2']);
    assert(decimal(1920) =~= seq!['1', '9', '2', '0']);
    assert(decimal(10) =~= seq!['1', '0']);
    assert(decimal(108) =~= seq!['1', '0', '8']);
    assert(decimal(1080) =~= seq!['1', '0', '8', '0']);
    assert(decimal(12) =~= seq!['1', '2']);
    assert(decimal(128) =~= seq!['1', '2', '8']);
    assert(decimal(1280) =~= seq!['1', '2', '8', '0']);
    assert(decimal(72) =~= seq!['7', '2']);
    assert(decimal(720) =~= seq!['7', '2', '0']);
}

/// The video tiers as documented: `original` keeps the source size (made
/// even); `high` fits the frame inside 1920x1080 and `small` inside
/// 1280x720, the box turned for portrait sources, never upscaling.
pub proof fn video_tiers(f: Seq<char>)
    ensures
        scale_filter_text(f, Quality::Original) == f + "=w=trunc(iw/2)*2:h=trunc(ih/2)*2"@,
        scale_filter_text(f, Quality::High) == f + "=w='min(iw,if(gte(iw,ih),"@ + "1920"@ + ","@ + "1080"@
            + "))':h='min(ih,if(gte(iw,ih),"@ + "1080"@ + ","@ + "1920"@
            + "))':force_original_aspect_ratio=decrease:force_divisible_by=2"@,
        scale_filter_text(f, Quality::Small) == f + "=w='min(iw,if(gte(iw,ih),"@ + "1280"@ + ","@ + "720"@
            + "))':h='min(ih,if(gte(iw,ih),"@ + "720"@ + ","@ + "1280"@
            + "))':force_original_aspect_ratio=decrease:force_divisible_by=2"@,
{
    lemma_box_decimals();
}

/// The encoders of each format and attempt: MP4 is H.264 (`h264_vaapi` on
/// the VA-API attempts, `libx264` in software) with AAC audio, WebM is VP9
/// with Opus, GIF is a palette GIF without audio, and copy copies every
/// stream unchanged.
pub proof fn encoders_follow_the_format(q: Quality, kind: AttemptKind)
    ensures
        video_args_of(Format::Copy, q, kind) == seq!["-c"@, "copy"@],
        audio_args_of(Format::Copy) == Seq::<Seq<char>>::empty(),
        video_args_of(Format::Gif, q, kind)[2] == "-c:v"@ && video_args_of(Format::Gif, q, kind)[3] == "gif"@,
        audio_args_of(Format::Gif) == seq!["-an"@],
        video_args_of(Format::Webm, q, kind)[2] == "-c:v"@ && video_args_of(Format::Webm, q, kind)[3]
            == "libvpx-vp9"@,
        audio_args_of(Format::Webm)[0] == "-c:a"@ && audio_args_of(Format::Webm)[1] == "libopus"@,
        video_args_of(Format::Mp4, q, kind)[2] == "-c:v"@,
        kind == AttemptKind::Software ==> video_args_of(Format::Mp4, q, kind)[3] == "libx264"@,
        kind != AttemptKind::Software ==> video_args_of(Format::Mp4, q, kind)[3] == "h264_vaapi"@,
        audio_args_of(Format::Mp4)[0] == "-c:a"@ && audio_args_of(Format::Mp4)[1] == "aac"@,
{
}

/// The fallback order as documented: MP4 tries full VA-API, then software
/// decoding with VA-API encoding, then software; the other formats, and any
/// export without a render node, run the software attempt only.
pub proof fn attempts_fall_back_in_order(format: Format)
    ensures
        attempts_of(Format::Mp4) == seq![AttemptKind::FullVaapi, AttemptKind::VaapiEncode, AttemptKind::Software],
        format != Format::Mp4 ==> attempts_of(format) == seq![AttemptKind::Software],
        planned_attempts_of(format, false) == seq![AttemptKind::Software],
        planned_attempts_of(format, true) == attempts_of(format),
{
}

fn gif_filter(q: Quality) -> (r: String)
    ensures
        r@ == gif_filter_text(q),
{
    let (fps, width) = gif_settings(q);
    let mut v: Vec<char> = Vec::new();
    push_str(&mut v, "setpts=PTS-STARTPTS,fps=");
    push_decimal(&mut v, fps as u64);
    let ghost mid = v@;
    match width {
        Some(w) => {
            push_str(&mut v, ",scale='min(iw,");
            push_decimal(&mut v, w as u64);
            push_str(&mut v, ")':-1:flags=lanczos");
        },
        None => {
            assert(v@ == mid + Seq::<char>::empty());
        },
    }
    push_str(&mut v, ",split[a][b];[a]palettegen=stats_mode=diff[p];[b][p]paletteuse=dither=bayer:bayer_scale=5");
    string_from_chars(v.as_slice())
}

pub open spec fn crf_text(q: Quality) -> Seq<char> {
    match q {
        Quality::Original => "18"@,
        Quality::High => "23"@,
        Quality::Small => "28"@,
    }
}

pub open spec fn qp_text(q: Quality) -> Seq<char> {
    match q {
        Quality::Original => "20"@,
        Quality::High => "24"@,
        Quality::Small => "28"@,
    }
}

pub open spec fn webm_crf_text(q: Quality) -> Seq<char> {
    match q {
        Quality::Original => "31"@,
        Quality::High => "33"@,
        Quality::Small => "36"@,
    }
}

/// The views of a list of strings.
pub open spec fn strings(v: Seq<String>) -> Seq<Seq<char>> {
    v.map_values(|s: String| s@)
}

pub open spec fn video_args_of(format: Format, q: Quality, kind: AttemptKind) -> Seq<Seq<char>> {
    match (format, kind) {
        (Format::Copy, _) => seq!["-c"@, "copy"@],
        (Format::Gif, _) => seq!["-vf"@, gif_filter_text(q), "-c:v"@, "gif"@],
        (Format::Webm, _) => seq![
            "-vf"@,
            "setpts=PTS-STARTPTS,"@ + scale_filter_text("scale"@, q),
            "-c:v"@,
            "libvpx-vp9"@,
            "-crf"@,
            webm_crf_text(q),
            "-b:v"@,
            "0"@,
            "-row-mt"@,
            "1"@,
            "-deadline"@,
            "good"@,
            "-cpu-used"@,
            "4"@,
            "-pix_fmt"@,
            "yuv420p"@,
        ],
        (Format::Mp4, AttemptKind::FullVaapi) => seq![
            "-vf"@,
            "setpts=PTS-STARTPTS,"@ + scale_filter_text("scale_vaapi"@, q),
            "-c:v"@,
            "h264_vaapi"@,
            "-qp"@,
            qp_text(q),
        ],
        (Format::Mp4, AttemptKind::VaapiEncode) => seq![
            "-vf"@,
            "setpts=PTS-STARTPTS,"@ + scale_filter_text("scale"@, q) + ",format=nv12,hwupload"@,
            "-c:v"@,
            "h264_vaapi"@,
            "-qp"@,
            qp_text(q),
        ],
        (Format::Mp4, AttemptKind::Software) => seq![
            "-vf"@,
            "setpts=PTS-STARTPTS,"@ + scale_filter_text("scale"@, q),
            "-c:v"@,
            "libx264"@,
            "-crf"@,
            crf_text(q),
            "-preset"@,
            "medium"@,
        ],
    }
}

pub open spec fn audio_args_of(format: Format) -> Seq<Seq<char>> {
    match format {
        Format::Mp4 => seq!["-c:a"@, "aac"@, "-b:a"@, "192k"@, "-af"@, "asetpts=PTS-STARTPTS"@],
        Format::Webm => seq!["-c:a"@, "libopus"@, "-b:a"@, "128k"@, "-af"@, "asetpts=PTS-STARTPTS"@],
        Format::Gif => seq!["-an"@],
        Format::Copy => Seq::empty(),
    }
}

fn push_lit(v: &mut Vec<String>, s: &str)
    ensures
        strings(final(v)@) == strings(old(v)@).push(s@),
{
    v.push(String::from_str(s));
    assert(strings(v@) =~= strings(old(v)@).push(s@));
}

fn push_string(v: &mut Vec<String>, s: String)
    ensures
        strings(final(v)@) == strings(old(v)@).push(s@),
{
    v.push(s);
    assert(strings(v@) =~= strings(old(v)@).push(s@));
}

fn extend_strings(v: &mut Vec<String>, w: Vec<String>)
    ensures
        strings(final(v)@) == strings(old(v)@) + strings(w@),
{
    let ghost w0 = w@;
    let mut w = w;
    v.append(&mut w);
    assert(strings(v@) =~= strings(old(v)@) + strings(w0));
}

fn concat_lit(prefix: &str, s: String) -> (r: String)
    ensures
        r@ == prefix@ + s@,
{
    String::from_str(prefix).concat(s.as_str())
}

pub fn video_args(plan: &ExportPlan, kind: AttemptKind) -> (r: Vec<String>)
    ensures
        strings(r@) == video_args_of(plan.format, plan.quality, kind),
{
    let q = plan.quality;
    let (crf, qp) = match q {
        Quality::Original => ("18", "20"),
        Quality::High => ("23", "24"),
        Quality::Small => ("28", "28"),
    };
    let mut v: Vec<String> = Vec::new();
    match (plan.format, kind) {
        (Format::Copy, _) => {
            push_lit(&mut v, "-c");
            push_lit(&mut v, "copy");
        },
        (Format::Gif, _) => {
            push_lit(&mut v, "-vf");
            push_string(&mut v, gif_filter(q));
            push_lit(&mut v, "-c:v");
            push_lit(&mut v, "gif");
        },
        (Format::Webm, _) => {
            push_lit(&mut v, "-vf");
            push_string(&mut v, concat_lit("setpts=PTS-STARTPTS,", scale_filter("scale", q)));
            push_lit(&mut v, "-c:v");
            push_lit(&mut v, "libvpx-vp9");
            push_lit(&mut v, "-crf");
            push_lit(
                &mut v,
                match q {
                    Quality::Original => "31",
                    Quality::High => "33",
                    Quality::Small => "36",
                },
            );
            push_lit(&mut v, "-b:v");
            push_lit(&mut v, "0");
            push_lit(&mut v, "-row-mt");
            push_lit(&mut v, "1");
            push_lit(&mut v, "-deadline");
            push_lit(&mut v, "good");
            push_lit(&mut v, "-cpu-used");
            push_lit(&mut v, "4");
            push_lit(&mut v, "-pix_fmt");
            push_lit(&mut v, "yuv420p");
        },
        (Format::Mp4, AttemptKind::FullVaapi) => {
            push_lit(&mut v, "-vf");
            push_string(&mut v, concat_lit("setpts=PTS-STARTPTS,", scale_filter("scale_vaapi", q)));
            push_lit(&mut v, "-c:v");
            push_lit(&mut v, "h264_vaapi");
            push_lit(&mut v, "-qp");
            push_lit(&mut v, qp);
        },
        (Format::Mp4, AttemptKind::VaapiEncode) => {
            push_lit(&mut v, "-vf");
            let f = concat_lit("setpts=PTS-STARTPTS,", scale_filter("scale", q));
            push_string(&mut v, f.concat(",format=nv12,hwupload"));
            push_lit(&mut v, "-c:v");
            push_lit(&mut v, "h264_vaapi");
            push_lit(&mut v, "-qp");
            push_lit(&mut v, qp);
        },
        (Format::Mp4, AttemptKind::Software) => {
            push_lit(&mut v, "-vf");
            push_string(&mut v, concat_lit("setpts=PTS-STARTPTS,", scale_filter("scale", q)));
            push_lit(&mut v, "-c:v");
            push_lit(&mut v, "libx264");
            push_lit(&mut v, "-crf");
            push_lit(&mut v, crf);
            push_lit(&mut v, "-preset");
            push_lit(&mut v, "medium");
        },
    }
    assert(strings(v@) =~= video_args_of(plan.format, plan.quality, kind));
    v
}

pub fn audio_args(format: Format) -> (r: Vec<String>)
    ensures
        strings(r@) == audio_args_of(format),
{
    let mut v: Vec<String> = Vec::new();
    match format {
        Format::Mp4 => {
            push_lit(&mut v, "-c:a");
            push_lit(&mut v, "aac");
            push_lit(&mut v, "-b:a");
            push_lit(&mut v, "192k");
            push_lit(&mut v, "-af");
            push_lit(&mut v, "asetpts=PTS-STARTPTS");
        },
        Format::Webm => {
            push_lit(&mut v, "-c:a");
            push_lit(&mut v, "libopus");
            push_lit(&mut v, "-b:a");
            push_lit(&mut v, "128k");
            push_lit(&mut v, "-af");
            push_lit(&mut v, "asetpts=PTS-STARTPTS");
        },
        Format::Gif => {
            push_lit(&mut v, "-an");
        },
        Format::Copy => {},
    }
    assert(strings(v@) =~= audio_args_of(format));
    v
}

/// Hardware options for an attempt on a render node.
pub open spec fn device_args_of(kind: AttemptKind, node: Option<Seq<char>>) -> Seq<Seq<char>> {
    match node {
        None => Seq::empty(),
        Some(n) => match kind {
            AttemptKind::FullVaapi => seq![
                "-hwaccel"@,
                "vaapi"@,
                "-hwaccel_device"@,
                n,
                "-hwaccel_output_format"@,
                "vaapi"@,
            ],
            AttemptKind::VaapiEncode => seq!["-init_hw_device"@, "vaapi=va:"@ + n, "-filter_hw_device"@, "va"@],
            AttemptKind::Software => Seq::empty(),
        },
    }
}

/// Where the interval is selected: stream copy seeks on the input so the
/// demuxer lands on the keyframe at or before the start; re-encoding seeks on
/// the output for exact frames.
pub open spec fn interval_args_of(plan: ExportPlan) -> Seq<Seq<char>> {
    let start = seconds_text(plan.start as nat);
    let duration = seconds_text(plan.duration as nat);
    if plan.format == Format::Copy {
        seq!["-ss"@, start, "-i"@, plan.input@, "-t"@, duration]
    } else {
        seq!["-i"@, plan.input@, "-ss"@, start, "-t"@, duration]
    }
}

/// The complete FFmpeg command line (without the program name) of an attempt.
pub open spec fn ffmpeg_args_of(plan: ExportPlan, kind: AttemptKind, node: Option<Seq<char>>) -> Seq<Seq<char>> {
    seq!["-hide_banner"@, "-nostdin"@, "-y"@, "-loglevel"@, "warning"@]
        + device_args_of(kind, node)
        + interval_args_of(plan)
        + map_args_of(plan.format)
        + video_args_of(plan.format, plan.quality, kind)
        + audio_args_of(plan.format)
        + container_args_of(plan.format)
        + seq!["-progress"@, "pipe:1"@, "-nostats"@, plan.temp@]
}

/// Every export command line starts with the same quiet, overwriting
/// preamble and ends by streaming progress to stdout and writing the
/// temporary file; it reads the source; it maps the audio streams unless it
/// writes a GIF, and a GIF drops audio; the software attempt names no device.
pub proof fn export_command_shape(plan: ExportPlan, kind: AttemptKind, node: Option<Seq<char>>)
    ensures
        ({
            let a = ffmpeg_args_of(plan, kind, node);
            &&& a.take(5) == seq!["-hide_banner"@, "-nostdin"@, "-y"@, "-loglevel"@, "warning"@]
            &&& a.skip(a.len() - 4) == seq!["-progress"@, "pipe:1"@, "-nostats"@, plan.temp@]
            &&& a.contains(plan.input@)
            &&& plan.format != Format::Gif ==> exists|i: int|
                0 <= i && i + 1 < a.len() && a[i] == "-map"@ && #[trigger] a[i + 1] == "0:a?"@
            &&& plan.format == Format::Gif ==> a.contains("-an"@)
            &&& kind == AttemptKind::Software ==> a == ffmpeg_args_of(plan, AttemptKind::Software, None)
        }),
{
    let a = ffmpeg_args_of(plan, kind, node);
    let p0 = seq!["-hide_banner"@, "-nostdin"@, "-y"@, "-loglevel"@, "warning"@];
    let d = device_args_of(kind, node);
    let iv = interval_args_of(plan);
    let m = map_args_of(plan.format);
    let v = video_args_of(plan.format, plan.quality, kind);
    let au = audio_args_of(plan.format);
    let c = container_args_of(plan.format);
    let e = seq!["-progress"@, "pipe:1"@, "-nostats"@, plan.temp@];
    let s1 = p0 + d;
    let s2 = s1 + iv;
    let s3 = s2 + m;
    let s4 = s3 + v;
    let s5 = s4 + au;
    let s6 = s5 + c;
    assert(a == s6 + e);
    assert(a.take(5) =~= p0);
    assert(a.skip(a.len() - 4) =~= e);
    // the input sits in the interval arguments
    let k: int = if plan.format == Format::Copy { 3 } else { 1 };
    assert(iv[k] == plan.input@);
    let j: int = s1.len() + k;
    assert(a[j] == s2[j]);
    assert(a[j] == plan.input@);
    if plan.format != Format::Gif {
        let i: int = s2.len() as int + 2;
        assert(m[2] == "-map"@ && m[3] == "0:a?"@);
        assert(a[i] == s3[i]);
        assert(a[i + 1] == s3[i + 1]);
        assert(a[i] == "-map"@ && a[i + 1] == "0:a?"@);
    } else {
        let i: int = s4.len() as int;
        assert(a[i] == s5[i]);
        assert(a[i] == "-an"@);
    }
    if kind == AttemptKind::Software {
        assert(device_args_of(kind, node) =~= device_args_of(AttemptKind::Software, None));
    }
}

/// Whether `-map 0:a?`, the mapping of the audio streams, occurs in `a` as
/// two neighbouring arguments.
pub open spec fn maps_audio(a: Seq<Seq<char>>) -> bool {
    exists|i: int| 0 <= i && i + 1 < a.len() && a[i] == "-map"@ && #[trigger] a[i + 1] == "0:a?"@
}

proof fn lemma_maps_audio_concat(x: Seq<Seq<char>>, y: Seq<Seq<char>>)
    ensures
        maps_audio(x + y) ==> maps_audio(x) || maps_audio(y) || (x.len() > 0 && y.len() > 0
            && x.last() == "-map"@ && y[0] == "0:a?"@),
{
    if maps_audio(x + y) {
        let xy = x + y;
        let i = choose|i: int| 0 <= i && i + 1 < xy.len() && xy[i] == "-map"@ && #[trigger] xy[i + 1] == "0:a?"@;
        if i + 1 < x.len() {
            assert(x[i] == xy[i] && x[i + 1] == xy[i + 1]);
            assert(maps_audio(x));
        } else if i >= x.len() {
            let k = i - x.len();
            assert(y[k] == xy[i] && y[k + 1] == xy[i + 1]);
            assert(maps_audio(y));
        }
    }
}

proof fn lemma_literal_lengths()
    ensures
        "-map"@.len() == 4 && "0:a?"@.len() == 4 && "-map"@[0] == '-' && "0:a?"@[0] == '0',
        "-hide_banner"@.len() == 12 && "-nostdin"@.len() == 8 && "-y"@.len() == 2,
        "-loglevel"@.len() == 9 && "warning"@.len() == 7,
        "-hwaccel"@.len() == 8 && "vaapi"@.len() == 5 && "-hwaccel_device"@.len() == 15,
        "-hwaccel_output_format"@.len() == 22,
        "-init_hw_device"@.len() == 15 && "-filter_hw_device"@.len() == 17 && "va"@.len() == 2,
        "-i"@.len() == 2 && "-ss"@.len() == 3 && "-t"@.len() == 2,
        "0:v:0"@.len() == 5 && "-vf"@.len() == 3 && "-c:v"@.len() == 4 && "-c:v"@[0] == '-',
        "gif"@.len() == 3 && "-an"@.len() == 3,
        "-progress"@.len() == 9 && "pipe:1"@.len() == 6 && "-nostats"@.len() == 8,
{
    reveal_strlit("-map");
    reveal_strlit("0:a?");
    reveal_strlit("-hide_banner");
    reveal_strlit("-nostdin");
    reveal_strlit("-y");
    reveal_strlit("-loglevel");
    reveal_strlit("warning");
    reveal_strlit("-hwaccel");
    reveal_strlit("vaapi");
    reveal_strlit("-hwaccel_device");
    reveal_strlit("-hwaccel_output_format");
    reveal_strlit("-init_hw_device");
    reveal_strlit("-filter_hw_device");
    reveal_strlit("va");
    reveal_strlit("-i");
    reveal_strlit("-ss");
    reveal_strlit("-t");
    reveal_strlit("0:v:0");
    reveal_strlit("-vf");
    reveal_strlit("-c:v");
    reveal_strlit("gif");
    reveal_strlit("-an");
    reveal_strlit("-progress");
    reveal_strlit("pipe:1");
    reveal_strlit("-nostats");
}

/// A GIF command never maps audio streams: it has no `-map 0:a?` pair,
/// whatever the paths and device are; every other format maps them.
pub proof fn only_gif_drops_the_audio_map(plan: ExportPlan, kind: AttemptKind, node: Option<Seq<char>>)
    ensures
        plan.format == Format::Gif <==> !maps_audio(ffmpeg_args_of(plan, kind, node)),
{
    export_command_shape(plan, kind, node);
    if plan.format == Format::Gif {
        lemma_literal_lengths();
        let p0 = seq!["-hide_banner"@, "-nostdin"@, "-y"@, "-loglevel"@, "warning"@];
        let d = device_args_of(kind, node);
        let iv = interval_args_of(plan);
        let m = map_args_of(plan.format);
        let v = video_args_of(plan.format, plan.quality, kind);
        let au = audio_args_of(plan.format);
        let c = container_args_of(plan.format);
        let e = seq!["-progress"@, "pipe:1"@, "-nostats"@, plan.temp@];
        assert(m =~= seq!["-map"@, "0:v:0"@]);
        assert(c =~= Seq::<Seq<char>>::empty());
        assert(au =~= seq!["-an"@]);
        assert(!maps_audio(p0)) by {
            if maps_audio(p0) {
                let i = choose|i: int| 0 <= i && i + 1 < p0.len() && p0[i] == "-map"@ && #[trigger] p0[i + 1] == "0:a?"@;
                assert(i == 0 || i == 1 || i == 2 || i == 3);
            }
        }
        assert(!maps_audio(d)) by {
            if maps_audio(d) {
                let i = choose|i: int| 0 <= i && i + 1 < d.len() && d[i] == "-map"@ && #[trigger] d[i + 1] == "0:a?"@;
                assert(i == 0 || i == 1 || i == 2 || i == 3 || i == 4);
                if d.len() > 0 {
                    let n = node->0;
                    if kind == AttemptKind::VaapiEncode {
                        assert(("vaapi=va:"@ + n).len() > 0);
                    }
                }
            }
        }
        assert(!maps_audio(iv)) by {
            if maps_audio(iv) {
                let i = choose|i: int| 0 <= i && i + 1 < iv.len() && iv[i] == "-map"@ && #[trigger] iv[i + 1] == "0:a?"@;
                assert(i == 0 || i == 1 || i == 2 || i == 3 || i == 4);
            }
        }
        assert(!maps_audio(m)) by {
            if maps_audio(m) {
                let i = choose|i: int| 0 <= i && i + 1 < m.len() && m[i] == "-map"@ && #[trigger] m[i + 1] == "0:a?"@;
                assert(i == 0);
            }
        }
        assert(!maps_audio(v)) by {
            if maps_audio(v) {
                let i = choose|i: int| 0 <= i && i + 1 < v.len() && v[i] == "-map"@ && #[trigger] v[i + 1] == "0:a?"@;
                assert(i == 0 || i == 1 || i == 2);
                assert("-c:v"@ != "0:a?"@) by {
                    assert("-c:v"@[0] != "0:a?"@[0]);
                }
            }
        }
        assert(!maps_audio(au));
        assert(!maps_audio(c));
        assert(!maps_audio(e)) by {
            if maps_audio(e) {
                let i = choose|i: int| 0 <= i && i + 1 < e.len() && e[i] == "-map"@ && #[trigger] e[i + 1] == "0:a?"@;
                assert(i == 0 || i == 1 || i == 2);
            }
        }
        assert("-map"@ != "0:a?"@) by {
            assert("-map"@[0] != "0:a?"@[0]);
        }
        lemma_maps_audio_concat(p0, d);
        lemma_maps_audio_concat(p0 + d, iv);
        lemma_maps_audio_concat(p0 + d + iv, m);
        lemma_maps_audio_concat(p0 + d + iv + m, v);
        lemma_maps_audio_concat(p0 + d + iv + m + v, au);
        lemma_maps_audio_concat(p0 + d + iv + m + v + au, c);
        lemma_maps_audio_concat(p0 + d + iv + m + v + au + c, e);
        assert((p0 + d).last() != "-map"@) by {
            if d.len() > 0 {
                assert((p0 + d).last() == d.last());
            } else {
                assert((p0 + d).last() == p0.last());
            }
        }
        assert((p0 + d + iv)[(p0 + d + iv).len() - 1] == iv.last());
        assert((p0 + d + iv + m).last() == "0:v:0"@);
        assert((p0 + d + iv + m + v).last() == "gif"@);
        assert((p0 + d + iv + m + v + au).last() == "-an"@);
        assert((p0 + d + iv + m + v + au + c).last() == "-an"@);
    }
}

/// The number of arguments of `a` that are the text `x`.
pub open spec fn count_of(a: Seq<Seq<char>>, x: Seq<char>) -> nat
    decreases a.len(),
{
    if a.len() == 0 {
        0
    } else {
        count_of(a.drop_last(), x) + if a.last() == x {
            1nat
        } else {
            0nat
        }
    }
}

proof fn lemma_count_of_concat(a: Seq<Seq<char>>, b: Seq<Seq<char>>, x: Seq<char>)
    ensures
        count_of(a + b, x) == count_of(a, x) + count_of(b, x),
    decreases b.len(),
{
    if b.len() == 0 {
        assert(a + b =~= a);
    } else {
        lemma_count_of_concat(a, b.drop_last(), x);
        assert((a + b).drop_last() =~= a + b.drop_last());
    }
}

proof fn lemma_count_of_absent(a: Seq<Seq<char>>, x: Seq<char>)
    requires
        !a.contains(x),
    ensures
        count_of(a, x) == 0,
    decreases a.len(),
{
    if a.len() > 0 {
        assert(!a.drop_last().contains(x)) by {
            if a.drop_last().contains(x) {
                let k = choose|k: int| 0 <= k < a.drop_last().len() && a.drop_last()[k] == x;
                assert(a[k] == x);
            }
        }
        lemma_count_of_absent(a.drop_last(), x);
        assert(a[a.len() - 1] != x);
    }
}

/// The command without its input argument (the one after `-i`).
pub open spec fn args_without_input(plan: ExportPlan, kind: AttemptKind, node: Option<Seq<char>>) -> Seq<Seq<char>> {
    let start = seconds_text(plan.start as nat);
    let duration = seconds_text(plan.duration as nat);
    seq!["-hide_banner"@, "-nostdin"@, "-y"@, "-loglevel"@, "warning"@]
        + device_args_of(kind, node)
        + (if plan.format == Format::Copy {
            seq!["-ss"@, start, "-i"@, "-t"@, duration]
        } else {
            seq!["-i"@, "-ss"@, start, "-t"@, duration]
        })
        + map_args_of(plan.format)
        + video_args_of(plan.format, plan.quality, kind)
        + audio_args_of(plan.format)
        + container_args_of(plan.format)
        + seq!["-progress"@, "pipe:1"@, "-nostats"@, plan.temp@]
}

proof fn lemma_named_once(a: Seq<Seq<char>>, o: Seq<Seq<char>>, pre: Seq<Seq<char>>, post: Seq<Seq<char>>, x: Seq<char>)
    requires
        a == pre + seq![x] + post,
        o == pre + post,
        pre.len() >= 1,
        pre.last() == "-i"@,
    ensures
        exists|k: int| 1 <= k < a.len() && a[k - 1] == "-i"@ && a[k] == x && #[trigger] a.remove(k) == o,
        count_of(a, x) == 1 + count_of(o, x),
        !o.contains(x) ==> count_of(a, x) == 1,
{
    let k = pre.len() as int;
    assert(a[k - 1] == pre.last());
    assert(a[k] == x);
    assert(a.remove(k) =~= o);
    lemma_count_of_concat(pre + seq![x], post, x);
    lemma_count_of_concat(pre, seq![x], x);
    lemma_count_of_concat(pre, post, x);
    assert(count_of(seq![x], x) == 1) by {
        assert(seq![x].drop_last() =~= Seq::<Seq<char>>::empty());
        assert(count_of(Seq::<Seq<char>>::empty(), x) == 0);
    }
    if !o.contains(x) {
        lemma_count_of_absent(o, x);
    }
}

/// The source is named once, right after `-i`: removing that one argument
/// leaves the command without its input, in which the source's text occurs
/// only where it equals another argument; so it occurs exactly once unless
/// it is the same text as another argument.
#[verifier::rlimit(60)]
pub proof fn source_is_named_once(plan: ExportPlan, kind: AttemptKind, node: Option<Seq<char>>)
    ensures
        ({
            let a = ffmpeg_args_of(plan, kind, node);
            let o = args_without_input(plan, kind, node);
            &&& exists|k: int| 1 <= k < a.len() && a[k - 1] == "-i"@ && a[k] == plan.input@ && #[trigger] a.remove(k) == o
            &&& count_of(a, plan.input@) == 1 + count_of(o, plan.input@)
            &&& !o.contains(plan.input@) ==> count_of(a, plan.input@) == 1
        }),
{
    let a = ffmpeg_args_of(plan, kind, node);
    let o = args_without_input(plan, kind, node);
    let head = seq!["-hide_banner"@, "-nostdin"@, "-y"@, "-loglevel"@, "warning"@] + device_args_of(kind, node);
    let start = seconds_text(plan.start as nat);
    let duration = seconds_text(plan.duration as nat);
    let rest = map_args_of(plan.format) + video_args_of(plan.format, plan.quality, kind)
        + audio_args_of(plan.format) + container_args_of(plan.format)
        + seq!["-progress"@, "pipe:1"@, "-nostats"@, plan.temp@];
    let x = plan.input@;
    if plan.format == Format::Copy {
        let pre = head + seq!["-ss"@, start, "-i"@];
        let post = seq!["-t"@, duration] + rest;
        assert(a =~= pre + seq![x] + post);
        assert(o =~= pre + post);
        lemma_named_once(a, o, pre, post, x);
    } else {
        let pre = head + seq!["-i"@];
        let post = seq!["-ss"@, start, "-t"@, duration] + rest;
        assert(a =~= pre + seq![x] + post);
        assert(o =~= pre + post);
        lemma_named_once(a, o, pre, post, x);
    }
}

fn seconds(micros: u64) -> (r: String)
    ensures
        r@ == seconds_text(micros as nat),
{
    let mut v: Vec<char> = Vec::new();
    push_seconds(&mut v, micros);
    assert(v@ == seconds_text(micros as nat));
    string_from_chars(v.as_slice())
}

fn device_args(kind: AttemptKind, node: Option<&str>) -> (r: Vec<String>)
    ensures
        strings(r@) == device_args_of(kind, opt_text(node)),
{
    let mut a: Vec<String> = Vec::new();
    if let Some(n) = node {
        match kind {
            AttemptKind::FullVaapi => {
                push_lit(&mut a, "-hwaccel");
                push_lit(&mut a, "vaapi");
                push_lit(&mut a, "-hwaccel_device");
                push_lit(&mut a, n);
                push_lit(&mut a, "-hwaccel_output_format");
                push_lit(&mut a, "vaapi");
            },
            AttemptKind::VaapiEncode => {
                push_lit(&mut a, "-init_hw_device");
                push_string(&mut a, String::from_str("vaapi=va:").concat(n));
                push_lit(&mut a, "-filter_hw_device");
                push_lit(&mut a, "va");
            },
            AttemptKind::Software => {},
        }
    }
    assert(strings(a@) =~= device_args_of(kind, opt_text(node)));
    a
}

fn interval_args(plan: &ExportPlan) -> (r: Vec<String>)
    ensures
        strings(r@) == interval_args_of(*plan),
{
    let mut a: Vec<String> = Vec::new();
    let start = seconds(plan.start);
    let duration = seconds(plan.duration);
    let input = plan.input.clone();
    if plan.format == Format::Copy {
        push_lit(&mut a, "-ss");
        push_string(&mut a, start);
        push_lit(&mut a, "-i");
        push_string(&mut a, input);
        push_lit(&mut a, "-t");
        push_string(&mut a, duration);
    } else {
        push_lit(&mut a, "-i");
        push_string(&mut a, input);
        push_lit(&mut a, "-ss");
        push_string(&mut a, start);
        push_lit(&mut a, "-t");
        push_string(&mut a, duration);
    }
    assert(strings(a@) =~= interval_args_of(*plan));
    a
}

pub open spec fn map_args_of(format: Format) -> Seq<Seq<char>> {
    seq!["-map"@, "0:v:0"@] + (if format != Format::Gif {
        seq!["-map"@, "0:a?"@]
    } else {
        Seq::empty()
    })
}

fn map_args(format: Format) -> (r: Vec<String>)
    ensures
        strings(r@) == map_args_of(format),
{
    let mut a: Vec<String> = Vec::new();
    push_lit(&mut a, "-map");
    push_lit(&mut a, "0:v:0");
    if format != Format::Gif {
        push_lit(&mut a, "-map");
        push_lit(&mut a, "0:a?");
    }
    assert(strings(a@) =~= map_args_of(format));
    a
}

pub open spec fn container_args_of(format: Format) -> Seq<Seq<char>> {
    (if format == Format::Mp4 || format == Format::Copy {
        seq!["-movflags"@, "+faststart"@]
    } else {
        Seq::empty()
    }) + (if format != Format::Gif {
        seq!["-avoid_negative_ts"@, "make_zero"@]
    } else {
        Seq::empty()
    })
}

fn container_args(format: Format) -> (r: Vec<String>)
    ensures
        strings(r@) == container_args_of(format),
{
    let mut a: Vec<String> = Vec::new();
    if format == Format::Mp4 || format == Format::Copy {
        push_lit(&mut a, "-movflags");
        push_lit(&mut a, "+faststart");
    }
    if format != Format::Gif {
        push_lit(&mut a, "-avoid_negative_ts");
        push_lit(&mut a, "make_zero");
    }
    assert(strings(a@) =~= container_args_of(format));
    a
}

pub fn args(plan: &ExportPlan, kind: AttemptKind, node: Option<&str>) -> (r: Vec<String>)
    ensures
        strings(r@) == ffmpeg_args_of(*plan, kind, opt_text(node)),
{
    let mut a: Vec<String> = Vec::new();
    push_lit(&mut a, "-hide_banner");
    push_lit(&mut a, "-nostdin");
    push_lit(&mut a, "-y");
    push_lit(&mut a, "-loglevel");
    push_lit(&mut a, "warning");
    extend_strings(&mut a, device_args(kind, node));
    extend_strings(&mut a, interval_args(plan));
    extend_strings(&mut a, map_args(plan.format));
    extend_strings(&mut a, video_args(plan, kind));
    extend_strings(&mut a, audio_args(plan.format));
    extend_strings(&mut a, container_args(plan.format));
    let ghost s6 = strings(a@);
    push_lit(&mut a, "-progress");
    push_lit(&mut a, "pipe:1");
    push_lit(&mut a, "-nostats");
    push_string(&mut a, plan.temp.clone());
    assert(strings(a@) =~= s6 + seq!["-progress"@, "pipe:1"@, "-nostats"@, plan.temp@]);
    assert(strings(a@) =~= ffmpeg_args_of(*plan, kind, opt_text(node)));
    a
}


// ---------------------------------------------------------------------------
// Acceleration records of a finished export
// ---------------------------------------------------------------------------

pub open spec fn software_records_of(encoder: Seq<char>, reason: Seq<char>) -> Seq<RecordView> {
    seq![
        record_view("export_decode"@, AccelerationState::Software, Some("FFmpeg software decoder"@), None, None, Some(reason)),
        record_view("export_encode"@, AccelerationState::Software, Some(encoder), None, None, Some(reason)),
    ]
}

/// What an export that succeeded with `kind` reports about acceleration.
pub open spec fn records_of(kind: AttemptKind, format: Format, node: Option<Seq<char>>) -> Seq<RecordView> {
    match (format, kind) {
        (Format::Copy, _) => Seq::empty(),
        (Format::Webm, _) => software_records_of("libvpx-vp9"@, "WebM export always uses software encoding"@),
        (Format::Gif, _) => software_records_of("gif"@, "GIF export always uses software encoding"@),
        (Format::Mp4, AttemptKind::Software) => software_records_of("libx264"@, "VA-API attempts unavailable or failed"@),
        (Format::Mp4, AttemptKind::FullVaapi) => seq![
            record_view("export_decode"@, AccelerationState::Active, Some("VA-API decoder"@), Some("VA-API"@), node, None),
            record_view("export_encode"@, AccelerationState::Active, Some("h264_vaapi"@), Some("VA-API"@), node, None),
        ],
        (Format::Mp4, AttemptKind::VaapiEncode) => seq![
            record_view("export_decode"@, AccelerationState::Software, Some("FFmpeg software decoder"@), None, None, None),
            record_view("export_encode"@, AccelerationState::Active, Some("h264_vaapi"@), Some("VA-API"@), node, None),
        ],
    }
}

fn software_records(encoder: &str, reason: &str) -> (r: Vec<AccelerationRecord>)
    ensures
        records_view(r@) == software_records_of(encoder@, reason@),
{
    let mut v: Vec<AccelerationRecord> = Vec::new();
    v.push(record("export_decode", AccelerationState::Software, Some("FFmpeg software decoder"), None, None, Some(reason)));
    v.push(record("export_encode", AccelerationState::Software, Some(encoder), None, None, Some(reason)));
    assert(records_view(v@) =~= software_records_of(encoder@, reason@));
    v
}

fn owned_node(node: Option<&str>) -> (r: Option<String>)
    ensures
        opt_view(r) == opt_text(node),
{
    match node {
        Some(n) => Some(String::from_str(n)),
        None => None,
    }
}

/// The acceleration records of an export say what ran: none for a stream
/// copy; otherwise a decode record then an encode record, the encoder being
/// the one the command line names. Hardware (`Active`, VA-API, the device)
/// is reported exactly for the VA-API parts of an MP4 attempt; software
/// parts name no device.
pub proof fn records_say_what_ran(kind: AttemptKind, format: Format, q: Quality, node: Option<Seq<char>>)
    ensures
        format == Format::Copy <==> records_of(kind, format, node).len() == 0,
        format != Format::Copy ==> {
            let r = records_of(kind, format, node);
            &&& r.len() == 2
            &&& r[0].component == "export_decode"@ && r[1].component == "export_encode"@
            &&& r[1].implementation == Some(video_args_of(format, q, kind)[3])
            &&& (r[1].state == AccelerationState::Active <==> format == Format::Mp4 && kind != AttemptKind::Software)
            &&& (r[0].state == AccelerationState::Active <==> format == Format::Mp4 && kind == AttemptKind::FullVaapi)
            &&& forall|i: int| 0 <= i < 2 ==> (#[trigger] r[i].state == AccelerationState::Active
                ==> r[i].api == Some("VA-API"@) && r[i].device == node)
            &&& forall|i: int| 0 <= i < 2 ==> (#[trigger] r[i].state == AccelerationState::Software
                ==> r[i].api is None && r[i].device is None)
        },
{
}

pub fn records(kind: AttemptKind, format: Format, node: Option<&str>) -> (r: Vec<AccelerationRecord>)
    ensures
        records_view(r@) == records_of(kind, format, opt_text(node)),
{
    match (format, kind) {
        (Format::Copy, _) => {
            let v: Vec<AccelerationRecord> = Vec::new();
            assert(records_view(v@) =~= Seq::<RecordView>::empty());
            v
        },
        (Format::Webm, _) => software_records("libvpx-vp9", "WebM export always uses software encoding"),
        (Format::Gif, _) => software_records("gif", "GIF export always uses software encoding"),
        (Format::Mp4, AttemptKind::Software) => software_records("libx264", "VA-API attempts unavailable or failed"),
        (Format::Mp4, AttemptKind::FullVaapi) => {
            let mut v: Vec<AccelerationRecord> = Vec::new();
            v.push(record("export_decode", AccelerationState::Active, Some("VA-API decoder"), Some("VA-API"), owned_node(node), None));
            v.push(record("export_encode", AccelerationState::Active, Some("h264_vaapi"), Some("VA-API"), owned_node(node), None));
            assert(records_view(v@) =~= records_of(kind, format, opt_text(node)));
            v
        },
        (Format::Mp4, AttemptKind::VaapiEncode) => {
            let mut v: Vec<AccelerationRecord> = Vec::new();
            v.push(record("export_decode", AccelerationState::Software, Some("FFmpeg software decoder"), None, None, None));
            v.push(record("export_encode", AccelerationState::Active, Some("h264_vaapi"), Some("VA-API"), owned_node(node), None));
            assert(records_view(v@) =~= records_of(kind, format, opt_text(node)));
            v
        },
    }
}

// ---------------------------------------------------------------------------
// Decisions of an export run
// ---------------------------------------------------------------------------

/// The selected interval's length; refused unless the start precedes the end.
pub fn validate_trim(start_micros: u64, end_micros: u64) -> (r: Result<u64, AppError>)
    ensures
        start_micros >= end_micros ==> (r matches Err(AppError::InvalidTrim(m)) && m@
            == "start must be before end"@),
        start_micros < end_micros ==> r == Ok::<u64, AppError>((end_micros - start_micros) as u64),
{
    if start_micros >= end_micros {
        return Err(AppError::InvalidTrim(String::from_str("start must be before end")));
    }
    Ok(end_micros - start_micros)
}

/// Whether a destination's file name carries the format's extension
/// (compared without ASCII case).
pub open spec fn name_has_extension(name: Seq<char>, format: Format) -> bool {
    path_extension_of(name) matches Some(e) && lower(e) == lower(ext_text(format))
}

/// The destination needs a file name that ends in the format's extension.
pub fn check_output_name(name: Option<&str>, format: Format) -> (r: Result<(), AppError>)
    ensures
        match name {
            None => r matches Err(AppError::Destination(m)) && m@ == "missing filename"@,
            Some(n) => if name_has_extension(n@, format) {
                r is Ok
            } else {
                r matches Err(AppError::Destination(m)) && m@ == "output must end in ."@ + ext_text(format)
            },
        },
{
    match name {
        None => Err(AppError::Destination(String::from_str("missing filename"))),
        Some(n) => {
            let required = format.extension();
            let ok = match path_extension(n) {
                Some(e) => eq_ignore_case(to_chars(e.as_str()).as_slice(), to_chars(required).as_slice()),
                None => false,
            };
            if ok {
                Ok(())
            } else {
                Err(AppError::Destination(String::from_str("output must end in .").concat(required)))
            }
        },
    }
}

/// An existing destination is replaced, but never when it is the source.
pub fn check_not_source(same_as_input: bool) -> (r: Result<(), AppError>)
    ensures
        same_as_input ==> (r matches Err(AppError::Destination(m)) && m@
            == "source and destination are the same file"@),
        !same_as_input ==> r is Ok,
{
    if same_as_input {
        Err(AppError::Destination(String::from_str("source and destination are the same file")))
    } else {
        Ok(())
    }
}

/// The start a stream copy really has, given its keyframe index: the
/// keyframe at or before the requested start, or the first keyframe when
/// the start precedes it; unknown without keyframes.
pub open spec fn copy_start_is(k: Seq<u64>, start: u64, r: Option<u64>) -> bool {
    &&& (r is None <==> k.len() == 0)
    &&& r matches Some(v) ==> {
        &&& k.contains(v)
        &&& k[0] <= start ==> v <= start && forall|i: int|
            0 <= i < k.len() && k[i] <= start ==> k[i] <= v
        &&& k[0] > start ==> v == k[0]
    }
}

/// What is known of the output's start before the export runs: the
/// requested start when re-encoding; for stream copy the keyframe at or
/// before it, unknown without a keyframe index.
pub open spec fn initial_start_is(format: Format, start: u64, keyframes: Option<Seq<u64>>, r: Option<u64>) -> bool {
    if format != Format::Copy {
        r == Some(start)
    } else {
        match keyframes {
            None => r is None,
            Some(k) => copy_start_is(k, start, r),
        }
    }
}

/// After the export: a stream copy whose start was unknown starts where the
/// validated output's duration, counted back from the requested end, puts it.
pub open spec fn completed_start_of(format: Format, effective: Option<u64>, end: u64, output_duration: u64) -> Option<u64> {
    if format == Format::Copy && effective is None {
        Some(if output_duration <= end { (end - output_duration) as u64 } else { 0u64 })
    } else {
        effective
    }
}

pub fn initial_effective_start(format: Format, start_micros: u64, keyframes: Option<&[u64]>) -> (r: Option<u64>)
    requires
        keyframes matches Some(k) ==> nondecreasing(k@),
    ensures
        initial_start_is(
            format,
            start_micros,
            match keyframes {
                Some(k) => Some(k@),
                None => None,
            },
            r,
        ),
{
    if format != Format::Copy {
        return Some(start_micros);
    }
    match keyframes {
        Some(k) => keyframe_at_or_before(k, start_micros),
        None => None,
    }
}

pub fn completed_effective_start(format: Format, effective: Option<u64>, end_micros: u64, output_duration_micros: u64) -> (r: Option<u64>)
    ensures
        r == completed_start_of(format, effective, end_micros, output_duration_micros),
{
    if format == Format::Copy && effective.is_none() {
        Some(end_micros.saturating_sub(output_duration_micros))
    } else {
        effective
    }
}

/// Every successful export reports where its output starts: a re-encoded
/// output at the requested start; a stream copy at the keyframe at or before
/// it (the first keyframe when the start precedes every keyframe), and,
/// without a usable keyframe index, at the requested end less the output's
/// duration.
pub proof fn export_reports_its_start(
    format: Format,
    start: u64,
    end: u64,
    output_duration: u64,
    keyframes: Option<Seq<u64>>,
    initial: Option<u64>,
)
    requires
        initial_start_is(format, start, keyframes, initial),
    ensures
        completed_start_of(format, initial, end, output_duration) is Some,
        format != Format::Copy ==> completed_start_of(format, initial, end, output_duration) == Some(start),
        format == Format::Copy && (keyframes matches Some(k) && k.len() > 0) ==> completed_start_of(
            format,
            initial,
            end,
            output_duration,
        ) == initial && copy_start_is(keyframes->0, start, initial),
        format == Format::Copy && !(keyframes matches Some(k) && k.len() > 0) ==> completed_start_of(
            format,
            initial,
            end,
            output_duration,
        ) == Some(if output_duration <= end { (end - output_duration) as u64 } else { 0u64 }),
{
}

/// The error when every attempt failed: the failures in order, then where
/// the detailed FFmpeg diagnostics are.
pub fn export_failure(failures: &Vec<String>, ffmpeg_log: &str) -> (r: AppError)
    ensures
        r matches AppError::Export(m) && m@ == joined(failures@.map_values(|x: String| x@), "; "@)
            + ". Detailed diagnostics: "@ + ffmpeg_log@,
{
    let joined_failures = join_strings(failures, "; ");
    AppError::Export(joined_failures.concat(". Detailed diagnostics: ").concat(ffmpeg_log))
}

// ---------------------------------------------------------------------------
// The fallback run
// ---------------------------------------------------------------------------

/// Where a run of export attempts stands.
#[derive(Debug, Clone, Copy, PartialEq, Eq, Structural)]
pub enum RunStatus {
    Trying,
    Succeeded(AttemptKind),
    Cancelled,
}

/// The planned attempts, the failures so far (one per failed attempt, in
/// order), and where the run stands.
pub struct RunView {
    pub attempts: Seq<AttemptKind>,
    pub failures: Seq<Seq<char>>,
    pub status: RunStatus,
}

/// The attempts of one export, tried in order until one succeeds, the
/// export is cancelled, or none is left.
pub struct AttemptRun {
    attempts: Vec<AttemptKind>,
    failures: Vec<String>,
    status: RunStatus,
}

impl View for AttemptRun {
    type V = RunView;

    closed spec fn view(&self) -> RunView {
        RunView {
            attempts: self.attempts@,
            failures: self.failures@.map_values(|f: String| f@),
            status: self.status,
        }
    }
}

/// The attempt to run next: the one after the failed ones, while the run is
/// still trying and one is left.
pub open spec fn next_of(v: RunView) -> Option<AttemptKind> {
    if v.status == RunStatus::Trying && v.failures.len() < v.attempts.len() {
        Some(v.attempts[v.failures.len() as int])
    } else {
        None
    }
}

/// The run after the attempt `next_of(v)` ended with `failure` (`None` for
/// success). An attempt that reports `cancelled` ends the run; any other
/// failure moves on to the next attempt. Nothing changes when no attempt runs.
pub open spec fn step(v: RunView, failure: Option<Seq<char>>) -> RunView {
    match next_of(v) {
        None => v,
        Some(k) => match failure {
            None => RunView { status: RunStatus::Succeeded(k), ..v },
            Some(e) => if e == "cancelled"@ {
                RunView { status: RunStatus::Cancelled, ..v }
            } else {
                RunView { failures: v.failures.push(e), ..v }
            },
        },
    }
}

/// What a finished run gives: the attempt that succeeded, the cancellation,
/// or, when every attempt failed, the export error that lists the failures.
pub open spec fn run_outcome(v: RunView, ffmpeg_log: Seq<char>) -> Result<AttemptKind, Seq<char>> {
    match v.status {
        RunStatus::Succeeded(k) => Ok(k),
        RunStatus::Cancelled => Err(Seq::empty()),
        RunStatus::Trying => Err(
            joined(v.failures, "; "@) + ". Detailed diagnostics: "@ + ffmpeg_log,
        ),
    }
}

pub open spec fn failure_of(result: Result<(), String>) -> Option<Seq<char>> {
    match result {
        Ok(()) => None,
        Err(e) => Some(e@),
    }
}

/// The run after attempts that failed with the messages `msgs`, in order.
pub open spec fn after_failures(v: RunView, msgs: Seq<Seq<char>>) -> RunView
    decreases msgs.len(),
{
    if msgs.len() == 0 {
        v
    } else {
        step(after_failures(v, msgs.drop_last()), Some(msgs.last()))
    }
}

proof fn lemma_after_failures(v: RunView, msgs: Seq<Seq<char>>)
    requires
        v.status == RunStatus::Trying,
        v.failures.len() + msgs.len() <= v.attempts.len(),
        forall|i: int| 0 <= i < msgs.len() ==> msgs[i] != "cancelled"@,
    ensures
        after_failures(v, msgs) == (RunView { failures: v.failures + msgs, ..v }),
    decreases msgs.len(),
{
    if msgs.len() > 0 {
        lemma_after_failures(v, msgs.drop_last());
        let w = after_failures(v, msgs.drop_last());
        assert(msgs[msgs.len() - 1] != "cancelled"@);
        assert(next_of(w) is Some);
        assert((v.failures + msgs.drop_last()).push(msgs.last()) =~= v.failures + msgs);
    } else {
        assert(v.failures + msgs =~= v.failures);
    }
}

/// The attempts of an export are tried in the planned order, one after each
/// failure; when every one of them failed (none was cancelled), nothing is
/// left to try and the export's error lists every failure in order.
pub proof fn failed_attempts_are_reported_in_order(
    format: Format,
    has_node: bool,
    msgs: Seq<Seq<char>>,
    ffmpeg_log: Seq<char>,
)
    requires
        msgs.len() == planned_attempts_of(format, has_node).len(),
        forall|i: int| 0 <= i < msgs.len() ==> msgs[i] != "cancelled"@,
    ensures
        ({
            let start = RunView {
                attempts: planned_attempts_of(format, has_node),
                failures: Seq::empty(),
                status: RunStatus::Trying,
            };
            &&& forall|i: int|
                0 <= i < msgs.len() ==> next_of(#[trigger] after_failures(start, msgs.take(i)))
                    == Some(start.attempts[i])
            &&& next_of(after_failures(start, msgs)) is None
            &&& run_outcome(after_failures(start, msgs), ffmpeg_log) == Err::<AttemptKind, Seq<char>>(
                joined(msgs, "; "@) + ". Detailed diagnostics: "@ + ffmpeg_log,
            )
        }),
{
    let start = RunView {
        attempts: planned_attempts_of(format, has_node),
        failures: Seq::empty(),
        status: RunStatus::Trying,
    };
    assert forall|i: int| 0 <= i < msgs.len() implies next_of(
        #[trigger] after_failures(start, msgs.take(i)),
    ) == Some(start.attempts[i]) by {
        lemma_after_failures(start, msgs.take(i));
        assert(start.failures + msgs.take(i) =~= msgs.take(i));
    }
    lemma_after_failures(start, msgs);
    assert(start.failures + msgs =~= msgs);
}

/// A run ends with its first success or cancellation: the attempt that ran
/// is the one that succeeded, nothing more is tried, and later reports
/// change nothing.
pub proof fn first_success_or_cancellation_ends_the_run(v: RunView, failure: Option<Seq<char>>, later: Option<Seq<char>>)
    requires
        next_of(v) is Some,
        failure matches Some(e) ==> e == "cancelled"@,
    ensures
        failure is None ==> step(v, failure).status == RunStatus::Succeeded(next_of(v)->0),
        failure is Some ==> step(v, failure).status == RunStatus::Cancelled,
        next_of(step(v, failure)) is None,
        step(step(v, failure), later) == step(v, failure),
{
}

impl AttemptRun {
    /// A run of the attempts planned for `format`.
    pub fn new(format: Format, has_node: bool) -> (r: Self)
        ensures
            r@ == (RunView {
                attempts: planned_attempts_of(format, has_node),
                failures: Seq::empty(),
                status: RunStatus::Trying,
            }),
    {
        let r = AttemptRun {
            attempts: planned_attempts(format, has_node),
            failures: Vec::new(),
            status: RunStatus::Trying,
        };
        assert(r@.failures =~= Seq::<Seq<char>>::empty());
        r
    }

    /// The attempt to run now, if any.
    pub fn next(&self) -> (r: Option<AttemptKind>)
        ensures
            r == next_of(self@),
    {
        let tried = self.failures.len();
        if self.status == RunStatus::Trying && tried < self.attempts.len() {
            Some(self.attempts[tried])
        } else {
            None
        }
    }

    /// Records how the current attempt ended.
    pub fn report(&mut self, result: Result<(), String>)
        ensures
            final(self)@ == step(old(self)@, failure_of(result)),
    {
        let tried = self.failures.len();
        if self.status != RunStatus::Trying || tried >= self.attempts.len() {
            return;
        }
        let k = self.attempts[tried];
        match result {
            Ok(()) => {
                self.status = RunStatus::Succeeded(k);
            },
            Err(e) => {
                if eq_chars(to_chars(e.as_str()).as_slice(), to_chars("cancelled").as_slice()) {
                    self.status = RunStatus::Cancelled;
                } else {
                    let ghost before = self.failures@;
                    self.failures.push(e);
                    assert(self.failures@.map_values(|f: String| f@) =~= before.map_values(
                        |f: String| f@,
                    ).push(e@));
                }
            },
        }
    }

    /// The attempt that succeeded, or the error that ends the export.
    pub fn outcome(&self, ffmpeg_log: &str) -> (r: Result<AttemptKind, AppError>)
        ensures
            match (r, run_outcome(self@, ffmpeg_log@)) {
                (Ok(k), Ok(j)) => k == j,
                (Err(AppError::Cancelled), Err(_)) => self@.status == RunStatus::Cancelled,
                (Err(AppError::Export(m)), Err(t)) => self@.status == RunStatus::Trying && m@ == t,
                _ => false,
            },
    {
        match self.status {
            RunStatus::Succeeded(k) => Ok(k),
            RunStatus::Cancelled => Err(AppError::Cancelled),
            RunStatus::Trying => Err(export_failure(&self.failures, ffmpeg_log)),
        }
    }
}

/// The first position of `t` in `v`.
pub open spec fn position_of(v: Seq<Seq<char>>, t: Seq<char>) -> Option<int>
    decreases v.len(),
{
    if v.len() == 0 {
        None
    } else if v[0] == t {
        Some(0)
    } else {
        match position_of(v.drop_first(), t) {
            Some(i) => Some(i + 1),
            None => None,
        }
    }
}

proof fn lemma_position_of(v: Seq<Seq<char>>, t: Seq<char>, i: int)
    requires
        0 <= i <= v.len(),
        forall|j: int| 0 <= j < i ==> v[j] != t,
        i == v.len() || v[i] == t,
    ensures
        position_of(v, t) == (if i < v.len() {
            Some(i)
        } else {
            None::<int>
        }),
    decreases v.len(),
{
    if v.len() > 0 && i > 0 {
        lemma_position_of(v.drop_first(), t, i - 1);
    }
}

/// The arguments with FFmpeg's log level (the value after the first
/// `-loglevel`) raised to `verbose`, for verbose sessions.
pub open spec fn verbose_args_of(v: Seq<Seq<char>>) -> Seq<Seq<char>> {
    match position_of(v, "-loglevel"@) {
        Some(i) => if i + 1 < v.len() {
            v.update(i + 1, "verbose"@)
        } else {
            v
        },
        None => v,
    }
}

/// A verbose session raises FFmpeg's log level: the value after the first
/// `-loglevel` becomes `verbose` and every other argument stays; without a
/// `-loglevel` (or without a value after it) nothing changes.
pub proof fn verbose_raises_the_first_loglevel(a: Seq<Seq<char>>, i: int)
    ensures
        0 <= i < a.len() && a[i] == "-loglevel"@ && (forall|j: int| 0 <= j < i ==> a[j] != "-loglevel"@)
            ==> verbose_args_of(a) == if i + 1 < a.len() {
            a.update(i + 1, "verbose"@)
        } else {
            a
        },
        (forall|j: int| 0 <= j < a.len() ==> a[j] != "-loglevel"@) ==> verbose_args_of(a) == a,
{
    if 0 <= i < a.len() && a[i] == "-loglevel"@ && (forall|j: int| 0 <= j < i ==> a[j] != "-loglevel"@) {
        lemma_position_of(a, "-loglevel"@, i);
    }
    if forall|j: int| 0 <= j < a.len() ==> a[j] != "-loglevel"@ {
        lemma_position_of(a, "-loglevel"@, a.len() as int);
    }
}

pub fn with_verbose_loglevel(args: Vec<String>) -> (r: Vec<String>)
    ensures
        strings(r@) == verbose_args_of(strings(args@)),
{
    let ghost v0 = strings(args@);
    let mut out = args;
    let flag = to_chars("-loglevel");
    let n = out.len();
    let mut i: usize = 0;
    while i < n
        invariant
            n == out@.len(),
            v0 == strings(out@),
            v0 == strings(args@),
            flag@ == "-loglevel"@,
            i <= n,
            forall|j: int| 0 <= j < i ==> v0[j] != "-loglevel"@,
        decreases n - i,
    {
        assert(v0[i as int] == out@[i as int]@);
        if eq_chars(to_chars(out[i].as_str()).as_slice(), flag.as_slice()) {
            proof {
                lemma_position_of(v0, "-loglevel"@, i as int);
            }
            if i + 1 < n {
                out.set(i + 1, String::from_str("verbose"));
                assert(strings(out@) =~= v0.update(i + 1, "verbose"@));
            }
            return out;
        }
        i = i + 1;
    }
    proof {
        lemma_position_of(v0, "-loglevel"@, n as int);
    }
    out
}

} // verus!
