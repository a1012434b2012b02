use vstd::prelude::*;

use crate::paths::opt_view;
use crate::text::{
    contains, contains_chars, eq_chars, find_char_from, find_from, first_index, has_prefix,
    has_suffix, lower, lower_chars, occurs_at, starts_with, ends_with, string_from_chars, subrange,
    to_chars, lemma_first_index_bounds,
};

verus! {

/// What is known of a hardware path.
#[derive(Debug, Clone, Copy, PartialEq, Eq, Structural)]
pub enum AccelerationState {
    Available,
    Active,
    Software,
    Failed,
    Unknown,
}

/// One component of playback or export, and how it is accelerated.
#[derive(Debug, Clone)]
pub struct AccelerationRecord {
    pub component: String,
    pub state: AccelerationState,
    pub implementation: Option<String>,
    pub api: Option<String>,
    pub device: Option<String>,
    pub reason: Option<String>,
}

/// The content of an `AccelerationRecord`.
pub struct RecordView {
    pub component: Seq<char>,
    pub state: AccelerationState,
    pub implementation: Option<Seq<char>>,
    pub api: Option<Seq<char>>,
    pub device: Option<Seq<char>>,
    pub reason: Option<Seq<char>>,
}

impl View for AccelerationRecord {
    type V = RecordView;

    open spec fn view(&self) -> RecordView {
        RecordView {
            component: self.component@,
            state: self.state,
            implementation: opt_view(self.implementation),
            api: opt_view(self.api),
            device: opt_view(self.device),
            reason: opt_view(self.reason),
        }
    }
}

pub open spec fn records_view(v: Seq<AccelerationRecord>) -> Seq<RecordView> {
    v.map_values(|r: AccelerationRecord| r@)
}

pub open spec fn opt_text(o: Option<&str>) -> Option<Seq<char>> {
    match o {
        Some(s) => Some(s@),
        None => None,
    }
}

pub open spec fn record_view(
    component: Seq<char>,
    state: AccelerationState,
    implementation: Option<Seq<char>>,
    api: Option<Seq<char>>,
    device: Option<Seq<char>>,
    reason: Option<Seq<char>>,
) -> RecordView {
    RecordView { component, state, implementation, api, device, reason }
}

fn opt_owned(o: Option<&str>) -> (r: Option<String>)
    ensures
        opt_view(r) == opt_text(o),
{
    match o {
        Some(s) => Some(String::from_str(s)),
        None => None,
    }
}

pub fn record(
    component: &str,
    state: AccelerationState,
    implementation: Option<&str>,
    api: Option<&str>,
    device: Option<String>,
    reason: Option<&str>,
) -> (r: AccelerationRecord)
    ensures
        r@ == record_view(component@, state, opt_text(implementation), opt_text(api), opt_view(device), opt_text(reason)),
{
    AccelerationRecord {
        component: String::from_str(component),
        state,
        implementation: opt_owned(implementation),
        api: opt_owned(api),
        device,
        reason: opt_owned(reason),
    }
}

/// The decoders that are VA-API hardware decoders.
pub open spec fn hardware_decoders() -> Seq<Seq<char>> {
    seq!["vah264dec"@, "vaapih264dec"@, "vavp9dec"@, "vaav1dec"@]
}

pub open spec fn classified(name: Seq<char>) -> AccelerationState {
    let n = lower(name);
    if exists|i: int| 0 <= i < hardware_decoders().len() && contains(n, #[trigger] hardware_decoders()[i]) {
        AccelerationState::Active
    } else if has_prefix(n, "avdec_"@) || contains(n, "openh264dec"@) {
        AccelerationState::Software
    } else {
        AccelerationState::Unknown
    }
}

/// Decoder names are judged without ASCII case: a VA-API decoder
/// (`vah264dec`, `vaapih264dec`, `vavp9dec`, `vaav1dec`) anywhere in the name
/// is active hardware decoding; otherwise an FFmpeg (`avdec_…`) or OpenH264
/// decoder is software; anything else is unknown, never hardware.
pub proof fn decoder_classes(name: Seq<char>)
    ensures
        ({
            let n = lower(name);
            let hw = contains(n, "vah264dec"@) || contains(n, "vaapih264dec"@) || contains(n, "vavp9dec"@)
                || contains(n, "vaav1dec"@);
            &&& classified(name) == AccelerationState::Active <==> hw
            &&& classified(name) == AccelerationState::Software <==> !hw && (has_prefix(n, "avdec_"@)
                || contains(n, "openh264dec"@))
            &&& classified(name) != AccelerationState::Available && classified(name) != AccelerationState::Failed
        }),
{
    let h = hardware_decoders();
    let n = lower(name);
    assert(h[0] == "vah264dec"@ && h[1] == "vaapih264dec"@ && h[2] == "vavp9dec"@ && h[3] == "vaav1dec"@);
    if exists|i: int| 0 <= i < h.len() && contains(n, #[trigger] h[i]) {
        let i = choose|i: int| 0 <= i < h.len() && contains(n, #[trigger] h[i]);
        assert(0 <= i < 4);
    }
}

fn contains_lit(s: &[char], lit: &str) -> (r: bool)
    ensures
        r == contains(s@, lit@),
{
    contains_chars(s, to_chars(lit).as_slice())
}

/// How a GStreamer decoder factory is accelerated, judged from its name
/// without ASCII case: VA-API decoders are active, FFmpeg and OpenH264
/// software, anything else unknown.
pub fn classify_decoder(name: &str) -> (r: AccelerationState)
    ensures
        r == classified(name@),
{
    let n = lower_chars(to_chars(name).as_slice());
    let hw = contains_lit(n.as_slice(), "vah264dec") || contains_lit(n.as_slice(), "vaapih264dec")
        || contains_lit(n.as_slice(), "vavp9dec") || contains_lit(n.as_slice(), "vaav1dec");
    proof {
        let h = hardware_decoders();
        assert(h[0] == "vah264dec"@ && h[1] == "vaapih264dec"@ && h[2] == "vavp9dec"@ && h[3] == "vaav1dec"@);
    }
    if hw {
        AccelerationState::Active
    } else if starts_with(n.as_slice(), to_chars("avdec_").as_slice()) || contains_lit(n.as_slice(), "openh264dec") {
        AccelerationState::Software
    } else {
        AccelerationState::Unknown
    }
}

pub open spec fn unknown_decode_view() -> RecordView {
    record_view("playback_decode"@, AccelerationState::Unknown, None, None, None,
        Some("WebKitGTK has not exposed decoder evidence yet"@))
}

pub open spec fn unknown_render_view() -> RecordView {
    record_view("playback_render"@, AccelerationState::Unknown, None, None, None,
        Some("DMA-BUF rendering has not been observed"@))
}

fn unknown_decode() -> (r: AccelerationRecord)
    ensures
        r@ == unknown_decode_view(),
{
    record("playback_decode", AccelerationState::Unknown, None, None, None,
        Some("WebKitGTK has not exposed decoder evidence yet"))
}

fn unknown_render() -> (r: AccelerationRecord)
    ensures
        r@ == unknown_render_view(),
{
    record("playback_render", AccelerationState::Unknown, None, None, None,
        Some("DMA-BUF rendering has not been observed"))
}

/// Whether a `/dev/dri` entry is a render node (`renderD<n>`).
pub fn is_render_node_name(name: &str) -> (r: bool)
    ensures
        r == has_prefix(name@, "renderD"@),
{
    starts_with(to_chars(name).as_slice(), to_chars("renderD").as_slice())
}

/// Playback records before any decoder evidence exists.
pub fn unknown_playback() -> (r: Vec<AccelerationRecord>)
    ensures
        records_view(r@) == seq![unknown_decode_view(), unknown_render_view()],
{
    let mut v: Vec<AccelerationRecord> = Vec::new();
    v.push(unknown_decode());
    v.push(unknown_render());
    assert(records_view(v@) =~= seq![unknown_decode_view(), unknown_render_view()]);
    v
}

/// Decoder factories that are recognised by name, in the order of preference
/// of a plain-text mention (later ones win).
pub open spec fn factories() -> Seq<Seq<char>> {
    seq![
        "vah264dec"@,
        "vaapih264dec"@,
        "vavp9dec"@,
        "vaav1dec"@,
        "avdec_h264"@,
        "avdec_h265"@,
        "openh264dec"@,
    ]
}

pub open spec fn video_codecs() -> Seq<Seq<char>> {
    seq!["h264"@, "h265"@, "hevc"@, "vp8"@, "vp9"@, "av1"@, "mpeg2"@, "mpeg4"@, "theora"@]
}

/// A factory counts as a video decoder when it is a known one, or when it
/// looks like a decoder (`...dec` or `avdec_...`) and names a video codec;
/// audio decoders such as `avdec_aac` do not count.
pub open spec fn is_video_decoder_name(name: Seq<char>) -> bool {
    ||| factories().contains(name)
    ||| (has_suffix(name, "dec"@) || has_prefix(name, "avdec_"@)) && exists|i: int|
        0 <= i < video_codecs().len() && contains(name, #[trigger] video_codecs()[i])
}

fn eq_lit(s: &[char], lit: &str) -> (r: bool)
    ensures
        r == (s@ == lit@),
{
    eq_chars(s, to_chars(lit).as_slice())
}

fn is_factory(name: &[char]) -> (r: bool)
    ensures
        r == factories().contains(name@),
{
    let r = eq_lit(name, "vah264dec") || eq_lit(name, "vaapih264dec") || eq_lit(name, "vavp9dec")
        || eq_lit(name, "vaav1dec") || eq_lit(name, "avdec_h264") || eq_lit(name, "avdec_h265")
        || eq_lit(name, "openh264dec");
    proof {
        let f = factories();
        assert(f[0] == "vah264dec"@ && f[1] == "vaapih264dec"@ && f[2] == "vavp9dec"@ && f[3]
            == "vaav1dec"@ && f[4] == "avdec_h264"@ && f[5] == "avdec_h265"@ && f[6] == "openh264dec"@);
        if f.contains(name@) {
            let i = choose|i: int| 0 <= i < f.len() && f[i] == name@;
            assert(0 <= i < 7);
        }
    }
    r
}

fn names_video_codec(name: &[char]) -> (r: bool)
    ensures
        r == exists|i: int| 0 <= i < video_codecs().len() && contains(name@, #[trigger] video_codecs()[i]),
{
    let r = contains_lit(name, "h264") || contains_lit(name, "h265") || contains_lit(name, "hevc")
        || contains_lit(name, "vp8") || contains_lit(name, "vp9") || contains_lit(name, "av1")
        || contains_lit(name, "mpeg2") || contains_lit(name, "mpeg4") || contains_lit(name, "theora");
    proof {
        let c = video_codecs();
        assert(c[0] == "h264"@ && c[1] == "h265"@ && c[2] == "hevc"@ && c[3] == "vp8"@ && c[4]
            == "vp9"@ && c[5] == "av1"@ && c[6] == "mpeg2"@ && c[7] == "mpeg4"@ && c[8] == "theora"@);
        if exists|i: int| 0 <= i < c.len() && contains(name@, #[trigger] c[i]) {
            let i = choose|i: int| 0 <= i < c.len() && contains(name@, #[trigger] c[i]);
            assert(0 <= i < 9);
        }
    }
    r
}

fn is_video_decoder(name: &[char]) -> (r: bool)
    ensures
        r == is_video_decoder_name(name@),
{
    is_factory(name) || ((ends_with(name, to_chars("dec").as_slice()) || starts_with(
        name,
        to_chars("avdec_").as_slice(),
    )) && names_video_codec(name))
}

/// The text GStreamer writes before the name of each element factory it uses.
pub open spec fn mark() -> Seq<char> {
    "creating element \""@
}

/// The factory named by a `creating element "<factory>"` mention at `i`.
pub open spec fn factory_at(t: Seq<char>, i: int) -> Option<Seq<char>> {
    if occurs_at(t, mark(), i) {
        let rest = t.skip(i + mark().len());
        match first_index(rest, '"') {
            Some(j) => Some(rest.take(j)),
            None => None,
        }
    } else {
        None
    }
}

/// The video decoder created at `i`, if that mention names one.
pub open spec fn decoder_at(t: Seq<char>, i: int) -> Option<Seq<char>> {
    match factory_at(t, i) {
        Some(n) => if is_video_decoder_name(n) {
            Some(n)
        } else {
            None
        },
        None => None,
    }
}

/// The last video decoder the pipeline created, from GStreamer's
/// `creating element "<factory>"` lines.
pub open spec fn last_created(t: Seq<char>, r: Option<Seq<char>>) -> bool {
    match r {
        Some(n) => exists|i: int| #[trigger] decoder_at(t, i) == Some(n) && forall|j: int|
            i < j ==> (#[trigger] decoder_at(t, j)) is None,
        None => forall|j: int| (#[trigger] decoder_at(t, j)) is None,
    }
}

proof fn lemma_no_mention(t: Seq<char>, j: int)
    requires
        !occurs_at(t, mark(), j),
    ensures
        decoder_at(t, j) is None,
{
}

fn last_created_decoder(text: &[char]) -> (r: Option<Vec<char>>)
    ensures
        last_created(text@, match r {
            Some(v) => Some(v@),
            None => None,
        }),
{
    let m = to_chars("creating element \"");
    let n = text.len();
    let mut pos: usize = 0;
    let mut last: Option<Vec<char>> = None;
    let ghost mut last_at: int = 0;
    let mut done = false;
    proof {
        reveal_strlit("creating element \"");
    }
    while !done
        invariant
            m@ == mark(),
            m@.len() > 0,
            pos <= n,
            done ==> forall|j: int| pos <= j ==> (#[trigger] decoder_at(text@, j)) is None,
            n == text@.len(),
            match last {
                Some(v) => last_at < pos && decoder_at(text@, last_at) == Some(v@) && forall|j: int|
                    last_at < j < pos ==> (#[trigger] decoder_at(text@, j)) is None,
                None => forall|j: int| j < pos ==> (#[trigger] decoder_at(text@, j)) is None,
            },
        decreases (if done {
            0int
        } else {
            n + 2 - pos
        }),
    {
        match find_from(text, m.as_slice(), pos) {
            None => {
                assert forall|j: int| pos <= j implies (#[trigger] decoder_at(text@, j)) is None by {
                    lemma_no_mention(text@, j);
                }
                done = true;
            },
            Some(i) => {
                assert forall|j: int| pos <= j < i implies (#[trigger] decoder_at(text@, j)) is None by {
                    lemma_no_mention(text@, j);
                }
                let from = i + m.len();
                let found = find_char_from(text, '"', from);
                match found {
                    Some(k) => {
                        let name = subrange(text, from, k);
                        assert(name@ == text@.skip(from as int).take(k - from));
                        if is_video_decoder(name.as_slice()) {
                            last = Some(name);
                            proof {
                                last_at = i as int;
                            }
                        }
                    },
                    None => {},
                }
                pos = i + 1;
            },
        }
    }
    last
}

/// The last recognised factory that the text mentions at all, preferring
/// later entries of `factories()`.
pub open spec fn mentioned_factory(t: Seq<char>) -> Option<Seq<char>> {
    let f = factories();
    if contains(t, f[6]) {
        Some(f[6])
    } else if contains(t, f[5]) {
        Some(f[5])
    } else if contains(t, f[4]) {
        Some(f[4])
    } else if contains(t, f[3]) {
        Some(f[3])
    } else if contains(t, f[2]) {
        Some(f[2])
    } else if contains(t, f[1]) {
        Some(f[1])
    } else if contains(t, f[0]) {
        Some(f[0])
    } else {
        None
    }
}

fn mentioned(text: &[char]) -> (r: Option<&'static str>)
    ensures
        opt_text(r) == mentioned_factory(text@),
{
    if contains_lit(text, "openh264dec") {
        Some("openh264dec")
    } else if contains_lit(text, "avdec_h265") {
        Some("avdec_h265")
    } else if contains_lit(text, "avdec_h264") {
        Some("avdec_h264")
    } else if contains_lit(text, "vaav1dec") {
        Some("vaav1dec")
    } else if contains_lit(text, "vavp9dec") {
        Some("vavp9dec")
    } else if contains_lit(text, "vaapih264dec") {
        Some("vaapih264dec")
    } else if contains_lit(text, "vah264dec") {
        Some("vah264dec")
    } else {
        None
    }
}

/// The record of a decoder seen in the diagnostics.
pub open spec fn decode_view_of(name: Seq<char>) -> RecordView {
    let state = classified(name);
    record_view(
        "playback_decode"@,
        state,
        Some(name),
        if state == AccelerationState::Active && has_prefix(name, "va"@) {
            Some("VA-API"@)
        } else {
            None
        },
        None,
        if state == AccelerationState::Unknown {
            Some("Unrecognized decoder factory"@)
        } else {
            None
        },
    )
}

pub open spec fn render_view_of(t: Seq<char>) -> RecordView {
    if contains(lower(t), "dmabuf"@) {
        record_view("playback_render"@, AccelerationState::Active, Some("DMA-BUF"@), Some("DMA-BUF"@), None, None)
    } else {
        unknown_render_view()
    }
}

fn decode_record(name: &[char]) -> (r: AccelerationRecord)
    ensures
        r@ == decode_view_of(name@),
{
    let s = string_from_chars(name);
    let state = classify_decoder(s.as_str());
    let api = if state == AccelerationState::Active && starts_with(name, to_chars("va").as_slice()) {
        Some("VA-API")
    } else {
        None
    };
    let reason = if state == AccelerationState::Unknown {
        Some("Unrecognized decoder factory")
    } else {
        None
    };
    AccelerationRecord {
        component: String::from_str("playback_decode"),
        state,
        implementation: Some(s),
        api: opt_owned(api),
        device: None,
        reason: opt_owned(reason),
    }
}

/// The last video decoder the diagnostics show being created, if any.
pub open spec fn created_decoder(t: Seq<char>) -> Option<Seq<char>> {
    if exists|n: Seq<char>| last_created(t, Some(n)) {
        Some(choose|n: Seq<char>| last_created(t, Some(n)))
    } else {
        None
    }
}

/// The playback decoder: the last one created, else the last known factory
/// that the text mentions.
pub open spec fn playback_decoder(t: Seq<char>) -> Option<Seq<char>> {
    match created_decoder(t) {
        Some(n) => Some(n),
        None => mentioned_factory(t),
    }
}

/// Playback acceleration judged from GStreamer diagnostics: the decoder is
/// the last video decoder the pipeline created, or failing that the last
/// known factory the text mentions; rendering is active when DMA-BUF shows up.
pub fn playback_from_diagnostics(text: &str) -> (r: Vec<AccelerationRecord>)
    ensures
        records_view(r@) == seq![
            match playback_decoder(text@) {
                Some(name) => decode_view_of(name),
                None => unknown_decode_view(),
            },
            render_view_of(text@),
        ],
{
    let t = to_chars(text);
    let created = last_created_decoder(t.as_slice());
    let decode = match created {
        Some(name) => {
            proof {
                lemma_last_created_unique(t@, name@);
            }
            decode_record(name.as_slice())
        },
        None => {
            proof {
                lemma_last_created_none(t@);
            }
            match mentioned(t.as_slice()) {
                Some(name) => decode_record(to_chars(name).as_slice()),
                None => unknown_decode(),
            }
        },
    };
    let l = lower_chars(t.as_slice());
    let render = if contains_lit(l.as_slice(), "dmabuf") {
        record("playback_render", AccelerationState::Active, Some("DMA-BUF"), Some("DMA-BUF"), None, None)
    } else {
        unknown_render()
    };
    let mut v: Vec<AccelerationRecord> = Vec::new();
    v.push(decode);
    v.push(render);
    assert(records_view(v@) =~= seq![decode@, render@]);
    v
}

/// A decoder created at `i` is named in the text right there.
proof fn lemma_created_is_named(t: Seq<char>, i: int, n: Seq<char>)
    requires
        decoder_at(t, i) == Some(n),
    ensures
        contains(t, n),
{
    let m = mark();
    let rest = t.skip(i + m.len());
    lemma_first_index_bounds(rest, '"');
    let j = first_index(rest, '"')->0;
    assert(t.subrange(i + m.len(), i + m.len() + j) =~= rest.take(j));
    assert(occurs_at(t, n, i + m.len()));
}

/// The playback decoder reported is one the diagnostics name. Without one
/// the record is the unknown one; otherwise the name occurs in the text, its
/// state is the name's classification (never `Available` or `Failed`), no
/// device is claimed, VA-API is named exactly for an active `va…` decoder,
/// and a reason is given exactly for an unrecognised one.
pub proof fn playback_decode_follows_the_diagnostics(t: Seq<char>)
    ensures
        ({
            let d = match playback_decoder(t) {
                Some(n) => decode_view_of(n),
                None => unknown_decode_view(),
            };
            &&& d.implementation is None ==> d == unknown_decode_view()
            &&& d.implementation matches Some(n) ==> {
                &&& contains(t, n)
                &&& d.state == classified(n)
                &&& d.device is None
                &&& (d.api == Some("VA-API"@) <==> (d.state == AccelerationState::Active && has_prefix(
                    n,
                    "va"@,
                )))
                &&& (d.reason is Some <==> d.state == AccelerationState::Unknown)
            }
            &&& d.state != AccelerationState::Available && d.state != AccelerationState::Failed
        }),
{
    match created_decoder(t) {
        Some(n) => {
            let i = choose|i: int| #[trigger] decoder_at(t, i) == Some(n) && forall|j: int|
                i < j ==> (#[trigger] decoder_at(t, j)) is None;
            lemma_created_is_named(t, i, n);
        },
        None => {},
    }
}

proof fn lemma_last_created_unique(t: Seq<char>, n: Seq<char>)
    requires
        last_created(t, Some(n)),
    ensures
        exists|m: Seq<char>| last_created(t, Some(m)),
        (choose|m: Seq<char>| last_created(t, Some(m))) == n,
{
    let m = choose|m: Seq<char>| last_created(t, Some(m));
    let i = choose|i: int| #[trigger] decoder_at(t, i) == Some(n) && forall|j: int|
        i < j ==> (#[trigger] decoder_at(t, j)) is None;
    let k = choose|k: int| #[trigger] decoder_at(t, k) == Some(m) && forall|j: int|
        k < j ==> (#[trigger] decoder_at(t, j)) is None;
    if i < k {
        assert(decoder_at(t, k) is None);
    } else if k < i {
        assert(decoder_at(t, i) is None);
    }
}

proof fn lemma_last_created_none(t: Seq<char>)
    requires
        last_created(t, None),
    ensures
        !exists|m: Seq<char>| last_created(t, Some(m)),
{
    if exists|m: Seq<char>| last_created(t, Some(m)) {
        let m = choose|m: Seq<char>| last_created(t, Some(m));
        let k = choose|k: int| #[trigger] decoder_at(t, k) == Some(m) && forall|j: int|
            k < j ==> (#[trigger] decoder_at(t, j)) is None;
        assert(decoder_at(t, k) is None);
    }
}

} // verus!
