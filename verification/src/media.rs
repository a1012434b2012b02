use vstd::prelude::*;

use crate::error::AppError;
use crate::paths::{opt_view, path_extension, path_extension_of};
use crate::text::{
    char_vecs, decimal, eq_chars, lemma_decimal_len, zero_padded, lower, lower_chars, push_decimal, push_str, seconds_string,
    seconds_text, find_char, first_index, has_prefix, lemma_first_index, lemma_first_index_bounds, lines, lines_of,
    pieces, pieces_of, string_from_chars, subrange, to_chars,
};

verus! {

// ---------------------------------------------------------------------------
// Input files
// ---------------------------------------------------------------------------

/// Only `.mp4` inputs (any ASCII case) are accepted, before the file is looked at.
pub fn check_input_extension(raw: &str) -> (r: Result<(), AppError>)
    ensures
        (path_extension_of(raw@) matches Some(e) && lower(e) == "mp4"@) ==> r is Ok,
        !(path_extension_of(raw@) matches Some(e) && lower(e) == "mp4"@) ==> (r matches Err(
            AppError::UnsupportedInput(m),
        ) && m@ == raw@),
{
    let ok = match path_extension(raw) {
        Some(e) => eq_chars(lower_chars(to_chars(e.as_str()).as_slice()).as_slice(), to_chars("mp4").as_slice()),
        None => false,
    };
    if ok {
        Ok(())
    } else {
        Err(AppError::UnsupportedInput(String::from_str(raw)))
    }
}

// ---------------------------------------------------------------------------
// The loaded media
// ---------------------------------------------------------------------------

/// The files of the media the editor currently shows.
#[derive(Debug, Clone)]
pub struct CurrentMedia {
    pub preview: String,
    pub cache: String,
    pub thumbnails: Vec<String>,
}

/// The current media and the newest load that was asked for.
pub struct MediaState {
    pub current: Option<CurrentMedia>,
    pub latest_load: u64,
}

/// Replaces the current media; returns the cache directory of the media it
/// replaces, which the caller removes.
pub fn replace_current(current: &mut Option<CurrentMedia>, next: CurrentMedia) -> (r: Option<String>)
    ensures
        *final(current) == Some(next),
        opt_view(r) == match *old(current) {
            Some(c) => Some(c.cache@),
            None => None,
        },
{
    let old_media = current.take();
    *current = Some(next);
    match old_media {
        Some(m) => Some(m.cache),
        None => None,
    }
}

/// The newest load after load `load_id` started.
pub open spec fn noted_load(latest: u64, load_id: u64) -> u64 {
    if load_id > latest {
        load_id
    } else {
        latest
    }
}

/// Of two loads, the older one never installs its media, whichever of them
/// started first: once both were noted, only the newer is the latest.
pub proof fn older_load_never_installs(latest: u64, older: u64, newer: u64)
    requires
        older < newer,
    ensures
        noted_load(noted_load(latest, older), newer) != older,
        noted_load(noted_load(latest, newer), older) != older,
{
}

impl MediaState {
    pub fn new() -> (r: Self)
        ensures
            r.current is None,
            r.latest_load == 0,
    {
        MediaState { current: None, latest_load: 0 }
    }

    /// Records that load `load_id` started; the newest id is kept.
    pub fn note_load(&mut self, load_id: u64)
        ensures
            final(self).latest_load == noted_load(old(self).latest_load, load_id),
            final(self).current == old(self).current,
    {
        if load_id > self.latest_load {
            self.latest_load = load_id;
        }
    }

    /// Whether `load_id` is the newest load; an older load drops its files.
    pub fn is_latest(&self, load_id: u64) -> (r: bool)
        ensures
            r == (self.latest_load == load_id),
    {
        self.latest_load == load_id
    }

    /// Installs the media of load `load_id` when it is still the newest;
    /// returns the cache directory that is no longer used, if any: the
    /// replaced media's when installed, else the refused media's own.
    pub fn install(&mut self, load_id: u64, next: CurrentMedia) -> (r: Option<String>)
        ensures
            old(self).latest_load == load_id ==> final(self).current == Some(next) && opt_view(r)
                == match old(self).current {
                Some(c) => Some(c.cache@),
                None => None,
            },
            old(self).latest_load != load_id ==> final(self).current == old(self).current
                && opt_view(r) == Some(next.cache@),
            final(self).latest_load == old(self).latest_load,
    {
        if self.latest_load != load_id {
            return Some(next.cache);
        }
        replace_current(&mut self.current, next)
    }

    /// Forgets the current media; returns its cache directory for removal.
    pub fn release(&mut self) -> (r: Option<String>)
        ensures
            final(self).current is None,
            final(self).latest_load == old(self).latest_load,
            opt_view(r) == match old(self).current {
                Some(c) => Some(c.cache@),
                None => None,
            },
    {
        match self.current.take() {
            Some(m) => Some(m.cache),
            None => None,
        }
    }
}

/// What the preview server can serve: the preview file and the thumbnails
/// by index.
pub trait MediaResolver {
    fn media(&self) -> Option<String>;

    fn thumbnail(&self, index: usize) -> Option<String>;
}

impl MediaResolver for MediaState {
    fn media(&self) -> (r: Option<String>)
        ensures
            opt_view(r) == match self.current {
                Some(c) => Some(c.preview@),
                None => None,
            },
    {
        match &self.current {
            Some(c) => Some(c.preview.clone()),
            None => None,
        }
    }

    fn thumbnail(&self, index: usize) -> (r: Option<String>)
        ensures
            opt_view(r) == match self.current {
                Some(c) => if index < c.thumbnails@.len() {
                    Some(c.thumbnails@[index as int]@)
                } else {
                    None
                },
                None => None,
            },
    {
        match &self.current {
            Some(c) => {
                if index < c.thumbnails.len() {
                    Some(c.thumbnails[index].clone())
                } else {
                    None
                }
            },
            None => None,
        }
    }
}

// ---------------------------------------------------------------------------
// Inspection
// ---------------------------------------------------------------------------

/// The steps of inspecting an input, in the order the editor lists them.
#[derive(Debug, Clone, Copy, PartialEq, Eq, Structural)]
pub enum InspectStep {
    Probe,
    Keyframes,
    Preview,
    Thumbnails,
}

pub open spec fn step_label_text(step: InspectStep) -> Seq<char> {
    match step {
        InspectStep::Probe => "Reading container"@,
        InspectStep::Keyframes => "Indexing keyframes"@,
        InspectStep::Preview => "Building preview"@,
        InspectStep::Thumbnails => "Building thumbnails"@,
    }
}

/// The name the editor shows for a step.
pub fn step_label(step: InspectStep) -> (r: &'static str)
    ensures
        r@ == step_label_text(step),
{
    match step {
        InspectStep::Probe => "Reading container",
        InspectStep::Keyframes => "Indexing keyframes",
        InspectStep::Preview => "Building preview",
        InspectStep::Thumbnails => "Building thumbnails",
    }
}

/// The progress, in thousandths, when a step starts: the probe weighs 0.1,
/// keyframes 0.2, the preview 0.5 and the thumbnails 0.2.
pub fn step_progress_permille(step: InspectStep) -> (p: u32)
    ensures
        p == match step {
            InspectStep::Probe => 0u32,
            InspectStep::Keyframes => 100u32,
            InspectStep::Preview => 300u32,
            InspectStep::Thumbnails => 800u32,
        },
{
    match step {
        InspectStep::Probe => 0,
        InspectStep::Keyframes => 100,
        InspectStep::Preview => 300,
        InspectStep::Thumbnails => 800,
    }
}

/// The progress once thumbnail `i` of `count` is written, as the exact
/// fraction `numerator / denominator` = 0.8 + 0.2 · (i + 1) / count: the
/// thumbnail step advances per written file.
pub fn thumbnail_progress(i: u32, count: u32) -> (r: (u64, u64))
    requires
        i < count,
    ensures
        r.0 == 800 * count + 200 * (i + 1),
        r.1 == 1000 * count,
        r.1 > 0,
        800 * r.1 < 1000 * r.0 <= 1000 * r.1,
{
    proof {
        assert(1000 * (800 * count + 200 * (i + 1)) <= 1000 * (1000 * count)) by (nonlinear_arith)
            requires
                i < count,
        {
        }
        assert(800 * (1000 * count) < 1000 * (800 * count + 200 * (i + 1))) by (nonlinear_arith)
            requires
                i < count,
        {
        }
    }
    (800 * count as u64 + 200 * (i as u64 + 1), 1000 * count as u64)
}

/// The steps that run after the probe, in order: all of them when the probe
/// succeeded, none when it failed.
pub fn steps_after_probe(probe_ok: bool) -> (r: Vec<InspectStep>)
    ensures
        r@ == if probe_ok {
            seq![InspectStep::Keyframes, InspectStep::Preview, InspectStep::Thumbnails]
        } else {
            Seq::<InspectStep>::empty()
        },
{
    let mut v: Vec<InspectStep> = Vec::new();
    if probe_ok {
        v.push(InspectStep::Keyframes);
        v.push(InspectStep::Preview);
        v.push(InspectStep::Thumbnails);
    }
    assert(v@ =~= if probe_ok {
        seq![InspectStep::Keyframes, InspectStep::Preview, InspectStep::Thumbnails]
    } else {
        Seq::<InspectStep>::empty()
    });
    v
}

/// What an inspection yields once every step ran: the probed metadata, the
/// keyframe index, the file to preview, the thumbnails, and the warning of a
/// thumbnail failure.
pub struct InspectOutcome<M> {
    pub metadata: M,
    pub keyframes: Vec<u64>,
    pub preview: String,
    pub thumbnails: Vec<String>,
    pub warning: Option<String>,
}

pub open spec fn strings_of(v: Seq<String>) -> Seq<Seq<char>> {
    v.map_values(|s: String| s@)
}

/// Combines the results of the steps. Only a failed probe is fatal; a
/// missing keyframe index is empty, a failed preview serves the input
/// itself, and failed thumbnails leave none and a warning, so a thumbnail
/// failure never makes a playable video unusable.
pub fn inspect_outcome<M>(
    probe: Result<M, AppError>,
    keyframes: Result<Vec<u64>, String>,
    preview: Result<String, String>,
    canonical: &str,
    thumbnails: Result<Vec<String>, String>,
) -> (r: Result<InspectOutcome<M>, AppError>)
    ensures
        probe matches Err(e) ==> r == Err::<InspectOutcome<M>, AppError>(e),
        probe matches Ok(m) ==> (r matches Ok(o) && o.metadata == m && o.keyframes@ == match keyframes {
            Ok(k) => k@,
            Err(_) => Seq::<u64>::empty(),
        } && o.preview@ == match preview {
            Ok(p) => p@,
            Err(_) => canonical@,
        } && strings_of(o.thumbnails@) == match thumbnails {
            Ok(t) => strings_of(t@),
            Err(_) => Seq::<Seq<char>>::empty(),
        } && (o.warning is Some <==> thumbnails is Err) && (thumbnails matches Err(w) ==> o.warning
            == Some(w))),
{
    let metadata = match probe {
        Err(e) => {
            return Err(e);
        },
        Ok(m) => m,
    };
    let keyframes = match keyframes {
        Ok(k) => k,
        Err(_) => Vec::new(),
    };
    let preview = match preview {
        Ok(p) => p,
        Err(_) => String::from_str(canonical),
    };
    let (thumbnails, warning) = match thumbnails {
        Ok(t) => (t, None),
        Err(w) => (Vec::new(), Some(w)),
    };
    proof {
        assert(strings_of(Seq::<String>::empty()) =~= Seq::<Seq<char>>::empty());
    }
    Ok(InspectOutcome { metadata, keyframes, preview, thumbnails, warning })
}

/// One thumbnail written during inspection.
#[derive(Debug, Clone, PartialEq, Eq)]
pub struct InspectThumbnail {
    pub load_id: u64,
    pub index: usize,
    pub count: usize,
    pub path: String,
}

// ---------------------------------------------------------------------------
// Keyframes
// ---------------------------------------------------------------------------

pub open spec fn nondecreasing(s: Seq<u64>) -> bool {
    forall|i: int, j: int| 0 <= i <= j < s.len() ==> s[i] <= s[j]
}

pub open spec fn strictly_increasing(s: Seq<u64>) -> bool {
    forall|i: int, j: int| 0 <= i < j < s.len() ==> s[i] < s[j]
}

/// Latest keyframe at or before `start` (the first keyframe when `start`
/// precedes it); `None` when the index is empty.
pub fn keyframe_at_or_before(keyframes: &[u64], start: u64) -> (r: Option<u64>)
    requires
        nondecreasing(keyframes@),
    ensures
        r is None <==> keyframes@.len() == 0,
        r matches Some(v) ==> keyframes@.contains(v),
        r matches Some(v) ==> (keyframes@[0] > start ==> v == keyframes@[0]),
        r matches Some(v) ==> (keyframes@[0] <= start ==> v <= start && forall|i: int|
            0 <= i < keyframes@.len() && keyframes@[i] <= start ==> keyframes@[i] <= v),
{
    let n = keyframes.len();
    // partition point: the number of keyframes at or before `start`
    let mut lo: usize = 0;
    let mut hi: usize = n;
    while lo < hi
        invariant
            n == keyframes@.len(),
            nondecreasing(keyframes@),
            lo <= hi <= n,
            forall|i: int| 0 <= i < lo ==> keyframes@[i] <= start,
            forall|i: int| hi <= i < n ==> keyframes@[i] > start,
        decreases hi - lo,
    {
        let mid = lo + (hi - lo) / 2;
        if keyframes[mid] <= start {
            lo = mid + 1;
        } else {
            hi = mid;
        }
    }
    if lo == 0 {
        if n == 0 {
            None
        } else {
            Some(keyframes[0])
        }
    } else {
        let v = keyframes[lo - 1];
        assert(keyframes@[lo - 1] == v);
        Some(v)
    }
}

/// The position after the last element of `out` that is at most `t`.
fn insertion_point(out: &Vec<u64>, t: u64) -> (j: usize)
    requires
        strictly_increasing(out@),
    ensures
        j <= out@.len(),
        forall|k: int| j <= k < out@.len() ==> out@[k] > t,
        j > 0 ==> out@[j - 1] <= t,
{
    let mut j: usize = out.len();
    while j > 0 && out[j - 1] > t
        invariant
            j <= out@.len(),
            forall|k: int| j <= k < out@.len() ==> out@[k] > t,
        decreases j,
    {
        j = j - 1;
    }
    j
}

/// The keyframe times ascending and without repeats.
pub fn ascending_unique(times: &[u64]) -> (r: Vec<u64>)
    ensures
        strictly_increasing(r@),
        forall|x: u64| r@.contains(x) <==> times@.contains(x),
{
    let n = times.len();
    let mut out: Vec<u64> = Vec::new();
    let mut i: usize = 0;
    while i < n
        invariant
            n == times@.len(),
            i <= n,
            strictly_increasing(out@),
            forall|x: u64| out@.contains(x) <==> times@.take(i as int).contains(x),
        decreases n - i,
    {
        let t = times[i];
        let ghost prev = out@;
        // find the insertion point scanning from the end (input is mostly ascending)
        let j = insertion_point(&out, t);
        if j > 0 && out[j - 1] == t {
            assert(prev[j - 1] == t);
            assert(prev.contains(t));
            assert forall|x: u64| out@.contains(x) <==> (prev.contains(x) || x == t) by {}
        } else {
            out.insert(j, t);
            assert forall|a: int, b: int| 0 <= a < b < out@.len() implies out@[a] < out@[b] by {
                if b < j {
                } else if a < j && b == j {
                    assert(out@[a] <= prev[j - 1]);
                } else if a < j {
                    assert(prev[a] < prev[b - 1]);
                } else if a == j {
                    assert(prev[b - 1] > t);
                } else {
                    assert(prev[a - 1] < prev[b - 1]);
                }
            }
            assert forall|x: u64| out@.contains(x) <==> (prev.contains(x) || x == t) by {
                if out@.contains(x) {
                    let k = choose|k: int| 0 <= k < out@.len() && out@[k] == x;
                    if k < j {
                        assert(prev[k] == x);
                    } else if k > j {
                        assert(prev[k - 1] == x);
                    }
                }
                if prev.contains(x) {
                    let k = choose|k: int| 0 <= k < prev.len() && prev[k] == x;
                    if k < j {
                        assert(out@[k] == x);
                    } else {
                        assert(out@[k + 1] == x);
                    }
                }
                if x == t {
                    assert(out@[j as int] == t);
                }
            }
        }
        proof {
            let tp = times@.take(i as int);
            let tq = times@.take(i + 1 as int);
            assert(tq == tp.push(t));
            assert forall|x: u64| tq.contains(x) <==> (tp.contains(x) || x == t) by {
                if tq.contains(x) {
                    let k = choose|k: int| 0 <= k < tq.len() && #[trigger] tq[k] == x;
                    if k < i {
                        assert(tp[k] == x);
                    }
                }
                if tp.contains(x) {
                    let k = choose|k: int| 0 <= k < tp.len() && #[trigger] tp[k] == x;
                    assert(tq[k] == x);
                }
                if x == t {
                    assert(tq[i as int] == t);
                }
            }
            assert forall|x: u64| out@.contains(x) <==> tq.contains(x) by {
                assert(out@.contains(x) <==> (prev.contains(x) || x == t));
                assert(prev.contains(x) <==> tp.contains(x));
            }
        }
        i = i + 1;
    }
    assert(times@.take(n as int) == times@);
    out
}

/// The time field of an ffprobe `pts_time,flags` line whose flags mark a
/// keyframe (they start with `K`).
pub open spec fn keyframe_field(l: Seq<char>) -> Option<Seq<char>> {
    match first_index(l, ',') {
        Some(i) => if has_prefix(l.skip(i + 1), seq!['K']) {
            Some(l.take(i))
        } else {
            None
        },
        None => None,
    }
}

pub open spec fn keyframe_fields(ls: Seq<Seq<char>>) -> Seq<Seq<char>>
    decreases ls.len(),
{
    if ls.len() == 0 {
        seq![]
    } else {
        keyframe_fields(ls.drop_last()) + match keyframe_field(ls.last()) {
            Some(p) => seq![p],
            None => Seq::empty(),
        }
    }
}

/// A packet line `<pts>,<flags>` of ffprobe's output gives its time field
/// exactly when its flags start with `K` (a keyframe); other packets and
/// lines without a `,` give nothing; the fields keep the order of the lines.
pub proof fn keyframe_lines(pts: Seq<char>, flags: Seq<char>, ls: Seq<Seq<char>>, l: Seq<char>)
    requires
        !pts.contains(','),
    ensures
        keyframe_field(pts + seq![','] + flags) == if flags.len() > 0 && flags[0] == 'K' {
            Some(pts)
        } else {
            None::<Seq<char>>
        },
        !l.contains(',') ==> keyframe_field(l) is None,
        keyframe_fields(ls.push(l)) == keyframe_fields(ls) + match keyframe_field(l) {
            Some(p) => seq![p],
            None => Seq::<Seq<char>>::empty(),
        },
{
    let line = pts + seq![','] + flags;
    assert forall|j: int| 0 <= j < pts.len() implies line[j] != ',' by {
        assert(line[j] == pts[j]);
        if line[j] == ',' {
            assert(pts.contains(','));
        }
    }
    lemma_first_index(line, ',', pts.len() as int);
    assert(line.take(pts.len() as int) =~= pts);
    assert(line.skip(pts.len() as int + 1) =~= flags);
    if flags.len() > 0 {
        assert(flags.take(1) =~= seq![flags[0]]);
        assert(flags.take(1)[0] == flags[0]);
        if flags[0] == 'K' {
            assert(flags.take(1) =~= seq!['K']);
            assert(has_prefix(flags, seq!['K']));
        } else {
            assert(flags.take(1) != seq!['K']);
            assert(!has_prefix(flags, seq!['K']));
        }
    }
    if !l.contains(',') {
        lemma_first_index_bounds(l, ',');
    }
    assert(ls.push(l).drop_last() =~= ls);
}

/// The keyframe time fields of ffprobe's `packet=pts_time,flags` CSV output,
/// in output order.
pub fn keyframe_times_text(stdout: &str) -> (r: Vec<String>)
    ensures
        r@.map_values(|s: String| s@) == keyframe_fields(lines(stdout@)),
{
    let text = to_chars(stdout);
    let ls = lines_of(text.as_slice());
    let ghost lv = char_vecs(ls@);
    let n = ls.len();
    let mut out: Vec<String> = Vec::new();
    let mut i: usize = 0;
    while i < n
        invariant
            n == ls@.len(),
            lv == char_vecs(ls@),
            i <= n,
            out@.map_values(|s: String| s@) == keyframe_fields(lv.take(i as int)),
        decreases n - i,
    {
        let line = &ls[i];
        assert(lv.take(i + 1 as int).drop_last() == lv.take(i as int));
        assert(lv.take(i + 1 as int).last() == line@);
        let ghost before = out@.map_values(|s: String| s@);
        match find_char(line.as_slice(), ',') {
            Some(k) => {
                proof {
                    lemma_first_index(line@, ',', k as int);
                }
                let len = line.len();
                assert(k < len);
                let next: usize = k + 1;
                if next < line.len() && line[next] == 'K' {
                    proof {
                        assert(line@.skip(k + 1).take(1) == seq!['K']);
                    }
                    let field = subrange(line.as_slice(), 0, k);
                    assert(field@ == line@.take(k as int));
                    out.push(string_from_chars(field.as_slice()));
                    assert(out@.map_values(|s: String| s@) =~= before + seq![field@]);
                } else {
                    proof {
                        if next < line@.len() {
                            assert(line@.skip(k + 1).take(1)[0] == line@[k + 1]);
                        }
                    }
                    assert(!has_prefix(line@.skip(k + 1), seq!['K']));
                    assert(out@.map_values(|s: String| s@) =~= before + Seq::<Seq<char>>::empty());
                }
            },
            None => {
                proof {
                    lemma_first_index(line@, ',', line@.len() as int);
                }
                assert(out@.map_values(|s: String| s@) =~= before + Seq::<Seq<char>>::empty());
            },
        }
        i = i + 1;
    }
    assert(lv.take(n as int) == lv);
    out
}

// ---------------------------------------------------------------------------
// Probe results
// ---------------------------------------------------------------------------

/// Whether ffprobe's comma-separated format name lists `mov` or `mp4`.
pub open spec fn is_mp4_container(format_name: Seq<char>) -> bool {
    exists|i: int| 0 <= i < pieces(format_name, ',').len() && (#[trigger] pieces(format_name, ',')[i]
        == "mov"@ || pieces(format_name, ',')[i] == "mp4"@)
}

pub open spec fn first_of_type(types: Seq<Option<Seq<char>>>, t: Seq<char>) -> Option<int>
    decreases types.len(),
{
    if types.len() == 0 {
        None
    } else if types[0] == Some(t) {
        Some(0)
    } else {
        match first_of_type(types.drop_first(), t) {
            Some(i) => Some(i + 1),
            None => None,
        }
    }
}

proof fn lemma_first_of_type(types: Seq<Option<Seq<char>>>, t: Seq<char>, i: int)
    requires
        0 <= i <= types.len(),
        forall|j: int| 0 <= j < i ==> types[j] != Some(t),
        i == types.len() || types[i] == Some(t),
    ensures
        first_of_type(types, t) == (if i < types.len() {
            Some(i)
        } else {
            None::<int>
        }),
    decreases types.len(),
{
    if types.len() > 0 && i > 0 {
        lemma_first_of_type(types.drop_first(), t, i - 1);
    }
}

/// `first_of_type` gives the position of the first stream of type `t` in
/// the whole list, or none when no stream has that type.
pub proof fn first_of_type_is_the_first(types: Seq<Option<Seq<char>>>, t: Seq<char>)
    ensures
        first_of_type(types, t) matches Some(i) ==> 0 <= i < types.len() && types[i] == Some(t)
            && forall|j: int| 0 <= j < i ==> types[j] != Some(t),
        first_of_type(types, t) is None <==> forall|j: int| 0 <= j < types.len() ==> types[j] != Some(t),
    decreases types.len(),
{
    if types.len() > 0 {
        first_of_type_is_the_first(types.drop_first(), t);
        if types[0] != Some(t) {
            assert forall|j: int| 0 < j < types.len() implies types[j] == types.drop_first()[j - 1] by {}
        }
    }
}

/// A probe of a report with a video stream finds the first video stream and
/// the first audio stream of the whole list, wherever the video stream is:
/// the audio index is there exactly when some stream is audio.
pub proof fn probe_finds_first_video_and_first_audio(
    format_name: Option<Seq<char>>,
    require_mp4: bool,
    types: Seq<Option<Seq<char>>>,
)
    ensures
        probe_streams(format_name, require_mp4, types) matches Ok((v, a)) ==> {
            &&& 0 <= v < types.len() && types[v] == Some("video"@)
            &&& forall|j: int| 0 <= j < v ==> types[j] != Some("video"@)
            &&& (a is Some <==> exists|i: int| 0 <= i < types.len() && types[i] == Some("audio"@))
            &&& a matches Some(i) ==> 0 <= i < types.len() && types[i] == Some("audio"@) && forall|j: int|
                0 <= j < i ==> types[j] != Some("audio"@)
        },
        (exists|i: int| 0 <= i < types.len() && types[i] == Some("video"@)) && !(require_mp4
            && !is_mp4_container(match format_name {
            Some(n) => n,
            None => Seq::empty(),
        })) ==> probe_streams(format_name, require_mp4, types) is Ok,
{
    first_of_type_is_the_first(types, "video"@);
    first_of_type_is_the_first(types, "audio"@);
}

pub open spec fn stream_types(types: Seq<Option<String>>) -> Seq<Option<Seq<char>>> {
    types.map_values(|o: Option<String>| opt_view(o))
}

/// What an ffprobe report decides before its numbers are read: an MP4 is
/// required to be recognised as `mov`/`mp4` when `require_mp4`, a video
/// stream must exist; the result is the first video stream and the first
/// audio stream, by position.
pub open spec fn probe_streams(
    format_name: Option<Seq<char>>,
    require_mp4: bool,
    types: Seq<Option<Seq<char>>>,
) -> Result<(int, Option<int>), AppError> {
    let name = match format_name {
        Some(n) => n,
        None => Seq::empty(),
    };
    if require_mp4 && !is_mp4_container(name) {
        Err(AppError::Probe(arbitrary()))
    } else {
        match first_of_type(types, "video"@) {
            None => Err(AppError::NoVideo),
            Some(v) => Ok((v, first_of_type(types, "audio"@))),
        }
    }
}

fn first_stream(types: &Vec<Option<String>>, t: &str) -> (r: Option<usize>)
    ensures
        match r {
            Some(i) => first_of_type(stream_types(types@), t@) == Some(i as int),
            None => first_of_type(stream_types(types@), t@) is None,
        },
{
    let tc = to_chars(t);
    let n = types.len();
    let ghost tv = stream_types(types@);
    let mut i: usize = 0;
    while i < n
        invariant
            n == types@.len(),
            tv == stream_types(types@),
            tc@ == t@,
            i <= n,
            forall|j: int| 0 <= j < i ==> tv[j] != Some(t@),
        decreases n - i,
    {
        let hit = match &types[i] {
            Some(s) => eq_chars(to_chars(s.as_str()).as_slice(), tc.as_slice()),
            None => false,
        };
        if hit {
            proof {
                lemma_first_of_type(tv, t@, i as int);
            }
            return Some(i);
        }
        i = i + 1;
    }
    proof {
        lemma_first_of_type(tv, t@, n as int);
    }
    None
}

fn is_mp4_name(format_name: &[char]) -> (r: bool)
    ensures
        r == is_mp4_container(format_name@),
{
    let ps = pieces_of(format_name, ',');
    let ghost pv = char_vecs(ps@);
    let mov = to_chars("mov");
    let mp4 = to_chars("mp4");
    let n = ps.len();
    let mut i: usize = 0;
    while i < n
        invariant
            n == ps@.len(),
            pv == char_vecs(ps@),
            pv == pieces(format_name@, ','),
            mov@ == "mov"@,
            mp4@ == "mp4"@,
            i <= n,
            forall|j: int| 0 <= j < i ==> !(pv[j] == "mov"@ || pv[j] == "mp4"@),
        decreases n - i,
    {
        if eq_chars(ps[i].as_slice(), mov.as_slice()) || eq_chars(ps[i].as_slice(), mp4.as_slice()) {
            assert(pv[i as int] == ps@[i as int]@);
            return true;
        }
        i = i + 1;
    }
    false
}

/// Checks a parsed ffprobe report: the container (when an MP4 is required)
/// and the presence of a video stream. Gives the positions of the first
/// video and the first audio stream.
pub fn check_probe(format_name: Option<&str>, require_mp4: bool, codec_types: &Vec<Option<String>>) -> (r: Result<(usize, Option<usize>), AppError>)
    ensures
        match (r, probe_streams(
            match format_name {
                Some(n) => Some(n@),
                None => None,
            },
            require_mp4,
            stream_types(codec_types@),
        )) {
            (Ok((v, a)), Ok((sv, sa))) => v == sv && match a {
                Some(x) => sa == Some(x as int),
                None => sa is None,
            },
            (Err(AppError::Probe(m)), Err(AppError::Probe(_))) => m@ == "container is not recognized as MP4"@,
            (Err(AppError::NoVideo), Err(AppError::NoVideo)) => true,
            _ => false,
        },
        // the first video stream and the first audio stream of the whole list
        r matches Ok((v, a)) ==> {
            &&& v < codec_types@.len() && stream_types(codec_types@)[v as int] == Some("video"@)
            &&& forall|j: int| 0 <= j < v ==> stream_types(codec_types@)[j] != Some("video"@)
            &&& (a is Some <==> exists|i: int|
                0 <= i < codec_types@.len() && stream_types(codec_types@)[i] == Some("audio"@))
            &&& a matches Some(i) ==> i < codec_types@.len() && stream_types(codec_types@)[i as int]
                == Some("audio"@) && forall|j: int| 0 <= j < i ==> stream_types(codec_types@)[j] != Some(
                "audio"@,
            )
        },
{
    proof {
        probe_finds_first_video_and_first_audio(
            match format_name {
                Some(n) => Some(n@),
                None => None,
            },
            require_mp4,
            stream_types(codec_types@),
        );
    }
    if require_mp4 {
        let name = match format_name {
            Some(n) => to_chars(n),
            None => Vec::new(),
        };
        if !is_mp4_name(name.as_slice()) {
            return Err(AppError::Probe(String::from_str("container is not recognized as MP4")));
        }
    }
    match first_stream(codec_types, "video") {
        None => Err(AppError::NoVideo),
        Some(v) => Ok((v, first_stream(codec_types, "audio"))),
    }
}

// ---------------------------------------------------------------------------
// Preview proxy
// ---------------------------------------------------------------------------

/// FFmpeg arguments of the preview proxy: dense keyframes, a leading moov
/// atom and fresh timing, pinned with `-t` to the probed duration so the
/// player's clock agrees with the timeline; audio is copied.
pub open spec fn preview_proxy_args_of(input: Seq<char>, duration_micros: u64, proxy: Seq<char>) -> Seq<Seq<char>> {
    seq!["-hide_banner"@, "-nostdin"@, "-loglevel"@, "error"@, "-t"@, seconds_text(duration_micros as nat), "-i"@, input]
        + seq![
        "-map"@,
        "0:v:0"@,
        "-map"@,
        "0:a?"@,
        "-vf"@,
        "scale=trunc(iw/2)*2:trunc(ih/2)*2"@,
        "-c:v"@,
        "libx264"@,
        "-preset"@,
        "veryfast"@,
        "-crf"@,
        "28"@,
        "-g"@,
        "30"@,
        "-keyint_min"@,
        "30"@,
        "-sc_threshold"@,
        "0"@,
        "-fps_mode"@,
        "vfr"@,
        "-c:a"@,
        "copy"@,
        "-movflags"@,
        "+faststart"@,
        "-y"@,
        proxy,
    ]
}

fn push_all(v: &mut Vec<String>, items: &[&str])
    ensures
        final(v)@.map_values(|s: String| s@) == old(v)@.map_values(|s: String| s@) + items@.map_values(|s: &str| s@),
{
    let n = items.len();
    let mut i: usize = 0;
    while i < n
        invariant
            n == items@.len(),
            i <= n,
            v@.map_values(|s: String| s@) == old(v)@.map_values(|s: String| s@) + items@.take(i as int).map_values(|s: &str| s@),
        decreases n - i,
    {
        let ghost before = v@.map_values(|s: String| s@);
        v.push(String::from_str(items[i]));
        assert(v@.map_values(|s: String| s@) =~= before.push(items@[i as int]@));
        assert(items@.take(i + 1 as int).map_values(|s: &str| s@) =~= items@.take(i as int).map_values(|s: &str| s@).push(items@[i as int]@));
        i = i + 1;
    }
    assert(items@.take(n as int) == items@);
}

/// The preview proxy keeps the sound: its command maps the first video
/// stream and every audio stream of the source, copies the audio unchanged,
/// reads the source and writes the proxy last.
pub proof fn preview_proxy_keeps_audio(input: Seq<char>, duration_micros: u64, proxy: Seq<char>)
    ensures
        ({
            let a = preview_proxy_args_of(input, duration_micros, proxy);
            &&& exists|i: int| 0 <= i && i + 1 < a.len() && #[trigger] a[i] == "-map"@ && a[i + 1] == "0:a?"@
            &&& exists|i: int| 0 <= i && i + 1 < a.len() && #[trigger] a[i] == "-map"@ && a[i + 1] == "0:v:0"@
            &&& exists|i: int| 0 <= i && i + 1 < a.len() && #[trigger] a[i] == "-c:a"@ && a[i + 1] == "copy"@
            &&& exists|i: int| 0 <= i && i + 1 < a.len() && #[trigger] a[i] == "-i"@ && a[i + 1] == input
            &&& a.last() == proxy
        }),
{
    let a = preview_proxy_args_of(input, duration_micros, proxy);
    assert(a[10] == "-map"@ && a[11] == "0:a?"@);
    assert(a[8] == "-map"@ && a[9] == "0:v:0"@);
    assert(a[28] == "-c:a"@ && a[29] == "copy"@);
    assert(a[6] == "-i"@ && a[7] == input);
    assert(a.last() == a[33]);
}

pub fn preview_proxy_args(input: &str, duration_micros: u64, proxy: &str) -> (r: Vec<String>)
    ensures
        r@.map_values(|s: String| s@) == preview_proxy_args_of(input@, duration_micros, proxy@),
        exists|i: int| 0 <= i && i + 1 < r@.len() && #[trigger] r@[i]@ == "-map"@ && r@[i + 1]@ == "0:a?"@,
        exists|i: int| 0 <= i && i + 1 < r@.len() && #[trigger] r@[i]@ == "-c:a"@ && r@[i + 1]@ == "copy"@,
{
    let mut v: Vec<String> = Vec::new();
    let head: [&str; 5] = ["-hide_banner", "-nostdin", "-loglevel", "error", "-t"];
    push_all(&mut v, &head);
    assert(head@.map_values(|s: &str| s@) =~= seq!["-hide_banner"@, "-nostdin"@, "-loglevel"@, "error"@, "-t"@]);
    let ghost a = v@.map_values(|s: String| s@);
    v.push(seconds_string(duration_micros));
    assert(v@.map_values(|s: String| s@) =~= a.push(seconds_text(duration_micros as nat)));
    let tail: [&str; 28] = ["-i", input, "-map", "0:v:0", "-map", "0:a?", "-vf", "scale=trunc(iw/2)*2:trunc(ih/2)*2", "-c:v", "libx264", "-preset", "veryfast", "-crf", "28", "-g", "30", "-keyint_min", "30", "-sc_threshold", "0", "-fps_mode", "vfr", "-c:a", "copy", "-movflags", "+faststart", "-y", proxy];
    let ghost b = v@.map_values(|s: String| s@);
    push_all(&mut v, &tail);
    assert(tail@.map_values(|s: &str| s@) =~= seq!["-i"@, input@] + seq![
        "-map"@, "0:v:0"@, "-map"@, "0:a?"@, "-vf"@, "scale=trunc(iw/2)*2:trunc(ih/2)*2"@, "-c:v"@, "libx264"@, "-preset"@, "veryfast"@, "-crf"@, "28"@, "-g"@, "30"@, "-keyint_min"@, "30"@, "-sc_threshold"@, "0"@, "-fps_mode"@, "vfr"@, "-c:a"@, "copy"@, "-movflags"@, "+faststart"@, "-y"@, proxy@]);
    assert(v@.map_values(|s: String| s@) =~= preview_proxy_args_of(input@, duration_micros, proxy@));
    proof {
        let a = preview_proxy_args_of(input@, duration_micros, proxy@);
        preview_proxy_keeps_audio(input@, duration_micros, proxy@);
        assert(v@[10]@ == a[10] && v@[11]@ == a[11]);
        assert(v@[28]@ == a[28] && v@[29]@ == a[29]);
        assert(a[10] == "-map"@ && a[11] == "0:a?"@);
        assert(a[28] == "-c:a"@ && a[29] == "copy"@);
    }
    v
}

/// The name of the cache directory of load `load_id` of process `pid`.
pub open spec fn preview_dir_name_of(pid: u32, load_id: u64) -> Seq<char> {
    "preview-"@ + decimal(pid as nat) + "-"@ + decimal(load_id as nat)
}

pub fn preview_dir_name(pid: u32, load_id: u64) -> (r: String)
    ensures
        r@ == preview_dir_name_of(pid, load_id),
{
    let mut v: Vec<char> = Vec::new();
    push_str(&mut v, "preview-");
    push_decimal(&mut v, pid as u64);
    push_str(&mut v, "-");
    push_decimal(&mut v, load_id);
    string_from_chars(v.as_slice())
}

// ---------------------------------------------------------------------------
// Thumbnails
// ---------------------------------------------------------------------------

pub const THUMBNAIL_COUNT: u64 = 14;

/// The file name of thumbnail `number`, counted from 1, with at least two digits.
pub open spec fn thumbnail_file_name_of(number: u64) -> Seq<char> {
    "frame-"@ + zero_padded(number as nat, 2) + ".jpg"@
}

pub fn thumbnail_file_name(number: u64) -> (r: String)
    ensures
        r@ == thumbnail_file_name_of(number),
{
    let mut v: Vec<char> = Vec::new();
    push_str(&mut v, "frame-");
    let ghost head = v@;
    if number < 10 {
        v.push('0');
    }
    push_decimal(&mut v, number);
    proof {
        lemma_decimal_len(number as nat);
        if number < 10 {
            assert(decimal(number as nat).len() == 1);
            assert(Seq::new(1, |i: int| '0') =~= seq!['0']);
            assert(v@ =~= head + zero_padded(number as nat, 2));
        } else {
            lemma_decimal_len(number as nat / 10);
            assert(decimal(number as nat).len() >= 2);
            assert(v@ =~= head + zero_padded(number as nat, 2));
        }
    }
    push_str(&mut v, ".jpg");
    string_from_chars(v.as_slice())
}

/// One thumbnail per second of media, at least one and at most fourteen.
pub fn thumbnail_count(duration: u64) -> (r: u64)
    ensures
        r == (if duration / 1_000_000 < 1 {
            1
        } else if duration / 1_000_000 > THUMBNAIL_COUNT {
            THUMBNAIL_COUNT
        } else {
            duration / 1_000_000
        }),
        1 <= r <= THUMBNAIL_COUNT,
{
    let seconds = duration / 1_000_000;
    let at_least_one = if seconds > 1 {
        seconds
    } else {
        1
    };
    if THUMBNAIL_COUNT < at_least_one {
        THUMBNAIL_COUNT
    } else {
        at_least_one
    }
}

} // verus!
