use vstd::prelude::*;
use vstd::utf8::{decode_utf8, valid_utf8};

use crate::paths::{opt_view, path_extension, path_extension_of};
use crate::text::{
    decimal, find_char, is_digit, lemma_decimal_digits, lemma_parse_decimal, first_index, has_prefix, is_ws, is_ws_char, lead_ws, lemma_first_index,
    lines, lines_of, char_vecs, lower, lower_chars, parse_unsigned, parse_unsigned_chars, parse_u64,
    push_decimal, push_str, starts_with, string_from_chars, subrange, to_chars, trim, trim_chars,
    upper, upper_chars, eq_chars,
};

verus! {

// ---------------------------------------------------------------------------
// Byte ranges
// ---------------------------------------------------------------------------

/// What part of a file a `Range` header asks for.
#[derive(Debug, Clone, Copy, PartialEq, Eq, Structural)]
pub enum RangeSpec {
    Full,
    Slice(u64, u64),
    Unsatisfiable,
}

/// The first range of a `bytes=` header: the header trimmed, after its
/// `bytes=` prefix, up to the first `,`, trimmed again; none without the prefix.
pub open spec fn first_range_of(h: Seq<char>) -> Option<Seq<char>> {
    let t = trim(h);
    if !has_prefix(t, "bytes="@) {
        None
    } else {
        let spec = t.skip("bytes="@.len() as int);
        Some(
            trim(
                match first_index(spec, ',') {
                    Some(i) => spec.take(i),
                    None => spec,
                },
            ),
        )
    }
}

/// How a first range is answered for a file of `len` bytes: a suffix range
/// `-n` gives the last `n` bytes; `a-b` and `a-` are clamped to the file;
/// anything unreadable gives the whole file.
pub open spec fn range_of_first(first: Seq<char>, len: u64) -> RangeSpec {
    if has_prefix(first, seq!['-']) {
        match parse_unsigned(first.skip(1), u64::MAX as nat) {
            None => RangeSpec::Full,
            Some(n) => if n == 0 || len == 0 {
                RangeSpec::Unsatisfiable
            } else {
                RangeSpec::Slice(
                    if n <= len {
                        (len - n) as u64
                    } else {
                        0u64
                    },
                    (len - 1) as u64,
                )
            },
        }
    } else {
        match first_index(first, '-') {
            None => RangeSpec::Full,
            Some(i) => match parse_unsigned(first.take(i), u64::MAX as nat) {
                None => RangeSpec::Full,
                Some(start) => if start >= len {
                    RangeSpec::Unsatisfiable
                } else {
                    let asked = match parse_unsigned(first.skip(i + 1), u64::MAX as nat) {
                        Some(e) => e,
                        None => u64::MAX as nat,
                    };
                    let end = if asked < len - 1 {
                        asked
                    } else {
                        (len - 1) as nat
                    };
                    if end < start {
                        RangeSpec::Unsatisfiable
                    } else {
                        RangeSpec::Slice(start as u64, end as u64)
                    }
                },
            },
        }
    }
}

/// The range the preview server answers for a `Range` header: the whole
/// file without a header or without `bytes=`, else its first range.
pub open spec fn range_of(header: Option<Seq<char>>, len: u64) -> RangeSpec {
    match header {
        None => RangeSpec::Full,
        Some(h) => match first_range_of(h) {
            None => RangeSpec::Full,
            Some(first) => range_of_first(first, len),
        },
    }
}

/// Reads the first range of a `Range` header against a file of `len` bytes.
/// Every slice it gives lies inside the file.
/// The digits of `decimal(n)` are neither whitespace, `,` nor `-`.
proof fn lemma_plain_digits(n: nat)
    ensures
        decimal(n).len() >= 1,
        forall|j: int| 0 <= j < decimal(n).len() ==> {
            let c = #[trigger] decimal(n)[j];
            &&& !is_ws(c)
            &&& c != ','
            &&& c != '-'
        },
{
    lemma_decimal_digits(n);
    assert forall|j: int| 0 <= j < decimal(n).len() implies {
        let c = #[trigger] decimal(n)[j];
        &&& !is_ws(c)
        &&& c != ','
        &&& c != '-'
    } by {
        assert(is_digit(decimal(n)[j]));
    }
}

proof fn lemma_form_a_b(a: u64, b: u64, len: u64)
    ensures
        range_of_first(decimal(a as nat) + "-"@ + decimal(b as nat), len) == if a >= len || b < a {
            RangeSpec::Unsatisfiable
        } else {
            RangeSpec::Slice(a, if b < len - 1 { b } else { (len - 1) as u64 })
        },
{
    reveal_strlit("-");
    lemma_plain_digits(a as nat);
    lemma_plain_digits(b as nat);
    lemma_parse_decimal(a as nat, u64::MAX as nat);
    lemma_parse_decimal(b as nat, u64::MAX as nat);
    let da = decimal(a as nat);
    let db = decimal(b as nat);
    let f = da + "-"@ + db;
    assert(!has_prefix(f, seq!['-'])) by {
        assert(f.take(1)[0] == da[0]);
    }
    assert forall|j: int| 0 <= j < da.len() implies f[j] != '-' by {
        assert(f[j] == da[j]);
    }
    lemma_first_index(f, '-', da.len() as int);
    assert(f.take(da.len() as int) =~= da);
    assert(f.skip(da.len() as int + 1) =~= db);
}

proof fn lemma_form_a(a: u64, len: u64)
    ensures
        range_of_first(decimal(a as nat) + "-"@, len) == if a >= len {
            RangeSpec::Unsatisfiable
        } else {
            RangeSpec::Slice(a, (len - 1) as u64)
        },
{
    reveal_strlit("-");
    lemma_plain_digits(a as nat);
    lemma_parse_decimal(a as nat, u64::MAX as nat);
    let da = decimal(a as nat);
    let f = da + "-"@;
    assert(!has_prefix(f, seq!['-'])) by {
        assert(f.take(1)[0] == da[0]);
    }
    assert forall|j: int| 0 <= j < da.len() implies f[j] != '-' by {
        assert(f[j] == da[j]);
    }
    lemma_first_index(f, '-', da.len() as int);
    assert(f.take(da.len() as int) =~= da);
    assert(f.skip(da.len() as int + 1) =~= Seq::<char>::empty());
    assert(parse_unsigned(Seq::<char>::empty(), u64::MAX as nat) is None);
}

proof fn lemma_form_suffix(n: u64, len: u64)
    ensures
        range_of_first("-"@ + decimal(n as nat), len) == if n == 0 || len == 0 {
            RangeSpec::Unsatisfiable
        } else {
            RangeSpec::Slice(if n <= len { (len - n) as u64 } else { 0u64 }, (len - 1) as u64)
        },
{
    reveal_strlit("-");
    lemma_parse_decimal(n as nat, u64::MAX as nat);
    let f = "-"@ + decimal(n as nat);
    assert(f.take(1) =~= seq!['-']);
    assert(f.skip(1) =~= decimal(n as nat));
}

/// The byte ranges the endpoint understands, for a file of `len` bytes and
/// any `Range` header `h` (surrounding whitespace, further comma-separated
/// ranges and all): no header or no `bytes=` gives the whole file; otherwise
/// the first range decides: `a-b` gives bytes `a` to `b` clamped to the file,
/// unless `a` is past the end or `b` precedes `a`; `a-` runs to the end; `-n`
/// gives the last `n` bytes, and nothing for `n = 0` or an empty file.
pub proof fn byte_range_forms(h: Seq<char>, a: u64, b: u64, n: u64, len: u64)
    ensures
        range_of(None, len) == RangeSpec::Full,
        first_range_of(h) is None ==> range_of(Some(h), len) == RangeSpec::Full,
        first_range_of(h) == Some(decimal(a as nat) + "-"@ + decimal(b as nat)) ==> range_of(Some(h), len)
            == if a >= len || b < a {
            RangeSpec::Unsatisfiable
        } else {
            RangeSpec::Slice(a, if b < len - 1 { b } else { (len - 1) as u64 })
        },
        first_range_of(h) == Some(decimal(a as nat) + "-"@) ==> range_of(Some(h), len) == if a >= len {
            RangeSpec::Unsatisfiable
        } else {
            RangeSpec::Slice(a, (len - 1) as u64)
        },
        first_range_of(h) == Some("-"@ + decimal(n as nat)) ==> range_of(Some(h), len) == if n == 0
            || len == 0 {
            RangeSpec::Unsatisfiable
        } else {
            RangeSpec::Slice(if n <= len { (len - n) as u64 } else { 0u64 }, (len - 1) as u64)
        },
{
    lemma_form_a_b(a, b, len);
    lemma_form_a(a, len);
    lemma_form_suffix(n, len);
}

pub fn parse_range(header: Option<&str>, len: u64) -> (r: RangeSpec)
    ensures
        r == range_of(opt_str(header), len),
        r matches RangeSpec::Slice(s, e) ==> s <= e < len,
{
    let h = match header {
        None => {
            return RangeSpec::Full;
        },
        Some(h) => h,
    };
    let t = trim_chars(to_chars(h).as_slice());
    let prefix = to_chars("bytes=");
    if !starts_with(t.as_slice(), prefix.as_slice()) {
        return RangeSpec::Full;
    }
    let spec = subrange(t.as_slice(), prefix.len(), t.len());
    assert(spec@ == t@.skip("bytes="@.len() as int));
    let piece = match find_char(spec.as_slice(), ',') {
        Some(i) => {
            proof {
                lemma_first_index(spec@, ',', i as int);
            }
            subrange(spec.as_slice(), 0, i)
        },
        None => {
            proof {
                lemma_first_index(spec@, ',', spec@.len() as int);
            }
            assert(spec@.subrange(0, spec@.len() as int) == spec@);
            subrange(spec.as_slice(), 0, spec.len())
        },
    };
    assert(piece@ == match first_index(spec@, ',') {
        Some(i) => spec@.take(i),
        None => spec@,
    });
    let first = trim_chars(piece.as_slice());
    if first.len() > 0 && first[0] == '-' {
        assert(first@.take(1) == seq![first@[0]]);
        let suffix = subrange(first.as_slice(), 1, first.len());
        assert(suffix@ == first@.skip(1));
        assert(has_prefix(first@, seq!['-']));
        assert(t@ == trim(h@));
        assert(has_prefix(trim(h@), "bytes="@));
        match parse_u64(suffix.as_slice()) {
            None => {
                return RangeSpec::Full;
            },
            Some(n) => {
                if n == 0 || len == 0 {
                    return RangeSpec::Unsatisfiable;
                }
                return RangeSpec::Slice(len.saturating_sub(n), len - 1);
            },
        }
    }
    assert(!has_prefix(first@, seq!['-'])) by {
        if first@.len() > 0 {
            assert(first@.take(1)[0] == first@[0]);
        }
    }
    assert(t@ == trim(h@));
    let dash = match find_char(first.as_slice(), '-') {
        None => {
            proof {
                lemma_first_index(first@, '-', first@.len() as int);
            }
            return RangeSpec::Full;
        },
        Some(i) => i,
    };
    proof {
        lemma_first_index(first@, '-', dash as int);
    }
    let start_text = subrange(first.as_slice(), 0, dash);
    let end_text = subrange(first.as_slice(), dash + 1, first.len());
    assert(start_text@ == first@.take(dash as int));
    assert(end_text@ == first@.skip(dash + 1));
    let start = match parse_u64(start_text.as_slice()) {
        None => {
            return RangeSpec::Full;
        },
        Some(s) => s,
    };
    if start >= len {
        return RangeSpec::Unsatisfiable;
    }
    let asked = match parse_u64(end_text.as_slice()) {
        Some(e) => e,
        None => u64::MAX,
    };
    let end = if asked < len - 1 {
        asked
    } else {
        len - 1
    };
    if end < start {
        return RangeSpec::Unsatisfiable;
    }
    RangeSpec::Slice(start, end)
}

pub open spec fn opt_str(o: Option<&str>) -> Option<Seq<char>> {
    match o {
        Some(s) => Some(s@),
        None => None,
    }
}

// ---------------------------------------------------------------------------
// Request heads
// ---------------------------------------------------------------------------

pub open spec fn crlf2() -> Seq<u8> {
    seq![13u8, 10u8, 13u8, 10u8]
}

pub open spec fn occurs_bytes_at(buf: Seq<u8>, i: int) -> bool {
    0 <= i && i + 4 <= buf.len() && buf.subrange(i, i + 4) == crlf2()
}

/// The position of the first `\r\n\r\n`, which ends a request head.
pub fn find_header_end(buf: &[u8]) -> (r: Option<usize>)
    ensures
        match r {
            Some(i) => occurs_bytes_at(buf@, i as int) && forall|j: int| 0 <= j < i ==> !occurs_bytes_at(buf@, j),
            None => forall|j: int| !occurs_bytes_at(buf@, j),
        },
{
    let n = buf.len();
    if n < 4 {
        return None;
    }
    let mut i: usize = 0;
    while i < n - 3
        invariant
            n == buf@.len(),
            n >= 4,
            i <= n - 3,
            forall|j: int| 0 <= j < i ==> !occurs_bytes_at(buf@, j),
        decreases n - i,
    {
        if buf[i] == 13 && buf[i + 1] == 10 && buf[i + 2] == 13 && buf[i + 3] == 10 {
            assert(buf@.subrange(i as int, i + 4) =~= crlf2());
            return Some(i);
        }
        assert(!occurs_bytes_at(buf@, i as int)) by {
            if occurs_bytes_at(buf@, i as int) {
                assert(buf@.subrange(i as int, i + 4)[0] == buf@[i as int]);
                assert(buf@.subrange(i as int, i + 4)[1] == buf@[i + 1]);
                assert(buf@.subrange(i as int, i + 4)[2] == buf@[i + 2]);
                assert(buf@.subrange(i as int, i + 4)[3] == buf@[i + 3]);
            }
        }
        i = i + 1;
    }
    None
}

/// The longest request head the server reads before it drops the request.
pub const MAX_HEADER_BYTES: usize = 8 * 1024;

/// What the reader does with the bytes of a request received so far.
#[derive(Debug, Clone, Copy, PartialEq, Eq, Structural)]
pub enum HeadScan {
    /// The head ends at this position.
    Complete(usize),
    /// No end yet: read more.
    NeedMore,
    /// No end within the limit: drop the request.
    TooLarge,
}

/// Decides, after each read, whether the request head is complete, whether
/// to read more, or whether the head is too long.
pub fn scan_request_head(buf: &[u8]) -> (r: HeadScan)
    ensures
        match r {
            HeadScan::Complete(i) => occurs_bytes_at(buf@, i as int) && forall|j: int|
                0 <= j < i ==> !occurs_bytes_at(buf@, j),
            HeadScan::NeedMore => (forall|j: int| !occurs_bytes_at(buf@, j)) && buf@.len()
                <= MAX_HEADER_BYTES,
            HeadScan::TooLarge => (forall|j: int| !occurs_bytes_at(buf@, j)) && buf@.len()
                > MAX_HEADER_BYTES,
        },
{
    match find_header_end(buf) {
        Some(i) => HeadScan::Complete(i),
        None => if buf.len() > MAX_HEADER_BYTES {
            HeadScan::TooLarge
        } else {
            HeadScan::NeedMore
        },
    }
}

/// What `String::from_utf8_lossy` makes of the bytes `b`: their text, with
/// every invalid sequence replaced by U+FFFD.
pub uninterp spec fn utf8_lossy_of(b: Seq<u8>) -> Seq<char>;

/// Calls std's `String::from_utf8_lossy`. Its documentation says that valid
/// UTF-8 is returned unchanged; the contract says that and names the rest.
#[verifier::external_body]
fn utf8_lossy(b: &[u8]) -> (r: String)
    ensures
        r@ == utf8_lossy_of(b@),
        valid_utf8(b@) ==> r@ == decode_utf8(b@),
{
    String::from_utf8_lossy(b).into_owned()
}

/// The method, target and `Range` value of a request.
#[derive(Debug, Clone)]
pub struct RequestHead {
    pub method: String,
    pub target: String,
    pub range: Option<String>,
}

/// The number of leading characters of `s` that are not whitespace.
pub open spec fn word_len(s: Seq<char>) -> nat
    decreases s.len(),
{
    if s.len() > 0 && !is_ws(s[0]) {
        1 + word_len(s.drop_first())
    } else {
        0
    }
}

/// `s` from its first word on.
pub open spec fn from_word(s: Seq<char>) -> Seq<char> {
    s.skip(lead_ws(s) as int)
}

/// The first word of `s` (as `split_whitespace` gives it), if any.
pub open spec fn first_word(s: Seq<char>) -> Option<Seq<char>> {
    let t = from_word(s);
    if t.len() == 0 {
        None
    } else {
        Some(t.take(word_len(t) as int))
    }
}

/// `s` after its first word.
pub open spec fn after_first_word(s: Seq<char>) -> Seq<char> {
    let t = from_word(s);
    t.skip(word_len(t) as int)
}

/// The value of a `Range:` (or `range:`) header line.
pub open spec fn range_line(l: Seq<char>) -> Option<Seq<char>> {
    if has_prefix(l, "Range:"@) {
        Some(trim(l.skip("Range:"@.len() as int)))
    } else if has_prefix(l, "range:"@) {
        Some(trim(l.skip("range:"@.len() as int)))
    } else {
        None
    }
}

/// The value of the last `Range` line of the header lines.
pub open spec fn last_range(ls: Seq<Seq<char>>) -> Option<Seq<char>>
    decreases ls.len(),
{
    if ls.len() == 0 {
        None
    } else {
        match range_line(ls.last()) {
            Some(r) => Some(r),
            None => last_range(ls.drop_last()),
        }
    }
}

/// The range of a head is the value of its last `Range:`/`range:` line,
/// whatever header lines follow it; a head without one has none; and adding
/// a header line that is not a `Range` line never changes the range.
pub proof fn last_range_line_wins(ls: Seq<Seq<char>>, l: Seq<char>, i: int)
    ensures
        0 <= i < ls.len() && range_line(ls[i]) is Some && (forall|j: int|
            i < j < ls.len() ==> range_line(#[trigger] ls[j]) is None) ==> last_range(ls) == range_line(ls[i]),
        (forall|j: int| 0 <= j < ls.len() ==> range_line(#[trigger] ls[j]) is None) ==> last_range(ls) is None,
        range_line(l) is None ==> last_range(ls.push(l)) == last_range(ls),
        range_line(l) is Some ==> last_range(ls.push(l)) == range_line(l),
    decreases ls.len(),
{
    assert(ls.push(l).drop_last() =~= ls);
    if ls.len() > 0 {
        let p = ls.drop_last();
        last_range_line_wins(p, l, i);
        if 0 <= i < ls.len() - 1 && range_line(ls[i]) is Some && (forall|j: int|
            i < j < ls.len() ==> range_line(#[trigger] ls[j]) is None) {
            assert(range_line(ls[ls.len() - 1]) is None);
            assert(p[i] == ls[i]);
            assert forall|j: int| i < j < p.len() implies range_line(#[trigger] p[j]) is None by {
                assert(p[j] == ls[j]);
            }
        }
        if forall|j: int| 0 <= j < ls.len() ==> range_line(#[trigger] ls[j]) is None {
            assert(range_line(ls[ls.len() - 1]) is None);
            assert forall|j: int| 0 <= j < p.len() implies range_line(#[trigger] p[j]) is None by {
                assert(p[j] == ls[j]);
            }
        }
    }
}

/// The request head in `text`: the request line gives the method (upper-cased)
/// and the target; a head without both is refused.
pub open spec fn request_head_of(text: Seq<char>) -> Option<(Seq<char>, Seq<char>, Option<Seq<char>>)> {
    let ls = lines(text);
    if ls.len() == 0 {
        None
    } else {
        match (first_word(ls[0]), first_word(after_first_word(ls[0]))) {
            (Some(m), Some(t)) => Some((upper(m), t, last_range(ls.skip(1)))),
            _ => None,
        }
    }
}

/// The range of a parsed request is the value of the last `Range` header
/// line after the request line, whatever header lines follow it.
pub proof fn request_range_is_the_last_range_line(text: Seq<char>, k: int)
    ensures
        ({
            let ls = lines(text);
            (1 <= k < ls.len() && range_line(ls[k]) is Some && (forall|j: int|
                k < j < ls.len() ==> range_line(#[trigger] ls[j]) is None)) ==> (request_head_of(text) matches Some(
                (_, _, r),
            ) ==> r == range_line(ls[k]))
        }),
{
    let ls = lines(text);
    if 1 <= k < ls.len() {
        let hs = ls.skip(1);
        assert(hs[k - 1] == ls[k]);
        assert forall|j: int| k - 1 < j < hs.len() implies hs[j] == ls[j + 1] by {}
        if forall|j: int| k < j < ls.len() ==> range_line(#[trigger] ls[j]) is None {
            assert forall|j: int| k - 1 < j < hs.len() implies range_line(#[trigger] hs[j]) is None by {
                assert(hs[j] == ls[j + 1]);
            }
        }
        last_range_line_wins(hs, Seq::empty(), k - 1);
    }
}

pub open spec fn head_view(h: RequestHead) -> (Seq<char>, Seq<char>, Option<Seq<char>>) {
    (h.method@, h.target@, opt_view(h.range))
}

proof fn lemma_lead_ws_skip(s: Seq<char>, i: int)
    requires
        0 <= i <= s.len(),
        forall|j: int| 0 <= j < i ==> is_ws(s[j]),
        i == s.len() || !is_ws(s[i]),
    ensures
        lead_ws(s) == i,
    decreases s.len(),
{
    if i > 0 {
        lemma_lead_ws_skip(s.drop_first(), i - 1);
    }
}

proof fn lemma_word_len(s: Seq<char>, i: int)
    requires
        0 <= i <= s.len(),
        forall|j: int| 0 <= j < i ==> !is_ws(s[j]),
        i == s.len() || is_ws(s[i]),
    ensures
        word_len(s) == i,
    decreases s.len(),
{
    if i > 0 {
        lemma_word_len(s.drop_first(), i - 1);
    }
}

/// Splits off the first word of `s`: the word and the text after it.
fn split_word(s: &[char]) -> (r: Option<(Vec<char>, Vec<char>)>)
    ensures
        match r {
            Some((w, rest)) => first_word(s@) == Some(w@) && after_first_word(s@) == rest@,
            None => first_word(s@) is None,
        },
{
    let n = s.len();
    let mut a: usize = 0;
    while a < n && is_ws_char(s[a])
        invariant
            n == s@.len(),
            a <= n,
            forall|j: int| 0 <= j < a ==> is_ws(s@[j]),
        decreases n - a,
    {
        a = a + 1;
    }
    proof {
        lemma_lead_ws_skip(s@, a as int);
    }
    if a == n {
        return None;
    }
    let mut b: usize = a;
    while b < n && !is_ws_char(s[b])
        invariant
            n == s@.len(),
            a <= b <= n,
            forall|j: int| a <= j < b ==> !is_ws(s@[j]),
        decreases n - b,
    {
        b = b + 1;
    }
    let t = subrange(s, a, n);
    assert(t@ == from_word(s@));
    proof {
        lemma_word_len(t@, b - a);
    }
    let w = subrange(s, a, b);
    let rest = subrange(s, b, n);
    assert(w@ == t@.take(b - a));
    assert(rest@ == t@.skip(b - a));
    Some((w, rest))
}

fn range_of_line(l: &[char]) -> (r: Option<Vec<char>>)
    ensures
        match r {
            Some(v) => range_line(l@) == Some(v@),
            None => range_line(l@) is None,
        },
{
    let upper_name = to_chars("Range:");
    let lower_name = to_chars("range:");
    if starts_with(l, upper_name.as_slice()) {
        let rest = subrange(l, upper_name.len(), l.len());
        assert(rest@ == l@.skip("Range:"@.len() as int));
        Some(trim_chars(rest.as_slice()))
    } else if starts_with(l, lower_name.as_slice()) {
        let rest = subrange(l, lower_name.len(), l.len());
        assert(rest@ == l@.skip("range:"@.len() as int));
        Some(trim_chars(rest.as_slice()))
    } else {
        None
    }
}

/// Reads a request head (the bytes before its `\r\n\r\n`): the request line
/// gives the method and the target, and the last `Range` header its value.
pub fn parse_request_head(head: &[u8]) -> (r: Option<RequestHead>)
    ensures
        match r {
            Some(h) => request_head_of(utf8_lossy_of(head@)) == Some(head_view(h)),
            None => request_head_of(utf8_lossy_of(head@)) is None,
        },
{
    let text = utf8_lossy(head);
    let chars = to_chars(text.as_str());
    let ls = lines_of(chars.as_slice());
    let ghost lv = char_vecs(ls@);
    if ls.len() == 0 {
        return None;
    }
    assert(lv[0] == ls@[0]@);
    let (method, after) = match split_word(ls[0].as_slice()) {
        None => {
            return None;
        },
        Some(p) => p,
    };
    let (target, _) = match split_word(after.as_slice()) {
        None => {
            return None;
        },
        Some(p) => p,
    };
    let n = ls.len();
    let mut range: Option<Vec<char>> = None;
    let mut i: usize = 1;
    assert(lv.skip(1).take(0) =~= Seq::<Seq<char>>::empty());
    while i < n
        invariant
            n == ls@.len(),
            lv == char_vecs(ls@),
            1 <= i <= n,
            match range {
                Some(v) => last_range(lv.skip(1).take(i - 1)) == Some(v@),
                None => last_range(lv.skip(1).take(i - 1)) is None,
            },
        decreases n - i,
    {
        let ghost pre = lv.skip(1).take(i - 1);
        let ghost next = lv.skip(1).take(i as int);
        assert(next.drop_last() == pre);
        assert(next.last() == ls@[i as int]@);
        match range_of_line(ls[i].as_slice()) {
            Some(v) => {
                range = Some(v);
            },
            None => {},
        }
        i = i + 1;
    }
    assert(lv.skip(1).take(n - 1) == lv.skip(1));
    let method_text = upper_chars(method.as_slice());
    Some(
        RequestHead {
            method: string_from_chars(method_text.as_slice()),
            target: string_from_chars(target.as_slice()),
            range: match range {
                Some(v) => Some(string_from_chars(v.as_slice())),
                None => None,
            },
        },
    )
}

// ---------------------------------------------------------------------------
// Routing and responses
// ---------------------------------------------------------------------------

/// How the preview server answers a request.
#[derive(Debug, Clone, Copy, PartialEq, Eq, Structural)]
pub enum Route {
    BadRequest,
    MethodNotAllowed,
    NotFound,
    Media { include_body: bool },
    Thumbnail { index: usize, include_body: bool },
}

/// `GET` and `HEAD` of `/media` and `/thumb/<index>`; nothing else is served.
pub open spec fn route_of(head: Option<(Seq<char>, Seq<char>, Option<Seq<char>>)>) -> Route {
    match head {
        None => Route::BadRequest,
        Some((method, target, _)) => {
            let include_body = method == "GET"@;
            if method != "GET"@ && method != "HEAD"@ {
                Route::MethodNotAllowed
            } else if target == "/media"@ {
                Route::Media { include_body }
            } else if has_prefix(target, "/thumb/"@) && parse_unsigned(
                target.skip("/thumb/"@.len() as int),
                usize::MAX as nat,
            ) is Some {
                Route::Thumbnail {
                    index: parse_unsigned(target.skip("/thumb/"@.len() as int), usize::MAX as nat)->0 as usize,
                    include_body,
                }
            } else {
                Route::NotFound
            }
        },
    }
}

/// The endpoint serves only the current media and its thumbnails: a request
/// without a readable head is a 400, any method but `GET` and `HEAD` a 405,
/// `/media` the media, `/thumb/<i>` thumbnail `i`, and any other target
/// (a filesystem path, a malformed index) is not found; only `GET` sends a body.
pub proof fn only_media_and_thumbnails_are_served(
    method: Seq<char>,
    target: Seq<char>,
    range: Option<Seq<char>>,
    i: usize,
)
    ensures
        route_of(None) == Route::BadRequest,
        method != "GET"@ && method != "HEAD"@ ==> route_of(Some((method, target, range)))
            == Route::MethodNotAllowed,
        method == "GET"@ || method == "HEAD"@ ==> {
            &&& route_of(Some((method, "/media"@, range))) == (Route::Media {
                include_body: method == "GET"@,
            })
            &&& route_of(Some((method, "/thumb/"@ + decimal(i as nat), range))) == (Route::Thumbnail {
                index: i,
                include_body: method == "GET"@,
            })
            &&& target != "/media"@ && !has_prefix(target, "/thumb/"@) ==> route_of(
                Some((method, target, range)),
            ) == Route::NotFound
        },
{
    let t = "/thumb/"@ + decimal(i as nat);
    lemma_parse_decimal(i as nat, usize::MAX as nat);
    assert(t.skip("/thumb/"@.len() as int) =~= decimal(i as nat));
    assert(t.take("/thumb/"@.len() as int) =~= "/thumb/"@);
    lemma_thumb_target_is_not_media(i);
}

proof fn lemma_thumb_target_is_not_media(i: usize)
    ensures
        "/thumb/"@ + decimal(i as nat) != "/media"@,
{
    reveal_strlit("/thumb/");
    reveal_strlit("/media");
    let t = "/thumb/"@ + decimal(i as nat);
    assert(t[1] == 't');
    assert("/media"@[1] == 'm');
}

pub fn route(head: Option<&RequestHead>) -> (r: Route)
    ensures
        r == route_of(match head {
            Some(h) => Some(head_view(*h)),
            None => None,
        }),
{
    let h = match head {
        None => {
            return Route::BadRequest;
        },
        Some(h) => h,
    };
    let method = to_chars(h.method.as_str());
    let is_get = eq_chars(method.as_slice(), to_chars("GET").as_slice());
    let is_head = eq_chars(method.as_slice(), to_chars("HEAD").as_slice());
    if !is_get && !is_head {
        return Route::MethodNotAllowed;
    }
    let target = to_chars(h.target.as_str());
    if eq_chars(target.as_slice(), to_chars("/media").as_slice()) {
        return Route::Media { include_body: is_get };
    }
    let prefix = to_chars("/thumb/");
    if starts_with(target.as_slice(), prefix.as_slice()) {
        let rest = subrange(target.as_slice(), prefix.len(), target.len());
        assert(rest@ == target@.skip("/thumb/"@.len() as int));
        match parse_unsigned_chars(rest.as_slice(), usize::MAX as u64) {
            Some(i) => {
                return Route::Thumbnail { index: i as usize, include_body: is_get };
            },
            None => {},
        }
    }
    Route::NotFound
}

/// The content type of a served file, by its extension.
pub open spec fn content_type_of(path: Seq<char>) -> Seq<char> {
    match path_extension_of(path) {
        Some(e) => if lower(e) == "mp4"@ {
            "video/mp4"@
        } else if lower(e) == "jpg"@ || lower(e) == "jpeg"@ {
            "image/jpeg"@
        } else {
            "application/octet-stream"@
        },
        None => "application/octet-stream"@,
    }
}

/// Served files are typed by their extension, in any ASCII case: `.mp4` is
/// `video/mp4`, `.jpg` and `.jpeg` are `image/jpeg`, anything else (or no
/// extension) is `application/octet-stream`.
pub proof fn content_types(path: Seq<char>)
    ensures
        (path_extension_of(path) matches Some(e) && lower(e) == "mp4"@) ==> content_type_of(path) == "video/mp4"@,
        (path_extension_of(path) matches Some(e) && (lower(e) == "jpg"@ || lower(e) == "jpeg"@))
            ==> content_type_of(path) == "image/jpeg"@,
        !(path_extension_of(path) matches Some(e) && (lower(e) == "mp4"@ || lower(e) == "jpg"@ || lower(e)
            == "jpeg"@)) ==> content_type_of(path) == "application/octet-stream"@,
{
    reveal_strlit("mp4");
    reveal_strlit("jpg");
    reveal_strlit("jpeg");
    assert("mp4"@[0] != "jpg"@[0]);
    assert("mp4"@.len() != "jpeg"@.len());
}

pub fn content_type(path: &str) -> (r: &'static str)
    ensures
        r@ == content_type_of(path@),
{
    match path_extension(path) {
        Some(e) => {
            let l = lower_chars(to_chars(e.as_str()).as_slice());
            if eq_chars(l.as_slice(), to_chars("mp4").as_slice()) {
                "video/mp4"
            } else if eq_chars(l.as_slice(), to_chars("jpg").as_slice()) || eq_chars(
                l.as_slice(),
                to_chars("jpeg").as_slice(),
            ) {
                "image/jpeg"
            } else {
                "application/octet-stream"
            }
        },
        None => "application/octet-stream",
    }
}

/// The head of a file response and the bytes of the file it sends.
#[derive(Debug, Clone)]
pub struct FileResponse {
    pub head: String,
    pub start: u64,
    pub nbytes: u64,
}

/// The `Content-Range` line of a partial response.
pub open spec fn content_range_text(start: u64, end: u64, len: u64) -> Seq<char> {
    "Content-Range: bytes "@ + decimal(start as nat) + "-"@ + decimal(end as nat) + "/"@ + decimal(len as nat)
        + "\r\n"@
}

/// The response to a file of `len` bytes for the range `range`: its head,
/// where the body starts in the file and how many bytes it has.
pub open spec fn file_response_of(range: RangeSpec, len: u64, content_type: Seq<char>) -> (Seq<char>, u64, u64) {
    match range {
        RangeSpec::Unsatisfiable => (
            "HTTP/1.1 416 Range Not Satisfiable\r\nContent-Range: bytes */"@ + decimal(len as nat)
                + "\r\nConnection: close\r\nContent-Length: 0\r\n\r\n"@,
            0u64,
            0u64,
        ),
        _ => {
            let (status, start, end) = match range {
                RangeSpec::Slice(s, e) => (206u64, s, e),
                _ => (200u64, 0u64, if len > 0 { (len - 1) as u64 } else { 0u64 }),
            };
            let nbytes: u64 = if len == 0 { 0u64 } else { (end + 1 - start) as u64 };
            (
                status_text(status, content_type, nbytes) + (if status == 206 {
                    content_range_text(start, end, len)
                } else {
                    Seq::empty()
                }) + "\r\n"@,
                start,
                nbytes,
            )
        },
    }
}

pub open spec fn status_text(status: u64, content_type: Seq<char>, nbytes: u64) -> Seq<char> {
    "HTTP/1.1 "@ + decimal(status as nat) + " "@ + (if status == 206 {
        "Partial Content"@
    } else {
        "OK"@
    }) + "\r\nContent-Type: "@ + content_type + "\r\nAccept-Ranges: bytes\r\nContent-Length: "@ + decimal(
        nbytes as nat,
    ) + "\r\nConnection: close\r\n"@
}

fn push_status(h: &mut Vec<char>, status: u64, content_type: &str, nbytes: u64)
    ensures
        final(h)@ == old(h)@ + status_text(status, content_type@, nbytes),
{
    push_str(h, "HTTP/1.1 ");
    push_decimal(h, status);
    push_str(h, " ");
    push_str(h, if status == 206 { "Partial Content" } else { "OK" });
    push_str(h, "\r\nContent-Type: ");
    push_str(h, content_type);
    push_str(h, "\r\nAccept-Ranges: bytes\r\nContent-Length: ");
    push_decimal(h, nbytes);
    push_str(h, "\r\nConnection: close\r\n");
    assert(h@ =~= old(h)@ + status_text(status, content_type@, nbytes));
}

fn push_content_range(h: &mut Vec<char>, start: u64, end: u64, len: u64)
    ensures
        final(h)@ == old(h)@ + content_range_text(start, end, len),
{
    push_str(h, "Content-Range: bytes ");
    push_decimal(h, start);
    push_str(h, "-");
    push_decimal(h, end);
    push_str(h, "/");
    push_decimal(h, len);
    push_str(h, "\r\n");
    assert(h@ =~= old(h)@ + content_range_text(start, end, len));
}

/// The head of the response to a file of `len` bytes, where the body starts
/// and how many bytes it has. The body never reaches past the end of the file.
/// A file of `len` bytes is sent whole with status 200 when no range is
/// asked, exactly the asked slice with 206 and its `Content-Range` for a
/// satisfiable range, and no bytes with 416 and the file's length otherwise;
/// the bytes sent always lie inside the file.
pub proof fn file_responses_send_the_asked_bytes(range: RangeSpec, len: u64, content_type: Seq<char>)
    requires
        range matches RangeSpec::Slice(s, e) ==> s <= e < len,
    ensures
        ({
            let (head, start, nbytes) = file_response_of(range, len, content_type);
            &&& start + nbytes <= len
            &&& range == RangeSpec::Full ==> start == 0 && nbytes == len && head == status_text(
                200,
                content_type,
                len,
            ) + "\r\n"@
            &&& range matches RangeSpec::Slice(s, e) ==> start == s && nbytes == e - s + 1 && head
                == status_text(206, content_type, nbytes) + content_range_text(s, e, len) + "\r\n"@
            &&& range == RangeSpec::Unsatisfiable ==> nbytes == 0 && head
                == "HTTP/1.1 416 Range Not Satisfiable\r\nContent-Range: bytes */"@ + decimal(len as nat)
                + "\r\nConnection: close\r\nContent-Length: 0\r\n\r\n"@
        }),
{
    assert(Seq::<char>::empty() + "\r\n"@ =~= "\r\n"@);
    let t = status_text(200, content_type, len);
    assert(t + Seq::<char>::empty() =~= t);
}

pub fn file_response(range: RangeSpec, len: u64, content_type: &str) -> (r: FileResponse)
    requires
        range matches RangeSpec::Slice(s, e) ==> s <= e < len,
    ensures
        (r.head@, r.start, r.nbytes) == file_response_of(range, len, content_type@),
        r.start + r.nbytes <= len,
{
    let mut h: Vec<char> = Vec::new();
    if let RangeSpec::Unsatisfiable = range {
        push_str(&mut h, "HTTP/1.1 416 Range Not Satisfiable\r\nContent-Range: bytes */");
        push_decimal(&mut h, len);
        push_str(&mut h, "\r\nConnection: close\r\nContent-Length: 0\r\n\r\n");
        assert(h@ =~= file_response_of(range, len, content_type@).0);
        return FileResponse { head: string_from_chars(h.as_slice()), start: 0, nbytes: 0 };
    }
    let (status, start, end): (u64, u64, u64) = match range {
        RangeSpec::Slice(s, e) => (206, s, e),
        _ => (200, 0, len.saturating_sub(1)),
    };
    let nbytes: u64 = if len == 0 {
        0
    } else {
        end + 1 - start
    };
    push_status(&mut h, status, content_type, nbytes);
    let ghost before_range = h@;
    if status == 206 {
        push_content_range(&mut h, start, end, len);
    }
    assert(h@ =~= before_range + (if status == 206 {
        content_range_text(start, end, len)
    } else {
        Seq::empty()
    }));
    push_str(&mut h, "\r\n");
    assert(h@ =~= file_response_of(range, len, content_type@).0);
    FileResponse { head: string_from_chars(h.as_slice()), start, nbytes }
}

/// The plain-text error response with `status` and `reason`: head and body.
pub open spec fn error_response_of(status: u16, reason: Seq<char>) -> (Seq<char>, Seq<char>) {
    let body = decimal(status as nat) + " "@ + reason + "\n"@;
    (
        "HTTP/1.1 "@ + decimal(status as nat) + " "@ + reason + "\r\nContent-Type: text/plain\r\nContent-Length: "@
            + decimal((vstd::utf8::encode_utf8(body).len() as usize) as nat) + "\r\nConnection: close\r\n\r\n"@,
        body,
    )
}

pub fn error_response(status: u16, reason: &str) -> (r: (String, String))
    ensures
        (r.0@, r.1@) == error_response_of(status, reason@),
{
    let mut b: Vec<char> = Vec::new();
    push_decimal(&mut b, status as u64);
    push_str(&mut b, " ");
    push_str(&mut b, reason);
    push_str(&mut b, "\n");
    let body = string_from_chars(b.as_slice());
    let body_len = body.as_str().len();
    let mut h: Vec<char> = Vec::new();
    push_str(&mut h, "HTTP/1.1 ");
    push_decimal(&mut h, status as u64);
    push_str(&mut h, " ");
    push_str(&mut h, reason);
    push_str(&mut h, "\r\nContent-Type: text/plain\r\nContent-Length: ");
    push_decimal(&mut h, body_len as u64);
    push_str(&mut h, "\r\nConnection: close\r\n\r\n");
    assert(h@ =~= error_response_of(status, reason@).0);
    (string_from_chars(h.as_slice()), body)
}

} // verus!
