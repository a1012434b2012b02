use vstd::prelude::*;

verus! {

// ---------------------------------------------------------------------------
// Characters
// ---------------------------------------------------------------------------

/// The lower-case form of an ASCII letter; every other character is unchanged.
pub open spec fn ascii_lower(c: char) -> char {
    if 'A' <= c <= 'Z' {
        ((c as u32) + 32) as char
    } else {
        c
    }
}

/// The upper-case form of an ASCII letter; every other character is unchanged.
pub open spec fn ascii_upper(c: char) -> char {
    if 'a' <= c <= 'z' {
        ((c as u32) - 32) as char
    } else {
        c
    }
}

/// `s` with every ASCII letter lowered.
pub open spec fn lower(s: Seq<char>) -> Seq<char> {
    s.map_values(|c: char| ascii_lower(c))
}

/// `s` with every ASCII letter raised.
pub open spec fn upper(s: Seq<char>) -> Seq<char> {
    s.map_values(|c: char| ascii_upper(c))
}

/// Unicode `White_Space`, the set that `char::is_whitespace` recognises.
pub open spec fn is_ws(c: char) -> bool {
    ||| '\u{9}' <= c <= '\u{d}'
    ||| c == ' '
    ||| c == '\u{85}'
    ||| c == '\u{a0}'
    ||| c == '\u{1680}'
    ||| '\u{2000}' <= c <= '\u{200a}'
    ||| c == '\u{2028}'
    ||| c == '\u{2029}'
    ||| c == '\u{202f}'
    ||| c == '\u{205f}'
    ||| c == '\u{3000}'
}

pub fn lower_char(c: char) -> (r: char)
    ensures
        r == ascii_lower(c),
{
    if 'A' <= c && c <= 'Z' {
        let v: u32 = (c as u32) + 32;
        (v as u8) as char
    } else {
        c
    }
}

pub fn upper_char(c: char) -> (r: char)
    ensures
        r == ascii_upper(c),
{
    if 'a' <= c && c <= 'z' {
        let v: u32 = (c as u32) - 32;
        (v as u8) as char
    } else {
        c
    }
}

pub fn is_ws_char(c: char) -> (r: bool)
    ensures
        r == is_ws(c),
{
    ('\u{9}' <= c && c <= '\u{d}') || c == ' ' || c == '\u{85}' || c == '\u{a0}' || c
        == '\u{1680}' || ('\u{2000}' <= c && c <= '\u{200a}') || c == '\u{2028}' || c
        == '\u{2029}' || c == '\u{202f}' || c == '\u{205f}' || c == '\u{3000}'
}

// ---------------------------------------------------------------------------
// Conversions between strings and character vectors
// ---------------------------------------------------------------------------

/// The characters of `s`, in order.
pub fn to_chars(s: &str) -> (v: Vec<char>)
    ensures
        v@ == s@,
{
    let mut v: Vec<char> = Vec::new();
    for c in it: s.chars()
        invariant
            v@ == it.seq().take(it.index() as int),
            it.seq() == s@,
    {
        v.push(c);
    }
    v
}

/// The string made of the characters of `v`, in order.
/// Calls std's `FromIterator<&char>` for `String` (`collect`), which appends
/// each character in turn.
#[verifier::external_body]
pub(crate) fn string_from_chars(v: &[char]) -> (s: String)
    ensures
        s@ == v@,
{
    v.iter().collect()
}

/// An owned copy of `s`.
pub fn owned(s: &str) -> (r: String)
    ensures
        r@ == s@,
{
    s.to_owned()
}

pub fn push_str(out: &mut Vec<char>, s: &str)
    ensures
        final(out)@ == old(out)@ + s@,
{
    let v = to_chars(s);
    append_chars(out, &v);
}

pub fn append_chars(out: &mut Vec<char>, v: &[char])
    ensures
        final(out)@ == old(out)@ + v@,
{
    let n = v.len();
    let mut i: usize = 0;
    while i < n
        invariant
            n == v@.len(),
            i <= n,
            out@ == old(out)@ + v@.take(i as int),
        decreases n - i,
    {
        out.push(v[i]);
        i = i + 1;
        assert(v@.take(i as int) == v@.take(i - 1 as int).push(v@[i - 1]));
    }
    assert(v@.take(n as int) == v@);
}

/// `s` with every ASCII letter lowered.
pub fn lower_chars(v: &[char]) -> (r: Vec<char>)
    ensures
        r@ == lower(v@),
{
    let mut r: Vec<char> = Vec::new();
    let n = v.len();
    let mut i: usize = 0;
    while i < n
        invariant
            n == v@.len(),
            i <= n,
            r@ == lower(v@.take(i as int)),
        decreases n - i,
    {
        let c = lower_char(v[i]);
        r.push(c);
        i = i + 1;
        assert(lower(v@.take(i as int)) == lower(v@.take(i - 1 as int)).push(ascii_lower(v@[i - 1])));
    }
    assert(v@.take(n as int) == v@);
    r
}

/// `s` with every ASCII letter raised.
pub fn upper_chars(v: &[char]) -> (r: Vec<char>)
    ensures
        r@ == upper(v@),
{
    let mut r: Vec<char> = Vec::new();
    let n = v.len();
    let mut i: usize = 0;
    while i < n
        invariant
            n == v@.len(),
            i <= n,
            r@ == upper(v@.take(i as int)),
        decreases n - i,
    {
        let c = upper_char(v[i]);
        r.push(c);
        i = i + 1;
        assert(upper(v@.take(i as int)) == upper(v@.take(i - 1 as int)).push(ascii_upper(v@[i - 1])));
    }
    assert(v@.take(n as int) == v@);
    r
}

// ---------------------------------------------------------------------------
// Prefixes, suffixes and occurrences
// ---------------------------------------------------------------------------

pub open spec fn has_prefix(s: Seq<char>, p: Seq<char>) -> bool {
    p.len() <= s.len() && s.take(p.len() as int) == p
}

pub open spec fn has_suffix(s: Seq<char>, p: Seq<char>) -> bool {
    p.len() <= s.len() && s.skip(s.len() - p.len()) == p
}

/// `p` occurs in `s` starting at index `i`.
pub open spec fn occurs_at(s: Seq<char>, p: Seq<char>, i: int) -> bool {
    0 <= i && i + p.len() <= s.len() && s.subrange(i, i + p.len()) == p
}

pub open spec fn contains(s: Seq<char>, p: Seq<char>) -> bool {
    exists|i: int| occurs_at(s, p, i)
}

/// Whether `p` occurs in `s` at index `i`.
pub fn matches_at(s: &[char], p: &[char], i: usize) -> (r: bool)
    ensures
        r == occurs_at(s@, p@, i as int),
{
    let n = s.len();
    let m = p.len();
    if i > n || m > n - i {
        return false;
    }
    let mut j: usize = 0;
    while j < m
        invariant
            n == s@.len(),
            m == p@.len(),
            i + m <= n,
            j <= m,
            forall|k: int| 0 <= k < j ==> s@[i + k] == p@[k],
        decreases m - j,
    {
        if s[i + j] != p[j] {
            assert(s@.subrange(i as int, i + m)[j as int] != p@[j as int]);
            return false;
        }
        j = j + 1;
    }
    assert(s@.subrange(i as int, i + m) =~= p@);
    true
}

pub fn starts_with(s: &[char], p: &[char]) -> (r: bool)
    ensures
        r == has_prefix(s@, p@),
{
    let r = matches_at(s, p, 0);
    proof {
        if r {
            assert(s@.subrange(0, p@.len() as int) == s@.take(p@.len() as int));
        }
        if has_prefix(s@, p@) {
            assert(s@.subrange(0, p@.len() as int) == s@.take(p@.len() as int));
        }
    }
    r
}

pub fn ends_with(s: &[char], p: &[char]) -> (r: bool)
    ensures
        r == has_suffix(s@, p@),
{
    if p.len() > s.len() {
        return false;
    }
    let start = s.len() - p.len();
    let r = matches_at(s, p, start);
    proof {
        assert(s@.subrange(start as int, start + p@.len()) == s@.skip(start as int));
    }
    r
}

/// The first index at or after `from` where `p` occurs in `s`.
pub fn find_from(s: &[char], p: &[char], from: usize) -> (r: Option<usize>)
    ensures
        match r {
            Some(i) => from <= i && occurs_at(s@, p@, i as int) && forall|j: int|
                from <= j < i ==> !occurs_at(s@, p@, j),
            None => forall|j: int| from <= j ==> !occurs_at(s@, p@, j),
        },
{
    let n = s.len();
    if from > n {
        return None;
    }
    let mut i: usize = from;
    while i < n
        invariant
            n == s@.len(),
            from <= i <= n,
            forall|j: int| from <= j < i ==> !occurs_at(s@, p@, j),
        decreases n - i,
    {
        if matches_at(s, p, i) {
            return Some(i);
        }
        i = i + 1;
    }
    if matches_at(s, p, n) {
        return Some(n);
    }
    None
}

/// The first index where `c` occurs in `s`.
pub fn find_char(s: &[char], c: char) -> (r: Option<usize>)
    ensures
        match r {
            Some(i) => i < s@.len() && s@[i as int] == c && forall|j: int| 0 <= j < i ==> s@[j] != c,
            None => forall|j: int| 0 <= j < s@.len() ==> s@[j] != c,
        },
{
    let n = s.len();
    let mut i: usize = 0;
    while i < n
        invariant
            n == s@.len(),
            i <= n,
            forall|j: int| 0 <= j < i ==> s@[j] != c,
        decreases n - i,
    {
        if s[i] == c {
            return Some(i);
        }
        i = i + 1;
    }
    None
}

/// The index of the first `c` in `s`.
pub open spec fn first_index(s: Seq<char>, c: char) -> Option<int>
    decreases s.len(),
{
    if s.len() == 0 {
        None
    } else if s[0] == c {
        Some(0)
    } else {
        match first_index(s.drop_first(), c) {
            Some(i) => Some(i + 1),
            None => None,
        }
    }
}

pub proof fn lemma_first_index(s: Seq<char>, c: char, i: int)
    requires
        0 <= i <= s.len(),
        forall|j: int| 0 <= j < i ==> s[j] != c,
        i == s.len() || s[i] == c,
    ensures
        first_index(s, c) == (if i < s.len() {
            Some(i)
        } else {
            None::<int>
        }),
    decreases s.len(),
{
    if s.len() > 0 && i > 0 {
        lemma_first_index(s.drop_first(), c, i - 1);
    }
}

/// The first index at or after `from` where `c` occurs in `s`.
pub fn find_char_from(s: &[char], c: char, from: usize) -> (r: Option<usize>)
    requires
        from <= s@.len(),
    ensures
        match r {
            Some(k) => from <= k < s@.len() && s@[k as int] == c && first_index(s@.skip(from as int), c)
                == Some(k - from),
            None => first_index(s@.skip(from as int), c) is None,
        },
{
    let n = s.len();
    let mut i: usize = from;
    while i < n
        invariant
            n == s@.len(),
            from <= i <= n,
            forall|j: int| from <= j < i ==> s@[j] != c,
        decreases n - i,
    {
        if s[i] == c {
            proof {
                lemma_first_index(s@.skip(from as int), c, i - from);
            }
            return Some(i);
        }
        i = i + 1;
    }
    proof {
        lemma_first_index(s@.skip(from as int), c, n - from);
    }
    None
}

pub fn contains_chars(s: &[char], p: &[char]) -> (r: bool)
    ensures
        r == contains(s@, p@),
{
    match find_from(s, p, 0) {
        Some(_) => true,
        None => false,
    }
}

pub fn eq_chars(a: &[char], b: &[char]) -> (r: bool)
    ensures
        r == (a@ == b@),
{
    if a.len() != b.len() {
        return false;
    }
    let r = matches_at(a, b, 0);
    proof {
        assert(a@.subrange(0, b@.len() as int) == a@);
    }
    r
}

/// ASCII case-insensitive equality, as `str::eq_ignore_ascii_case` decides it.
pub fn eq_ignore_case(a: &[char], b: &[char]) -> (r: bool)
    ensures
        r == (lower(a@) == lower(b@)),
{
    let la = lower_chars(a);
    let lb = lower_chars(b);
    eq_chars(la.as_slice(), lb.as_slice())
}

pub fn subrange(s: &[char], from: usize, to: usize) -> (r: Vec<char>)
    requires
        from <= to <= s@.len(),
    ensures
        r@ == s@.subrange(from as int, to as int),
{
    let mut r: Vec<char> = Vec::new();
    let mut i: usize = from;
    while i < to
        invariant
            from <= i <= to,
            to <= s@.len(),
            r@ == s@.subrange(from as int, i as int),
        decreases to - i,
    {
        r.push(s[i]);
        i = i + 1;
        assert(s@.subrange(from as int, i as int) == s@.subrange(from as int, i - 1 as int).push(
            s@[i - 1],
        ));
    }
    r
}

// ---------------------------------------------------------------------------
// Decimal numbers
// ---------------------------------------------------------------------------

/// The character of the decimal digit `d` (0 to 9).
pub open spec fn digit_char(d: nat) -> char {
    (48 + d) as char
}

pub open spec fn is_digit(c: char) -> bool {
    '0' <= c <= '9'
}

/// The decimal representation of `n`, without leading zeros.
pub open spec fn decimal(n: nat) -> Seq<char>
    decreases n,
{
    if n < 10 {
        seq![digit_char(n)]
    } else {
        decimal(n / 10).push(digit_char(n % 10))
    }
}

/// `decimal(n)` padded with leading zeros to at least `width` characters.
pub open spec fn zero_padded(n: nat, width: nat) -> Seq<char> {
    let d = decimal(n);
    if d.len() < width {
        Seq::new((width - d.len()) as nat, |i: int| '0') + d
    } else {
        d
    }
}

fn digit(d: u64) -> (c: char)
    requires
        d < 10,
    ensures
        c == digit_char(d as nat),
{
    ((d as u8) + 48) as char
}

pub open spec fn pow10(k: nat) -> nat
    decreases k,
{
    if k == 0 {
        1
    } else {
        10 * pow10((k - 1) as nat)
    }
}

proof fn lemma_decimal_len_le(n: nat, k: nat)
    requires
        1 <= k,
        n < pow10(k),
    ensures
        1 <= decimal(n).len() <= k,
    decreases k,
{
    if n >= 10 {
        if k == 1 {
            assert(pow10(0) == 1);
            assert(pow10(1) == 10);
        }
        assert(k >= 2);
        let p = pow10((k - 1) as nat);
        assert(n / 10 < p) by (nonlinear_arith)
            requires
                n < 10 * p,
        ;
        lemma_decimal_len_le(n / 10, (k - 1) as nat);
    }
}

pub proof fn lemma_decimal_len(n: nat)
    ensures
        decimal(n).len() >= 1,
        n < 1_000_000 ==> decimal(n).len() <= 6,
{
    if n < 1_000_000 {
        reveal_with_fuel(pow10, 7);
        assert(pow10(6) == 1_000_000);
        lemma_decimal_len_le(n, 6);
    }
}

/// Appends the decimal representation of `n` to `out`.
pub fn push_decimal(out: &mut Vec<char>, n: u64)
    ensures
        final(out)@ == old(out)@ + decimal(n as nat),
    decreases n,
{
    if n >= 10 {
        push_decimal(out, n / 10);
    }
    let c = digit(n % 10);
    out.push(c);
    proof {
        if n < 10 {
            assert(old(out)@ + decimal(n as nat) == old(out)@.push(c));
        } else {
            assert(decimal(n as nat) == decimal((n / 10) as nat).push(digit_char((n % 10) as nat)));
        }
    }
}

/// The decimal representation of `n`, as `u64::to_string` writes it.
pub fn decimal_string(n: u64) -> (s: String)
    ensures
        s@ == decimal(n as nat),
{
    let mut v: Vec<char> = Vec::new();
    push_decimal(&mut v, n);
    assert(v@ == decimal(n as nat));
    string_from_chars(v.as_slice())
}

/// Appends `decimal(n)` padded with zeros to six characters.
pub fn push_decimal6(out: &mut Vec<char>, n: u64)
    requires
        n < 1_000_000,
    ensures
        final(out)@ == old(out)@ + zero_padded(n as nat, 6),
{
    let mut d: Vec<char> = Vec::new();
    push_decimal(&mut d, n);
    proof {
        lemma_decimal_len(n as nat);
        assert(d@ == decimal(n as nat));
    }
    let len = d.len();
    let mut i: usize = len;
    let ghost base = out@;
    while i < 6
        invariant
            len == d@.len(),
            len <= i <= 6,
            out@ == base + Seq::new((i - len) as nat, |k: int| '0'),
        decreases 6 - i,
    {
        out.push('0');
        i = i + 1;
        assert(Seq::new((i - len) as nat, |k: int| '0') == Seq::new((i - 1 - len) as nat, |k: int| '0').push('0'));
    }
    append_chars(out, d.as_slice());
    proof {
        if len < 6 {
            assert(out@ == base + (Seq::new((6 - len) as nat, |k: int| '0') + d@));
        } else {
            assert(Seq::new((i - len) as nat, |k: int| '0') =~= Seq::<char>::empty());
            assert(out@ == base + d@);
        }
    }
}

/// A duration of `micros` microseconds as seconds with six decimals,
/// the text FFmpeg options take (`1500000` gives `1.500000`).
pub open spec fn seconds_text(micros: nat) -> Seq<char> {
    decimal(micros / 1_000_000) + seq!['.'] + zero_padded(micros % 1_000_000, 6)
}

proof fn lemma_digits_value_concat(p: Seq<char>, d: Seq<char>)
    ensures
        digits_value(p + d) == digits_value(p) * pow10(d.len()) + digits_value(d),
    decreases d.len(),
{
    if d.len() == 0 {
        assert(p + d =~= p);
        assert(pow10(0) == 1);
        assert(digits_value(d) == 0);
    } else {
        lemma_digits_value_concat(p, d.drop_last());
        assert((p + d).drop_last() =~= p + d.drop_last());
        assert((p + d).last() == d.last());
        let a = digits_value(p);
        let b = digits_value(d.drop_last());
        let k = pow10(d.drop_last().len());
        assert(pow10(d.len()) == 10 * k);
        let c = ((d.last() as u32) - 48) as nat;
        assert(digits_value(d) == b * 10 + c);
        assert(digits_value(p + d) == digits_value((p + d).drop_last()) * 10 + c);
        assert(digits_value((p + d).drop_last()) == a * k + b);
        assert((a * k + b) * 10 == a * (10 * k) + b * 10) by (nonlinear_arith);
    }
}

proof fn lemma_zeros(k: nat)
    ensures
        all_digits(Seq::new(k, |i: int| '0')),
        digits_value(Seq::new(k, |i: int| '0')) == 0,
    decreases k,
{
    if k > 0 {
        lemma_zeros((k - 1) as nat);
        assert(Seq::new(k, |i: int| '0').drop_last() =~= Seq::new((k - 1) as nat, |i: int| '0'));
    }
}

/// The time arguments given to FFmpeg read back as the exact time: seconds,
/// a `.`, then exactly six digits of microseconds.
pub proof fn seconds_text_reads_back(micros: nat)
    ensures
        ({
            let t = seconds_text(micros);
            let k = t.len() - 7;
            &&& k >= 1
            &&& t[k] == '.'
            &&& all_digits(t.take(k)) && all_digits(t.skip(k + 1))
            &&& t.skip(k + 1).len() == 6
            &&& digits_value(t.take(k)) * 1_000_000 + digits_value(t.skip(k + 1)) == micros
        }),
{
    let s = micros / 1_000_000;
    let f = micros % 1_000_000;
    let ds = decimal(s);
    let df = decimal(f);
    lemma_decimal_digits(s);
    lemma_decimal_digits(f);
    lemma_decimal_len(f);
    let z = Seq::new((6 - df.len()) as nat, |i: int| '0');
    lemma_zeros((6 - df.len()) as nat);
    let frac = zero_padded(f, 6);
    assert(frac == z + df);
    assert(frac.len() == 6);
    assert(all_digits(frac)) by {
        assert forall|i: int| 0 <= i < frac.len() implies is_digit(#[trigger] frac[i]) by {
            if i < z.len() {
                assert(frac[i] == z[i]);
            } else {
                assert(frac[i] == df[i - z.len()]);
            }
        }
    }
    lemma_digits_value_concat(z, df);
    let t = seconds_text(micros);
    assert(t == ds + seq!['.'] + frac);
    let k = t.len() - 7;
    assert(k == ds.len());
    assert(t.take(k) =~= ds);
    assert(t.skip(k + 1) =~= frac);
    assert(t[k] == '.');
}


pub fn push_seconds(out: &mut Vec<char>, micros: u64)
    ensures
        final(out)@ == old(out)@ + seconds_text(micros as nat),
{
    push_decimal(out, micros / 1_000_000);
    out.push('.');
    push_decimal6(out, micros % 1_000_000);
    proof {
        assert(out@ == old(out)@ + seconds_text(micros as nat));
    }
}

pub fn seconds_string(micros: u64) -> (s: String)
    ensures
        s@ == seconds_text(micros as nat),
{
    let mut v: Vec<char> = Vec::new();
    push_seconds(&mut v, micros);
    assert(v@ == seconds_text(micros as nat));
    string_from_chars(v.as_slice())
}

pub open spec fn all_digits(s: Seq<char>) -> bool {
    forall|i: int| 0 <= i < s.len() ==> is_digit(#[trigger] s[i])
}

/// The value of a string of decimal digits.
pub open spec fn digits_value(s: Seq<char>) -> nat
    decreases s.len(),
{
    if s.len() == 0 {
        0
    } else {
        digits_value(s.drop_last()) * 10 + ((s.last() as u32) - 48) as nat
    }
}

/// What Rust's `from_str` for an unsigned integer reads from `s`, before the
/// range check: an optional `+`, then one or more decimal digits.
pub open spec fn parse_digits(s: Seq<char>) -> Option<nat> {
    let d = if s.len() > 0 && s[0] == '+' {
        s.drop_first()
    } else {
        s
    };
    if d.len() > 0 && all_digits(d) {
        Some(digits_value(d))
    } else {
        None
    }
}

/// `s.parse::<T>()` for an unsigned integer type whose largest value is `max`.
pub open spec fn parse_unsigned(s: Seq<char>, max: nat) -> Option<nat> {
    match parse_digits(s) {
        Some(v) => if v <= max {
            Some(v)
        } else {
            None
        },
        None => None,
    }
}

/// The decimal text of `n` is all digits and reads back as `n`.
pub proof fn lemma_decimal_digits(n: nat)
    ensures
        all_digits(decimal(n)),
        digits_value(decimal(n)) == n,
        decimal(n).len() >= 1,
    decreases n,
{
    let k = n % 10;
    let c = digit_char(k);
    assert((c as u32) == 48 + k);
    let d = decimal(n);
    if n < 10 {
        assert(d == seq![c]);
        assert(d.drop_last() =~= Seq::<char>::empty());
        assert(digits_value(Seq::<char>::empty()) == 0);
        assert(digits_value(d) == digits_value(d.drop_last()) * 10 + ((d.last() as u32) - 48) as nat);
    } else {
        lemma_decimal_digits(n / 10);
        assert(d.drop_last() == decimal(n / 10));
        assert(d.last() == c);
        assert(digits_value(d) == digits_value(d.drop_last()) * 10 + ((d.last() as u32) - 48) as nat);
        assert forall|i: int| 0 <= i < d.len() implies is_digit(#[trigger] d[i]) by {
            if i < d.len() - 1 {
                assert(d[i] == decimal(n / 10)[i]);
            }
        }
    }
}

/// `parse` gives back a number from its decimal text, within range.
pub proof fn lemma_parse_decimal(n: nat, max: nat)
    requires
        n <= max,
    ensures
        parse_unsigned(decimal(n), max) == Some(n),
{
    lemma_decimal_digits(n);
    let d = decimal(n);
    assert(is_digit(d[0]));
}


proof fn lemma_parse_digits_unfold(s: Seq<char>, d: Seq<char>)
    requires
        d == (if s.len() > 0 && s[0] == '+' {
            s.drop_first()
        } else {
            s
        }),
    ensures
        parse_digits(s) == (if d.len() > 0 && all_digits(d) {
            Some(digits_value(d))
        } else {
            None
        }),
{
}

proof fn lemma_digits_prefix(s: Seq<char>, k: int)
    requires
        0 <= k <= s.len(),
        all_digits(s),
    ensures
        digits_value(s) >= digits_value(s.take(k)),
    decreases s.len(),
{
    if k < s.len() {
        assert(s.drop_last().take(k) == s.take(k));
        lemma_digits_prefix(s.drop_last(), k);
    } else {
        assert(s.take(k) == s);
    }
}

/// Parses `s` as Rust's `from_str` parses an unsigned integer no larger than `max`.
pub fn parse_unsigned_chars(s: &[char], max: u64) -> (r: Option<u64>)
    ensures
        match r {
            Some(v) => parse_unsigned(s@, max as nat) == Some(v as nat),
            None => parse_unsigned(s@, max as nat) is None,
        },
{
    let n = s.len();
    let start: usize = if n > 0 && s[0] == '+' {
        1
    } else {
        0
    };
    let ghost d = if s@.len() > 0 && s@[0] == '+' {
        s@.drop_first()
    } else {
        s@
    };
    assert(d == s@.skip(start as int));
    if start >= n {
        return None;
    }
    let mut acc: u64 = 0;
    let mut i: usize = start;
    while i < n
        invariant
            n == s@.len(),
            start <= i <= n,
            d == s@.skip(start as int),
            d == (if s@.len() > 0 && s@[0] == '+' {
                s@.drop_first()
            } else {
                s@
            }),
            all_digits(d.take(i - start)),
            acc as nat == digits_value(d.take(i - start)),
            acc <= max,
        decreases n - i,
    {
        let c = s[i];
        if !('0' <= c && c <= '9') {
            assert(d[i - start] == c);
            assert(!is_digit(d[i - start]));
            assert(!all_digits(d));
            proof {
                lemma_parse_digits_unfold(s@, d);
            }
            return None;
        }
        let dv: u64 = ((c as u32) - 48) as u64;
        assert(d.take(i + 1 - start).drop_last() == d.take(i - start));
        assert(d.take(i + 1 - start).last() == c);
        if dv > max || acc > (max - dv) / 10 {
            proof {
                assert(digits_value(d.take(i + 1 - start)) > max) by (nonlinear_arith)
                    requires
                        digits_value(d.take(i + 1 - start)) == acc * 10 + dv,
                        dv > max || acc > (max - dv) / 10,
                        dv <= 9,
                ;
                lemma_parse_digits_unfold(s@, d);
                if all_digits(d) {
                    lemma_digits_prefix(d, i + 1 - start);
                }
            }
            return None;
        }
        assert(acc * 10 + dv <= max) by (nonlinear_arith)
            requires
                dv <= max,
                acc <= (max - dv) / 10,
        ;
        acc = acc * 10 + dv;
        i = i + 1;
    }
    assert(d.take(n - start) == d);
    proof {
        lemma_parse_digits_unfold(s@, d);
    }
    Some(acc)
}

/// `s.parse::<u64>()`.
pub fn parse_u64(s: &[char]) -> (r: Option<u64>)
    ensures
        match r {
            Some(v) => parse_unsigned(s@, u64::MAX as nat) == Some(v as nat),
            None => parse_unsigned(s@, u64::MAX as nat) is None,
        },
{
    parse_unsigned_chars(s, u64::MAX)
}

// ---------------------------------------------------------------------------
// Whitespace trimming
// ---------------------------------------------------------------------------

/// Number of leading whitespace characters of `s`.
pub open spec fn lead_ws(s: Seq<char>) -> nat
    decreases s.len(),
{
    if s.len() > 0 && is_ws(s[0]) {
        1 + lead_ws(s.drop_first())
    } else {
        0
    }
}

/// Number of trailing whitespace characters of `s`.
pub open spec fn trail_ws(s: Seq<char>) -> nat
    decreases s.len(),
{
    if s.len() > 0 && is_ws(s.last()) {
        1 + trail_ws(s.drop_last())
    } else {
        0
    }
}

/// `str::trim`: `s` without leading and trailing whitespace.
pub open spec fn trim(s: Seq<char>) -> Seq<char> {
    let t = s.skip(lead_ws(s) as int);
    t.take(t.len() - trail_ws(t))
}

proof fn lemma_lead_ws_step(s: Seq<char>, i: int)
    requires
        0 <= i < s.len(),
        is_ws(s[i]),
    ensures
        lead_ws(s.skip(i)) == 1 + lead_ws(s.skip(i + 1)),
{
    assert(s.skip(i).drop_first() == s.skip(i + 1));
}

proof fn lemma_trail_ws_step(s: Seq<char>, j: int)
    requires
        0 < j <= s.len(),
        is_ws(s[j - 1]),
    ensures
        trail_ws(s.take(j)) == 1 + trail_ws(s.take(j - 1)),
{
    assert(s.take(j).drop_last() == s.take(j - 1));
}

proof fn lemma_lead_ws_bound(s: Seq<char>)
    ensures
        lead_ws(s) <= s.len(),
    decreases s.len(),
{
    if s.len() > 0 && is_ws(s[0]) {
        lemma_lead_ws_bound(s.drop_first());
    }
}

proof fn lemma_trail_ws_bound(s: Seq<char>)
    ensures
        trail_ws(s) <= s.len(),
    decreases s.len(),
{
    if s.len() > 0 && is_ws(s.last()) {
        lemma_trail_ws_bound(s.drop_last());
    }
}

fn lead_ws_count(s: &[char]) -> (a: usize)
    ensures
        a == lead_ws(s@),
        a <= s@.len(),
{
    let n = s.len();
    let mut a: usize = 0;
    assert(s@.skip(0) == s@);
    while a < n && is_ws_char(s[a])
        invariant
            n == s@.len(),
            a <= n,
            lead_ws(s@) == a + lead_ws(s@.skip(a as int)),
        decreases n - a,
    {
        proof {
            lemma_lead_ws_step(s@, a as int);
        }
        a = a + 1;
    }
    a
}

fn trail_ws_count(t: &[char]) -> (k: usize)
    ensures
        k == trail_ws(t@),
        k <= t@.len(),
{
    let m = t.len();
    let mut b: usize = m;
    assert(t@.take(m as int) == t@);
    while b > 0 && is_ws_char(t[b - 1])
        invariant
            m == t@.len(),
            b <= m,
            trail_ws(t@) == (m - b) + trail_ws(t@.take(b as int)),
        decreases b,
    {
        proof {
            lemma_trail_ws_step(t@, b as int);
        }
        b = b - 1;
    }
    m - b
}

/// `str::trim`.
pub fn trim_chars(s: &[char]) -> (r: Vec<char>)
    ensures
        r@ == trim(s@),
{
    let a = lead_ws_count(s);
    let t = subrange(s, a, s.len());
    assert(t@ == s@.skip(a as int));
    let k = trail_ws_count(t.as_slice());
    subrange(t.as_slice(), 0, t.len() - k)
}


// ---------------------------------------------------------------------------
// Lines and pieces
// ---------------------------------------------------------------------------

pub proof fn lemma_first_index_bounds(s: Seq<char>, c: char)
    ensures
        first_index(s, c) matches Some(i) ==> 0 <= i < s.len() && s[i] == c,
        first_index(s, c) is None ==> forall|j: int| 0 <= j < s.len() ==> s[j] != c,
    decreases s.len(),
{
    if s.len() > 0 && s[0] != c {
        lemma_first_index_bounds(s.drop_first(), c);
        if first_index(s.drop_first(), c) is None {
            assert forall|j: int| 0 <= j < s.len() implies s[j] != c by {
                if j > 0 {
                    assert(s[j] == s.drop_first()[j - 1]);
                }
            }
        }
    }
}

/// A line without the `\r` of a `\r\n` ending.
pub open spec fn strip_cr(l: Seq<char>) -> Seq<char> {
    if l.len() > 0 && l.last() == '\r' {
        l.drop_last()
    } else {
        l
    }
}

/// `str::lines`: the text split at `\n`, each line without its `\n` or
/// `\r\n`; a final line ending adds no empty line.
pub open spec fn lines(s: Seq<char>) -> Seq<Seq<char>>
    decreases s.len(),
{
    if s.len() == 0 {
        seq![]
    } else {
        match first_index(s, '\n') {
            Some(i) => {
                proof {
                    lemma_first_index_bounds(s, '\n');
                }
                seq![strip_cr(s.take(i))] + lines(s.skip(i + 1))
            },
            None => seq![s],
        }
    }
}

/// `str::split(c)`: the pieces of `s` between occurrences of `c`.
pub open spec fn pieces(s: Seq<char>, c: char) -> Seq<Seq<char>>
    decreases s.len(),
{
    match first_index(s, c) {
        Some(i) => {
            proof {
                lemma_first_index_bounds(s, c);
            }
            seq![s.take(i)] + pieces(s.skip(i + 1), c)
        },
        None => seq![s],
    }
}

/// The views of a list of character vectors.
pub open spec fn char_vecs(v: Seq<Vec<char>>) -> Seq<Seq<char>> {
    v.map_values(|x: Vec<char>| x@)
}

/// `str::lines`.
pub fn lines_of(s: &[char]) -> (r: Vec<Vec<char>>)
    ensures
        char_vecs(r@) == lines(s@),
{
    let n = s.len();
    let mut out: Vec<Vec<char>> = Vec::new();
    let mut pos: usize = 0;
    assert(s@.skip(0) == s@);
    while pos < n
        invariant
            n == s@.len(),
            pos <= n,
            lines(s@) == char_vecs(out@) + lines(s@.skip(pos as int)),
        decreases n - pos,
    {
        let ghost rest = s@.skip(pos as int);
        match find_char_from(s, '\n', pos) {
            Some(k) => {
                let mut line = subrange(s, pos, k);
                if line.len() > 0 && line[line.len() - 1] == '\r' {
                    line.pop();
                }
                proof {
                    assert(rest.take(k - pos) == s@.subrange(pos as int, k as int));
                    assert(rest.skip(k - pos + 1) == s@.skip(k + 1));
                    assert(lines(rest) == seq![strip_cr(rest.take(k - pos))] + lines(rest.skip(k - pos + 1)));
                }
                let ghost before = char_vecs(out@);
                out.push(line);
                assert(char_vecs(out@) == before.push(strip_cr(rest.take(k - pos))));
                pos = k + 1;
            },
            None => {
                let line = subrange(s, pos, n);
                let ghost before = char_vecs(out@);
                out.push(line);
                assert(char_vecs(out@) == before.push(rest));
                pos = n;
                assert(s@.skip(n as int) =~= Seq::<char>::empty());
            },
        }
    }
    assert(lines(s@.skip(n as int)) == Seq::<Seq<char>>::empty()) by {
        assert(s@.skip(n as int) =~= Seq::<char>::empty());
    }
    assert(char_vecs(out@) + Seq::<Seq<char>>::empty() == char_vecs(out@));
    out
}

/// `str::split(c)`.
pub fn pieces_of(s: &[char], c: char) -> (r: Vec<Vec<char>>)
    ensures
        char_vecs(r@) == pieces(s@, c),
{
    let n = s.len();
    let mut out: Vec<Vec<char>> = Vec::new();
    let mut pos: usize = 0;
    assert(s@.skip(0) == s@);
    loop
        invariant
            n == s@.len(),
            pos <= n,
            pieces(s@, c) == char_vecs(out@) + pieces(s@.skip(pos as int), c),
        decreases n - pos,
    {
        let ghost rest = s@.skip(pos as int);
        match find_char_from(s, c, pos) {
            Some(k) => {
                let piece = subrange(s, pos, k);
                proof {
                    assert(rest.take(k - pos) == s@.subrange(pos as int, k as int));
                    assert(rest.skip(k - pos + 1) == s@.skip(k + 1));
                }
                let ghost before = char_vecs(out@);
                out.push(piece);
                assert(char_vecs(out@) == before.push(rest.take(k - pos)));
                pos = k + 1;
            },
            None => {
                let piece = subrange(s, pos, n);
                let ghost before = char_vecs(out@);
                out.push(piece);
                assert(char_vecs(out@) == before.push(rest));
                assert(char_vecs(out@) == pieces(s@, c));
                return out;
            },
        }
    }
}

/// The text joined with `sep` between consecutive items.
pub open spec fn joined(list: Seq<Seq<char>>, sep: Seq<char>) -> Seq<char>
    decreases list.len(),
{
    if list.len() == 0 {
        seq![]
    } else if list.len() == 1 {
        list[0]
    } else {
        joined(list.drop_last(), sep) + sep + list.last()
    }
}

/// `slice::join` on strings.
pub fn join_strings(list: &Vec<String>, sep: &str) -> (r: String)
    ensures
        r@ == joined(list@.map_values(|x: String| x@), sep@),
{
    let ghost views = list@.map_values(|x: String| x@);
    let n = list.len();
    let mut out: Vec<char> = Vec::new();
    let mut i: usize = 0;
    while i < n
        invariant
            n == list@.len(),
            views == list@.map_values(|x: String| x@),
            i <= n,
            out@ == joined(views.take(i as int), sep@),
        decreases n - i,
    {
        if i > 0 {
            push_str(&mut out, sep);
        }
        push_str(&mut out, list[i].as_str());
        assert(views.take(i + 1 as int).drop_last() == views.take(i as int));
        i = i + 1;
    }
    assert(views.take(n as int) == views);
    string_from_chars(out.as_slice())
}

} // verus!
