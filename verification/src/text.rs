//! Character-sequence helpers shared by the analyzers and converters.
//!
//! Inputs are read as `Vec<char>`, outputs are built as `String`s, and every
//! operation is specified over `Seq<char>`.
use vstd::prelude::*;
use vstd::utf8::{decode_utf8, encode_utf8, is_char_boundary};

verus! {

/// Appends one character to a string (std `String::push`, which appends the
/// given char to the end of the string).
#[verifier::external_body]
pub(crate) fn push_char(s: &mut String, c: char)
    ensures
        final(s)@ == old(s)@.push(c),
{
    s.push(c);
}

/// The characters of a string slice, in order.
pub fn chars_of(s: &str) -> (v: Vec<char>)
    ensures
        v@ == s@,
{
    let mut v: Vec<char> = Vec::new();
    for c in it: s.chars()
        invariant
            v@ == it.seq().take(it.index() as int),
            it.seq() == s@,
    {
        v.push(c);
    }
    v
}

/// Builds a string from a sequence of characters.
pub fn string_of(v: &[char]) -> (s: String)
    ensures
        s@ == v@,
{
    let mut s = String::new();
    let mut i: usize = 0;
    while i < v.len()
        invariant
            i <= v.len(),
            s@ == v@.take(i as int),
        decreases v.len() - i,
    {
        push_char(&mut s, v[i]);
        i = i + 1;
        assert(v@.take(i as int) == v@.take(i - 1).push(v@[i - 1]));
    }
    assert(v@.take(v.len() as int) == v@);
    s
}

/// Appends the characters `v[from..to]` to `s`.
pub fn append_chars(s: &mut String, v: &[char], from: usize, to: usize)
    requires
        from <= to <= v.len(),
    ensures
        final(s)@ == old(s)@ + v@.subrange(from as int, to as int),
{
    let mut i: usize = from;
    while i < to
        invariant
            from <= i <= to <= v.len(),
            s@ == old(s)@ + v@.subrange(from as int, i as int),
        decreases to - i,
    {
        push_char(s, v[i]);
        i = i + 1;
        assert(v@.subrange(from as int, i as int) == v@.subrange(from as int, i - 1).push(
            v@[i - 1],
        ));
    }
}

/// Unicode `White_Space`, the set that `char::is_whitespace` tests.
pub open spec fn is_ws(c: char) -> bool {
    let u = c as u32;
    ||| 0x09 <= u <= 0x0D
    ||| u == 0x20
    ||| u == 0x85
    ||| u == 0xA0
    ||| u == 0x1680
    ||| 0x2000 <= u <= 0x200A
    ||| u == 0x2028
    ||| u == 0x2029
    ||| u == 0x202F
    ||| u == 0x205F
    ||| u == 0x3000
}

pub fn is_whitespace(c: char) -> (b: bool)
    ensures
        b == is_ws(c),
{
    let u = c as u32;
    (0x09 <= u && u <= 0x0D) || u == 0x20 || u == 0x85 || u == 0xA0 || u == 0x1680 || (0x2000
        <= u && u <= 0x200A) || u == 0x2028 || u == 0x2029 || u == 0x202F || u == 0x205F || u
        == 0x3000
}

/// Number of leading whitespace characters.
pub open spec fn lead_ws(s: Seq<char>) -> nat
    decreases s.len(),
{
    if s.len() > 0 && is_ws(s[0]) {
        1 + lead_ws(s.drop_first())
    } else {
        0
    }
}

/// Number of trailing whitespace characters.
pub open spec fn trail_ws(s: Seq<char>) -> nat
    decreases s.len(),
{
    if s.len() > 0 && is_ws(s.last()) {
        1 + trail_ws(s.drop_last())
    } else {
        0
    }
}

/// `str::trim_start`.
pub open spec fn trim_start(s: Seq<char>) -> Seq<char> {
    s.skip(lead_ws(s) as int)
}

/// `str::trim_end`.
pub open spec fn trim_end(s: Seq<char>) -> Seq<char> {
    s.take(s.len() - trail_ws(s))
}

/// `str::trim`: whitespace removed at both ends.
pub open spec fn trim(s: Seq<char>) -> Seq<char> {
    trim_end(trim_start(s))
}

/// Index of the first non-whitespace character of `v[from..to]` (or `to`).
fn skip_ws_forward(v: &[char], from: usize, to: usize) -> (i: usize)
    requires
        from <= to <= v.len(),
    ensures
        from <= i <= to,
        i - from == lead_ws(v@.subrange(from as int, to as int)),
{
    let mut i = from;
    while i < to && is_whitespace(v[i])
        invariant
            from <= i <= to <= v.len(),
            lead_ws(v@.subrange(from as int, to as int)) == (i - from) + lead_ws(
                v@.subrange(i as int, to as int),
            ),
        decreases to - i,
    {
        assert(v@.subrange(i as int, to as int).drop_first() == v@.subrange(i + 1, to as int));
        i = i + 1;
    }
    i
}

/// Index just past the last non-whitespace character of `v[from..to]` (or `from`).
fn skip_ws_backward(v: &[char], from: usize, to: usize) -> (j: usize)
    requires
        from <= to <= v.len(),
    ensures
        from <= j <= to,
        to - j == trail_ws(v@.subrange(from as int, to as int)),
{
    let mut j = to;
    while j > from && is_whitespace(v[j - 1])
        invariant
            from <= j <= to <= v.len(),
            trail_ws(v@.subrange(from as int, to as int)) == (to - j) + trail_ws(
                v@.subrange(from as int, j as int),
            ),
        decreases j - from,
    {
        assert(v@.subrange(from as int, j as int).drop_last() == v@.subrange(from as int, j - 1));
        j = j - 1;
    }
    j
}

/// Bounds `(a, b)` such that `v[a..b]` is `v` with surrounding whitespace removed.
pub fn trim_bounds(v: &[char]) -> (r: (usize, usize))
    ensures
        r.0 <= r.1 <= v.len(),
        v@.subrange(r.0 as int, r.1 as int) == trim(v@),
        v@.subrange(r.0 as int, v.len() as int) == trim_start(v@),
{
    let a = skip_ws_forward(v, 0, v.len());
    let b = skip_ws_backward(v, a, v.len());
    proof {
        assert(v@.subrange(0, v.len() as int) == v@);
        let t = trim_start(v@);
        assert(t == v@.subrange(a as int, v.len() as int));
        assert(trim(v@) == t.take(t.len() - trail_ws(t)));
        assert(t.take(t.len() - trail_ws(t)) == v@.subrange(a as int, b as int));
    }
    (a, b)
}

/// `s` with whitespace removed at both ends.
pub fn trim_chars(v: &[char]) -> (r: Vec<char>)
    ensures
        r@ == trim(v@),
{
    let (a, b) = trim_bounds(v);
    let mut r: Vec<char> = Vec::new();
    let mut i = a;
    while i < b
        invariant
            a <= i <= b <= v.len(),
            r@ == v@.subrange(a as int, i as int),
        decreases b - i,
    {
        r.push(v[i]);
        i = i + 1;
        assert(v@.subrange(a as int, i as int) == v@.subrange(a as int, i - 1).push(v@[i - 1]));
    }
    r
}

/// A string with whitespace removed at both ends, as `str::trim` leaves it.
pub fn trim_str(s: &str) -> (r: String)
    ensures
        r@ == trim(s@),
{
    let v = chars_of(s);
    let t = trim_chars(v.as_slice());
    string_of(t.as_slice())
}

/// The text of the bytes `start..end` of `s`, when they lie in order on
/// character boundaries.
pub fn byte_range(s: &str, start: usize, end: usize) -> (r: Option<String>)
    ensures
        match r {
            Some(x) => start <= end && is_char_boundary(encode_utf8(s@), start as int)
                && is_char_boundary(encode_utf8(s@), end as int) && x@ == decode_utf8(
                encode_utf8(s@).subrange(start as int, end as int),
            ),
            None => !(start <= end && is_char_boundary(encode_utf8(s@), start as int)
                && is_char_boundary(encode_utf8(s@), end as int)),
        },
{
    let ghost bytes = encode_utf8(s@);
    if start > end || !s.is_char_boundary(start) || !s.is_char_boundary(end) {
        return None;
    }
    let (_head, rest) = s.split_at(start);
    proof {
        vstd::utf8::encode_utf8_valid_utf8(s@);
        vstd::utf8::valid_utf8_split(bytes, start as int);
        let rb = bytes.subrange(start as int, bytes.len() as int);
        let j = end - start;
        assert(end <= bytes.len()) by {
            if end > bytes.len() {
                assert(!is_char_boundary(bytes, end as int));
            }
        }
        if end == bytes.len() {
            vstd::utf8::is_char_boundary_start_end_of_seq(rb);
            assert(j == rb.len());
        } else {
            vstd::utf8::is_char_boundary_iff_not_is_continuation_byte(rb, j as int);
            vstd::utf8::is_char_boundary_iff_not_is_continuation_byte(bytes, end as int);
            assert(rb[j as int] == bytes[end as int]);
        }
        assert(is_char_boundary(encode_utf8(rest@), j as int));
    }
    let (mid, _tail) = rest.split_at(end - start);
    proof {
        assert(encode_utf8(mid@) =~= bytes.subrange(start as int, end as int));
        vstd::utf8::encode_utf8_decode_utf8(mid@);
    }
    Some(String::from_str(mid))
}

/// `p` occurs in `s` at position `i`.
pub open spec fn occurs_at(s: Seq<char>, p: Seq<char>, i: int) -> bool {
    0 <= i && i + p.len() <= s.len() && s.subrange(i, i + p.len()) == p
}

/// `str::contains` with a string pattern.
pub open spec fn contains_seq(s: Seq<char>, p: Seq<char>) -> bool {
    exists|i: int| occurs_at(s, p, i)
}

/// `str::starts_with` with a string pattern.
pub open spec fn starts_with(s: Seq<char>, p: Seq<char>) -> bool {
    occurs_at(s, p, 0)
}

/// Does `p` occur in `s` at position `i`?
pub fn matches_at(s: &[char], p: &[char], i: usize) -> (b: bool)
    ensures
        b == occurs_at(s@, p@, i as int),
{
    if i > s.len() || p.len() > s.len() - i {
        return false;
    }
    let mut k: usize = 0;
    while k < p.len()
        invariant
            i + p.len() <= s.len(),
            k <= p.len(),
            forall|j: int| 0 <= j < k ==> s@[i + j] == p@[j],
        decreases p.len() - k,
    {
        if s[i + k] != p[k] {
            assert(s@.subrange(i as int, i + p.len())[k as int] != p@[k as int]);
            return false;
        }
        k = k + 1;
    }
    assert(s@.subrange(i as int, i + p.len()) =~= p@);
    true
}

/// `s` contains `p`.
pub fn contains_chars(s: &[char], p: &[char]) -> (b: bool)
    ensures
        b == contains_seq(s@, p@),
{
    if p.len() > s.len() {
        return false;
    }
    let last = s.len() - p.len();
    let mut i: usize = 0;
    while i < last
        invariant
            p.len() <= s.len(),
            last == s.len() - p.len(),
            i <= last,
            forall|j: int| 0 <= j < i ==> !occurs_at(s@, p@, j),
        decreases last - i,
    {
        if matches_at(s, p, i) {
            return true;
        }
        i = i + 1;
    }
    matches_at(s, p, last)
}

/// `s` contains the string `p`.
pub fn contains_str(s: &[char], p: &str) -> (b: bool)
    ensures
        b == contains_seq(s@, p@),
{
    let pv = chars_of(p);
    contains_chars(s, pv.as_slice())
}

/// `s` starts with the string `p`.
pub fn starts_with_str(s: &[char], p: &str) -> (b: bool)
    ensures
        b == starts_with(s@, p@),
{
    let pv = chars_of(p);
    matches_at(s, pv.as_slice(), 0)
}

/// The decimal digit for `d < 10`.
pub open spec fn digit_char(d: nat) -> char {
    if d == 0 { '0' }
    else if d == 1 { '1' }
    else if d == 2 { '2' }
    else if d == 3 { '3' }
    else if d == 4 { '4' }
    else if d == 5 { '5' }
    else if d == 6 { '6' }
    else if d == 7 { '7' }
    else if d == 8 { '8' }
    else { '9' }
}

/// Decimal rendering of a natural number (as `format!("{}", n)` prints it).
pub open spec fn decimal(n: nat) -> Seq<char>
    decreases n,
{
    if n < 10 {
        seq![digit_char(n)]
    } else {
        decimal(n / 10).push(digit_char(n % 10))
    }
}

fn digit(d: u128) -> (c: char)
    requires
        d < 10,
    ensures
        c == digit_char(d as nat),
{
    if d == 0 { '0' }
    else if d == 1 { '1' }
    else if d == 2 { '2' }
    else if d == 3 { '3' }
    else if d == 4 { '4' }
    else if d == 5 { '5' }
    else if d == 6 { '6' }
    else if d == 7 { '7' }
    else if d == 8 { '8' }
    else { '9' }
}

/// Appends the decimal rendering of `n`.
pub fn push_decimal(s: &mut String, n: u128)
    ensures
        final(s)@ == old(s)@ + decimal(n as nat),
    decreases n,
{
    if n < 10 {
        push_char(s, digit(n));
        assert(old(s)@ + decimal(n as nat) == old(s)@.push(digit_char(n as nat)));
    } else {
        push_decimal(s, n / 10);
        push_char(s, digit(n % 10));
        assert(old(s)@ + decimal(n as nat) == (old(s)@ + decimal((n / 10) as nat)).push(
            digit_char((n % 10) as nat),
        ));
    }
}

pub proof fn lemma_decimal_len(n: nat)
    ensures
        decimal(n).len() >= 1,
        n < 10 <==> decimal(n).len() == 1,
        n < 100 ==> decimal(n).len() <= 2,
        n < 1000 ==> decimal(n).len() <= 3,
        n >= 10 ==> decimal(n).len() >= 2,
        n >= 100 ==> decimal(n).len() >= 3,
        n >= 1000 ==> decimal(n).len() >= 4,
    decreases n,
{
    if n >= 10 {
        lemma_decimal_len(n / 10);
    }
}

/// `format!("{:04}", n)`: the decimal rendering left-padded with zeros to width four.
pub open spec fn decimal_pad4(n: nat) -> Seq<char> {
    let d = decimal(n);
    if d.len() >= 4 {
        d
    } else {
        Seq::new((4 - d.len()) as nat, |_i: int| '0') + d
    }
}

/// Appends `format!("{:04}", n)`.
pub fn push_decimal_pad4(s: &mut String, n: u128)
    ensures
        final(s)@ == old(s)@ + decimal_pad4(n as nat),
{
    proof {
        lemma_decimal_len(n as nat);
    }
    let ghost d = decimal(n as nat);
    if n < 10 {
        s.append("000");
        proof { reveal_strlit("000"); }
        assert(Seq::new((4 - d.len()) as nat, |_i: int| '0') =~= "000"@);
    } else if n < 100 {
        s.append("00");
        proof { reveal_strlit("00"); }
        assert(Seq::new((4 - d.len()) as nat, |_i: int| '0') =~= "00"@);
    } else if n < 1000 {
        s.append("0");
        proof { reveal_strlit("0"); }
        assert(Seq::new((4 - d.len()) as nat, |_i: int| '0') =~= "0"@);
    }
    let ghost mid = s@;
    push_decimal(s, n);
    assert(final(s)@ =~= old(s)@ + decimal_pad4(n as nat));
}


/// Two strings hold the same characters.
pub fn eq_str(a: &str, b: &str) -> (r: bool)
    ensures
        r == (a@ == b@),
{
    let av = chars_of(a);
    let bv = chars_of(b);
    if av.len() != bv.len() {
        return false;
    }
    let r = matches_at(av.as_slice(), bv.as_slice(), 0);
    assert(av@.subrange(0, bv@.len() as int) == av@);
    r
}

/// An optional string equals the given text.
pub fn opt_eq_str(a: &Option<String>, b: &str) -> (r: bool)
    ensures
        r == (a matches Some(x) && x@ == b@),
{
    match a {
        Some(x) => eq_str(x.as_str(), b),
        None => false,
    }
}

/// The text of an optional string, or the default.
pub open spec fn opt_or(a: Option<String>, d: Seq<char>) -> Seq<char> {
    match a {
        Some(x) => x@,
        None => d,
    }
}

pub proof fn lemma_opt_deep(o: Option<String>)
    ensures
        o.deep_view() == match o {
            Some(x) => Some(x@),
            None => None::<Seq<char>>,
        },
{
}

/// Copies an optional string.
pub fn clone_opt(a: &Option<String>) -> (r: Option<String>)
    ensures
        r == *a,
{
    match a {
        Some(x) => Some(x.clone()),
        None => None,
    }
}

/// The text of an optional string, or `d`.
pub fn opt_or_string(a: &Option<String>, d: &str) -> (r: String)
    ensures
        r@ == opt_or(*a, d@),
{
    match a {
        Some(x) => x.clone(),
        None => String::from_str(d),
    }
}

/// Copies a list of strings.
pub fn clone_strings(v: &Vec<String>) -> (r: Vec<String>)
    ensures
        r@ == v@,
{
    let mut r: Vec<String> = Vec::new();
    let mut i: usize = 0;
    while i < v.len()
        invariant
            i <= v.len(),
            r@ == v@.take(i as int),
        decreases v.len() - i,
    {
        r.push(v[i].clone());
        i = i + 1;
        assert(v@.take(i as int) == v@.take(i - 1).push(v@[i - 1]));
    }
    assert(v@.take(v.len() as int) == v@);
    r
}

/// Drops one trailing carriage return.
pub open spec fn strip_cr(l: Seq<char>) -> Seq<char> {
    if l.len() > 0 && l.last() == '\r' {
        l.drop_last()
    } else {
        l
    }
}

/// State of splitting `s` into lines: the finished lines and the line in
/// progress.
pub open spec fn lines_state(s: Seq<char>) -> (Seq<Seq<char>>, Seq<char>)
    decreases s.len(),
{
    if s.len() == 0 {
        (seq![], seq![])
    } else {
        let (ls, cur) = lines_state(s.drop_last());
        if s.last() == '\n' {
            (ls.push(strip_cr(cur)), seq![])
        } else {
            (ls, cur.push(s.last()))
        }
    }
}

/// `str::lines`: split at `\n` (dropping a `\r` right before it), with no
/// empty last line after a final line ending.
pub open spec fn lines(s: Seq<char>) -> Seq<Seq<char>> {
    let (ls, cur) = lines_state(s);
    if cur.len() > 0 {
        ls.push(cur)
    } else {
        ls
    }
}

/// The lines of `v`, as character vectors.
pub fn lines_of(v: &[char]) -> (r: Vec<Vec<char>>)
    ensures
        r@.map_values(|l: Vec<char>| l@) == lines(v@),
{
    let mut done: Vec<Vec<char>> = Vec::new();
    let mut cur: Vec<char> = Vec::new();
    let mut i: usize = 0;
    while i < v.len()
        invariant
            i <= v.len(),
            (done@.map_values(|l: Vec<char>| l@), cur@) == lines_state(v@.take(i as int)),
        decreases v.len() - i,
    {
        let c = v[i];
        proof {
            assert(v@.take(i + 1).drop_last() == v@.take(i as int));
            assert(v@.take(i + 1).last() == c);
        }
        if c == '\n' {
            let ghost before = done@.map_values(|l: Vec<char>| l@);
            let ghost old_cur = cur@;
            if cur.len() > 0 && cur[cur.len() - 1] == '\r' {
                cur.pop();
            }
            done.push(cur);
            cur = Vec::new();
            proof {
                assert(done@.map_values(|l: Vec<char>| l@) == before.push(strip_cr(old_cur)));
            }
        } else {
            cur.push(c);
        }
        i = i + 1;
    }
    assert(v@.take(v.len() as int) == v@);
    let ghost before = done@.map_values(|l: Vec<char>| l@);
    if cur.len() > 0 {
        done.push(cur);
        assert(done@.map_values(|l: Vec<char>| l@) == before.push(lines_state(v@).1));
    }
    done
}

/// `str::replace` with a non-empty pattern: every non-overlapping match,
/// left to right, replaced.
pub open spec fn replace_all(s: Seq<char>, pat: Seq<char>, rep: Seq<char>) -> Seq<char>
    decreases s.len(),
{
    if pat.len() == 0 || s.len() < pat.len() {
        s
    } else if starts_with(s, pat) {
        rep + replace_all(s.skip(pat.len() as int), pat, rep)
    } else {
        seq![s[0]] + replace_all(s.drop_first(), pat, rep)
    }
}

/// Replaces every occurrence of `pat` (non-empty) in `v` by `rep`.
pub fn replace_chars(v: &[char], pat: &[char], rep: &str) -> (r: String)
    requires
        pat.len() > 0,
    ensures
        r@ == replace_all(v@, pat@, rep@),
{
    let mut out = String::new();
    let mut i: usize = 0;
    assert(v@.skip(0) == v@);
    while i < v.len()
        invariant
            i <= v.len(),
            pat.len() > 0,
            out@ + replace_all(v@.skip(i as int), pat@, rep@) == replace_all(v@, pat@, rep@),
        decreases v.len() - i,
    {
        let ghost rest = v@.skip(i as int);
        if pat.len() <= v.len() - i && matches_at(v, pat, i) {
            proof {
                assert(rest.subrange(0, pat@.len() as int) == v@.subrange(i as int, i + pat@.len()));
                assert(rest.skip(pat@.len() as int) == v@.skip(i + pat.len()));
            }
            out.append(rep);
            i = i + pat.len();
        } else {
            proof {
                if rest.len() >= pat@.len() {
                    assert(rest.subrange(0, pat@.len() as int) == v@.subrange(i as int, i + pat@.len()));
                }
                assert(rest.drop_first() == v@.skip(i + 1));
                if rest.len() < pat@.len() {
                    assert(replace_all(rest, pat@, rep@) == rest);
                    assert(rest == seq![rest[0]] + rest.drop_first());
                    assert(replace_all(rest.drop_first(), pat@, rep@) == rest.drop_first());
                }
            }
            push_char(&mut out, v[i]);
            i = i + 1;
        }
    }
    assert(v@.skip(v.len() as int) =~= Seq::<char>::empty());
    out
}

/// Replaces every occurrence of the string `pat` (non-empty) by `rep`.
pub fn replace_str(v: &[char], pat: &str, rep: &str) -> (r: String)
    requires
        pat@.len() > 0,
    ensures
        r@ == replace_all(v@, pat@, rep@),
{
    let pv = chars_of(pat);
    replace_chars(v, pv.as_slice(), rep)
}

/// Position of the first occurrence of `p` in `s` at or after `from`.
pub open spec fn find_from(s: Seq<char>, p: Seq<char>, from: int) -> Option<int>
    decreases s.len() + 1 - from,
{
    if from < 0 || from + p.len() > s.len() {
        None
    } else if occurs_at(s, p, from) {
        Some(from)
    } else {
        find_from(s, p, from + 1)
    }
}

pub proof fn lemma_find_from(s: Seq<char>, p: Seq<char>, from: int)
    requires
        0 <= from,
    ensures
        find_from(s, p, from) matches Some(i) ==> from <= i && occurs_at(s, p, i) && forall|j: int|
            from <= j < i ==> !occurs_at(s, p, j),
        find_from(s, p, from) is None ==> forall|j: int| from <= j ==> !occurs_at(s, p, j),
    decreases s.len() + 1 - from,
{
    if from + p.len() <= s.len() && !occurs_at(s, p, from) {
        lemma_find_from(s, p, from + 1);
    }
}

/// Position of the first occurrence of `p` in `v` at or after `from`.
pub fn find_chars(v: &[char], p: &[char], from: usize) -> (r: Option<usize>)
    ensures
        r matches Some(i) ==> find_from(v@, p@, from as int) == Some(i as int),
        r is None ==> find_from(v@, p@, from as int) is None,
{
    if p.len() == 0 {
        if from <= v.len() {
            assert(v@.subrange(from as int, from as int) =~= p@);
            return Some(from);
        }
        return None;
    }
    let mut i = from;
    while i <= v.len() && p.len() <= v.len() - i
        invariant
            from <= i,
            p.len() > 0,
            find_from(v@, p@, from as int) == find_from(v@, p@, i as int),
        decreases v.len() + 1 - i,
    {
        if matches_at(v, p, i) {
            return Some(i);
        }
        i = i + 1;
    }
    None
}

/// Leading characters equal to `c`.
pub open spec fn lead_char(s: Seq<char>, c: char) -> nat
    decreases s.len(),
{
    if s.len() > 0 && s[0] == c {
        1 + lead_char(s.drop_first(), c)
    } else {
        0
    }
}

/// Trailing characters equal to `c`.
pub open spec fn trail_char(s: Seq<char>, c: char) -> nat
    decreases s.len(),
{
    if s.len() > 0 && s.last() == c {
        1 + trail_char(s.drop_last(), c)
    } else {
        0
    }
}

/// `str::trim_matches(c)` for a single character.
pub open spec fn trim_char(s: Seq<char>, c: char) -> Seq<char> {
    let t = s.skip(lead_char(s, c) as int);
    t.take(t.len() - trail_char(t, c))
}

/// `v` with every leading and trailing `c` removed.
pub fn trim_char_chars(v: &[char], c: char) -> (r: Vec<char>)
    ensures
        r@ == trim_char(v@, c),
{
    let mut a: usize = 0;
    assert(v@.skip(0) == v@);
    while a < v.len() && v[a] == c
        invariant
            a <= v.len(),
            lead_char(v@, c) == a + lead_char(v@.skip(a as int), c),
        decreases v.len() - a,
    {
        assert(v@.skip(a as int).drop_first() == v@.skip(a + 1));
        a = a + 1;
    }
    let ghost t = v@.skip(a as int);
    let mut b: usize = v.len();
    while b > a && v[b - 1] == c
        invariant
            a <= b <= v.len(),
            t == v@.skip(a as int),
            trail_char(t, c) == (v.len() - b) + trail_char(v@.subrange(a as int, b as int), c),
        decreases b - a,
    {
        assert(v@.subrange(a as int, b as int).drop_last() == v@.subrange(a as int, b - 1));
        b = b - 1;
    }
    assert(t == v@.subrange(a as int, v.len() as int));
    let mut r: Vec<char> = Vec::new();
    let mut i = a;
    while i < b
        invariant
            a <= i <= b <= v.len(),
            r@ == v@.subrange(a as int, i as int),
        decreases b - i,
    {
        r.push(v[i]);
        i = i + 1;
        assert(v@.subrange(a as int, i as int) == v@.subrange(a as int, i - 1).push(v@[i - 1]));
    }
    assert(t.take(t.len() - trail_char(t, c)) == v@.subrange(a as int, b as int));
    r
}


/// The HTML entity for a character that needs escaping, or the character.
pub open spec fn html_entity(c: char) -> Seq<char> {
    if c == '&' {
        "&amp;"@
    } else if c == '<' {
        "&lt;"@
    } else if c == '>' {
        "&gt;"@
    } else if c == '"' {
        "&quot;"@
    } else {
        seq![c]
    }
}

/// `&`, `<`, `>` and `"` replaced by their entities (the result of replacing
/// `&` first, then `<`, `>` and `"`).
pub open spec fn html_escaped(s: Seq<char>) -> Seq<char> {
    s.flat_map(|c: char| html_entity(c))
}

/// Escapes the characters of `v` for HTML.
pub fn html_escape_chars(v: &[char]) -> (r: String)
    ensures
        r@ == html_escaped(v@),
{
    let mut out = String::new();
    let mut i: usize = 0;
    while i < v.len()
        invariant
            i <= v.len(),
            out@ == html_escaped(v@.take(i as int)),
        decreases v.len() - i,
    {
        let c = v[i];
        if c == '&' {
            out.append("&amp;");
        } else if c == '<' {
            out.append("&lt;");
        } else if c == '>' {
            out.append("&gt;");
        } else if c == '"' {
            out.append("&quot;");
        } else {
            push_char(&mut out, c);
            assert(out@ == html_escaped(v@.take(i as int)) + seq![c]);
        }
        proof {
            assert(v@.take(i + 1) == v@.take(i as int).push(c));
            v@.take(i as int).lemma_flat_map_push(|c: char| html_entity(c), c);
        }
        i = i + 1;
    }
    assert(v@.take(v.len() as int) == v@);
    out
}

/// Escapes a string for HTML.
pub fn html_escape(s: &str) -> (r: String)
    ensures
        r@ == html_escaped(s@),
{
    let v = chars_of(s);
    html_escape_chars(v.as_slice())
}

/// Lowercase rendering as `str::to_lowercase` produces it (Unicode `Lowercase`
/// mapping); the mapping itself is not restated here.
pub uninterp spec fn spec_lowercase(s: Seq<char>) -> Seq<char>;

/// Calls std `str::to_lowercase`. Claimed: the result is a function of the
/// characters of `s` alone, named `spec_lowercase`; nothing more is stated.
#[verifier::external_body]
pub(crate) fn to_lowercase(s: &str) -> (r: String)
    ensures
        r@ == spec_lowercase(s@),
{
    s.to_lowercase()
}

} // verus!

verus! {

/// Law: text escaped for HTML never holds a raw `<`, `>` or `"`.
pub proof fn lemma_html_escaped_safe(s: Seq<char>)
    ensures
        forall|i: int|
            0 <= i < html_escaped(s).len() ==> {
                let c = #[trigger] html_escaped(s)[i];
                c != '<' && c != '>' && c != '"'
            },
    decreases s.len(),
{
    if s.len() > 0 {
        let prev = s.drop_last();
        let c = s.last();
        lemma_html_escaped_safe(prev);
        assert(prev.push(c) == s);
        prev.lemma_flat_map_push(|c: char| html_entity(c), c);
        reveal_strlit("&amp;");
        reveal_strlit("&lt;");
        reveal_strlit("&gt;");
        reveal_strlit("&quot;");
        let e = html_entity(c);
        assert forall|k: int| 0 <= k < e.len() implies e[k] != '<' && e[k] != '>' && e[k] != '"' by {
        }
        let whole = html_escaped(prev) + e;
        assert(html_escaped(s) == whole);
        assert forall|i: int| 0 <= i < whole.len() implies whole[i] != '<' && whole[i] != '>'
            && whole[i] != '"' by {
            if i < html_escaped(prev).len() {
                assert(whole[i] == html_escaped(prev)[i]);
            } else {
                assert(whole[i] == e[i - html_escaped(prev).len()]);
            }
        }
    } else {
        assert(html_escaped(s) =~= Seq::<char>::empty());
    }
}

} // verus!

verus! {

// ---- Undoing the HTML escape ----------------------------------------------

/// The entities replaced in turn when HTML-escaped text is read back:
/// `&lt;`, `&gt;`, `&quot;` and, last, `&amp;`.
pub open spec fn unescape_pattern(k: nat) -> Seq<char> {
    if k == 0 {
        "&lt;"@
    } else if k == 1 {
        "&gt;"@
    } else if k == 2 {
        "&quot;"@
    } else {
        "&amp;"@
    }
}

/// The character each entity of `unescape_pattern` stands for.
pub open spec fn unescape_char(k: nat) -> char {
    if k == 0 {
        '<'
    } else if k == 1 {
        '>'
    } else if k == 2 {
        '"'
    } else {
        '&'
    }
}

/// HTML-escaped text read back: `&lt;`, `&gt;` and `&quot;` replaced by
/// `<`, `>` and `"`, then `&amp;` by `&`.
pub open spec fn html_unescaped(s: Seq<char>) -> Seq<char> {
    replace_all(
        replace_all(replace_all(replace_all(s, "&lt;"@, "<"@), "&gt;"@, ">"@), "&quot;"@, "\""@),
        "&amp;"@,
        "&"@,
    )
}

/// What a character of the original text has become once the first `k`
/// entities have been read back.
pub open spec fn partly_unescaped(c: char, k: nat) -> Seq<char> {
    if (c == '<' && k >= 1) || (c == '>' && k >= 2) || (c == '"' && k >= 3) || (c == '&' && k
        >= 4) {
        seq![c]
    } else {
        html_entity(c)
    }
}

pub open spec fn stage_map(k: nat) -> spec_fn(char) -> Seq<char> {
    |c: char| partly_unescaped(c, k)
}

proof fn lemma_flat_map_front(s: Seq<char>, f: spec_fn(char) -> Seq<char>)
    requires
        s.len() > 0,
    ensures
        s.flat_map(f) == f(s[0]) + s.drop_first().flat_map(f),
{
    assert(s.map_values(f).drop_first() =~= s.drop_first().map_values(f));
}

proof fn lemma_replace_step(s: Seq<char>, pat: Seq<char>, rep: Seq<char>)
    requires
        pat.len() > 0,
        s.len() > 0,
        !starts_with(s, pat),
    ensures
        replace_all(s, pat, rep) == seq![s[0]] + replace_all(s.drop_first(), pat, rep),
{
    if s.len() < pat.len() {
        assert(seq![s[0]] + s.drop_first() =~= s);
    }
}

proof fn lemma_replace_plain(x: Seq<char>, y: Seq<char>, pat: Seq<char>, rep: Seq<char>)
    requires
        pat.len() > 0,
        forall|i: int| 0 <= i < x.len() ==> x[i] != pat[0],
    ensures
        replace_all(x + y, pat, rep) == x + replace_all(y, pat, rep),
    decreases x.len(),
{
    if x.len() == 0 {
        assert(x + y =~= y);
        assert(x + replace_all(y, pat, rep) =~= replace_all(y, pat, rep));
    } else {
        let s = x + y;
        assert(s[0] == x[0]);
        assert(!starts_with(s, pat)) by {
            if 0 + pat.len() <= s.len() {
                assert(s.subrange(0, pat.len() as int)[0] == x[0]);
            }
        }
        lemma_replace_step(s, pat, rep);
        assert(s.drop_first() =~= x.drop_first() + y);
        lemma_replace_plain(x.drop_first(), y, pat, rep);
        assert(seq![x[0]] + (x.drop_first() + replace_all(y, pat, rep)) =~= x + replace_all(
            y,
            pat,
            rep,
        ));
    }
}

proof fn lemma_replace_entity(
    e: Seq<char>,
    y: Seq<char>,
    pat: Seq<char>,
    rep: Seq<char>,
    hit: bool,
)
    requires
        pat.len() >= 2,
        e.len() >= 2,
        e[0] == pat[0],
        hit ==> e =~= pat,
        !hit ==> e[1] != pat[1],
        forall|i: int| 1 <= i < e.len() ==> e[i] != pat[0],
    ensures
        replace_all(e + y, pat, rep) == (if hit {
            rep
        } else {
            e
        }) + replace_all(y, pat, rep),
{
    let s = e + y;
    if hit {
        assert(s.subrange(0, pat.len() as int) =~= pat);
        assert(s.skip(pat.len() as int) =~= y);
    } else {
        assert(!starts_with(s, pat)) by {
            if 0 + pat.len() <= s.len() {
                assert(s.subrange(0, pat.len() as int)[1] == e[1]);
            }
        }
        lemma_replace_step(s, pat, rep);
        assert(s.drop_first() =~= e.drop_first() + y);
        lemma_replace_plain(e.drop_first(), y, pat, rep);
        assert(seq![e[0]] + (e.drop_first() + replace_all(y, pat, rep)) =~= e + replace_all(
            y,
            pat,
            rep,
        ));
    }
}

proof fn lemma_unescape_char(c: char, k: nat, y: Seq<char>)
    requires
        k < 4,
    ensures
        replace_all(partly_unescaped(c, k) + y, unescape_pattern(k), seq![unescape_char(k)])
            == partly_unescaped(c, k + 1) + replace_all(
            y,
            unescape_pattern(k),
            seq![unescape_char(k)],
        ),
{
    reveal_strlit("&amp;");
    reveal_strlit("&lt;");
    reveal_strlit("&gt;");
    reveal_strlit("&quot;");
    let pat = unescape_pattern(k);
    let rep = seq![unescape_char(k)];
    let e = partly_unescaped(c, k);
    assert(pat.len() >= 4 && pat[0] == '&');
    if e.len() == 1 {
        assert(e[0] == c && c != '&');
        lemma_replace_plain(e, y, pat, rep);
        assert(partly_unescaped(c, k + 1) == e);
    } else {
        let hit = c == unescape_char(k);
        assert(forall|i: int| 1 <= i < e.len() ==> e[i] != pat[0]);
        if hit {
            assert(e =~= pat);
            assert(partly_unescaped(c, k + 1) =~= rep);
        } else {
            assert(e[1] != pat[1]);
            assert(partly_unescaped(c, k + 1) == e);
        }
        lemma_replace_entity(e, y, pat, rep, hit);
    }
}

proof fn lemma_unescape_stage(s: Seq<char>, k: nat)
    requires
        k < 4,
    ensures
        replace_all(s.flat_map(stage_map(k)), unescape_pattern(k), seq![unescape_char(k)])
            == s.flat_map(stage_map(k + 1)),
    decreases s.len(),
{
    let pat = unescape_pattern(k);
    let rep = seq![unescape_char(k)];
    if s.len() == 0 {
        assert(s.flat_map(stage_map(k)) =~= Seq::<char>::empty());
        assert(s.flat_map(stage_map(k + 1)) =~= Seq::<char>::empty());
    } else {
        lemma_flat_map_front(s, stage_map(k));
        lemma_flat_map_front(s, stage_map(k + 1));
        lemma_unescape_stage(s.drop_first(), k);
        lemma_unescape_char(s[0], k, s.drop_first().flat_map(stage_map(k)));
    }
}

proof fn lemma_flat_map_units(s: Seq<char>)
    ensures
        s.flat_map(stage_map(4)) == s,
    decreases s.len(),
{
    if s.len() == 0 {
        assert(s.flat_map(stage_map(4)) =~= s);
    } else {
        lemma_flat_map_front(s, stage_map(4));
        lemma_flat_map_units(s.drop_first());
        assert(partly_unescaped(s[0], 4) =~= seq![s[0]]);
        assert(seq![s[0]] + s.drop_first() =~= s);
    }
}

/// Law: reading escaped text back gives the text: replacing `&lt;`, `&gt;`
/// and `&quot;` in `html_escape(s)` by `<`, `>` and `"`, and then `&amp;` by
/// `&`, yields `s` again.
pub proof fn lemma_html_escape_round_trip(s: Seq<char>)
    ensures
        html_unescaped(html_escaped(s)) == s,
{
    reveal_strlit("&amp;");
    reveal_strlit("&lt;");
    reveal_strlit("&gt;");
    reveal_strlit("&quot;");
    reveal_strlit("<");
    reveal_strlit(">");
    reveal_strlit("\"");
    reveal_strlit("&");
    assert(stage_map(0) =~= (|c: char| html_entity(c)));
    assert(html_escaped(s) == s.flat_map(stage_map(0)));
    lemma_unescape_stage(s, 0);
    lemma_unescape_stage(s, 1);
    lemma_unescape_stage(s, 2);
    lemma_unescape_stage(s, 3);
    lemma_flat_map_units(s);
    assert("<"@ =~= seq![unescape_char(0)]);
    assert(">"@ =~= seq![unescape_char(1)]);
    assert("\""@ =~= seq![unescape_char(2)]);
    assert("&"@ =~= seq![unescape_char(3)]);
}

} // verus!
