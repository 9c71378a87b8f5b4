//! Character-level text handling shared by the command-output parsers.
//!
//! Text is modelled as `Seq<char>`; the executable helpers work on `Vec<char>`
//! and slices of `char`, and convert to and from `String` at the edges.
use vstd::prelude::*;

verus! {

// ---------------------------------------------------------------------------
// Specifications
// ---------------------------------------------------------------------------

/// The Unicode `White_Space` property, which `char::is_whitespace` tests.
pub open spec fn is_ws(c: char) -> bool {
    ||| ('\u{9}' <= c && c <= '\u{d}')
    ||| c == ' '
    ||| c == '\u{85}'
    ||| c == '\u{a0}'
    ||| c == '\u{1680}'
    ||| ('\u{2000}' <= c && c <= '\u{200a}')
    ||| c == '\u{2028}'
    ||| c == '\u{2029}'
    ||| c == '\u{202f}'
    ||| c == '\u{205f}'
    ||| c == '\u{3000}'
}

/// `s` with its leading whitespace removed.
pub open spec fn trim_start(s: Seq<char>) -> Seq<char>
    decreases s.len(),
{
    if s.len() > 0 && is_ws(s[0]) {
        trim_start(s.drop_first())
    } else {
        s
    }
}

/// `s` with its trailing whitespace removed.
pub open spec fn trim_end(s: Seq<char>) -> Seq<char>
    decreases s.len(),
{
    if s.len() > 0 && is_ws(s.last()) {
        trim_end(s.drop_last())
    } else {
        s
    }
}

/// `s` with leading and trailing whitespace removed (`str::trim`).
pub open spec fn trim(s: Seq<char>) -> Seq<char> {
    trim_end(trim_start(s))
}

pub open spec fn is_ascii_digit(c: char) -> bool {
    '0' <= c && c <= '9'
}

pub open spec fn is_ascii_hexdigit(c: char) -> bool {
    ||| is_ascii_digit(c)
    ||| ('a' <= c && c <= 'f')
    ||| ('A' <= c && c <= 'F')
}

/// The value of an ASCII hexadecimal digit.
pub open spec fn hex_digit_value(c: char) -> nat {
    if is_ascii_digit(c) {
        (c as nat - '0' as nat) as nat
    } else if 'a' <= c && c <= 'f' {
        (c as nat - 'a' as nat + 10) as nat
    } else {
        (c as nat - 'A' as nat + 10) as nat
    }
}

/// `char::to_ascii_lowercase`.
pub open spec fn ascii_lower(c: char) -> char {
    if 'A' <= c && c <= 'Z' {
        ((c as u32) + 32) as char
    } else {
        c
    }
}

/// `char::to_ascii_uppercase`.
pub open spec fn ascii_upper(c: char) -> char {
    if 'a' <= c && c <= 'z' {
        ((c as u32) - 32) as char
    } else {
        c
    }
}

pub open spec fn lower(s: Seq<char>) -> Seq<char> {
    s.map_values(|c: char| ascii_lower(c))
}

pub open spec fn upper(s: Seq<char>) -> Seq<char> {
    s.map_values(|c: char| ascii_upper(c))
}

/// `p` occurs in `s` starting at index `i`.
pub open spec fn occurs_at(s: Seq<char>, p: Seq<char>, i: int) -> bool {
    0 <= i && i + p.len() <= s.len() && s.subrange(i, i + p.len()) == p
}

pub open spec fn is_first_occurrence(s: Seq<char>, p: Seq<char>, i: int) -> bool {
    occurs_at(s, p, i) && forall|j: int| 0 <= j < i ==> !occurs_at(s, p, j)
}

/// The index of the first occurrence of `p` in `s` (`str::find`).
pub open spec fn find(s: Seq<char>, p: Seq<char>) -> Option<int> {
    if exists|i: int| occurs_at(s, p, i) {
        Some(choose|i: int| is_first_occurrence(s, p, i))
    } else {
        None
    }
}

/// `str::contains`.
pub open spec fn contains(s: Seq<char>, p: Seq<char>) -> bool {
    exists|i: int| occurs_at(s, p, i)
}

/// `str::starts_with`.
pub open spec fn starts_with(s: Seq<char>, p: Seq<char>) -> bool {
    p.len() <= s.len() && s.subrange(0, p.len() as int) == p
}

/// `str::ends_with`.
pub open spec fn ends_with(s: Seq<char>, p: Seq<char>) -> bool {
    p.len() <= s.len() && s.subrange(s.len() - p.len(), s.len() as int) == p
}

/// `str::strip_prefix`.
pub open spec fn strip_prefix(s: Seq<char>, p: Seq<char>) -> Option<Seq<char>> {
    if starts_with(s, p) {
        Some(s.subrange(p.len() as int, s.len() as int))
    } else {
        None
    }
}

/// `str::trim_start_matches` for a non-empty pattern: every leading copy removed.
pub open spec fn trim_start_matches(s: Seq<char>, p: Seq<char>) -> Seq<char>
    decreases s.len(),
{
    if p.len() > 0 && starts_with(s, p) {
        trim_start_matches(s.subrange(p.len() as int, s.len() as int), p)
    } else {
        s
    }
}

/// `str::trim_end_matches` for one character.
pub open spec fn trim_end_char(s: Seq<char>, c: char) -> Seq<char>
    decreases s.len(),
{
    if s.len() > 0 && s.last() == c {
        trim_end_char(s.drop_last(), c)
    } else {
        s
    }
}

/// `str::trim_start_matches` for one character.
pub open spec fn trim_start_char(s: Seq<char>, c: char) -> Seq<char>
    decreases s.len(),
{
    if s.len() > 0 && s[0] == c {
        trim_start_char(s.drop_first(), c)
    } else {
        s
    }
}

pub open spec fn is_first_char(s: Seq<char>, c: char, i: int) -> bool {
    0 <= i < s.len() && s[i] == c && forall|j: int| 0 <= j < i ==> s[j] != c
}

/// The index of the first `c` in `s`.
pub open spec fn find_char(s: Seq<char>, c: char) -> Option<int> {
    if exists|i: int| 0 <= i < s.len() && s[i] == c {
        Some(choose|i: int| is_first_char(s, c, i))
    } else {
        None
    }
}

/// `str::split_once` with a character separator.
pub open spec fn split_once(s: Seq<char>, c: char) -> Option<(Seq<char>, Seq<char>)> {
    match find_char(s, c) {
        Some(i) => Some((s.subrange(0, i), s.subrange(i + 1, s.len() as int))),
        None => None,
    }
}

/// The pieces of `s` between occurrences of `c` (`str::split`).
pub open spec fn split_char(s: Seq<char>, c: char) -> Seq<Seq<char>>
    decreases s.len(),
{
    if s.len() == 0 {
        seq![Seq::<char>::empty()]
    } else {
        let rest = split_char(s.drop_last(), c);
        if s.last() == c {
            rest.push(Seq::<char>::empty())
        } else {
            rest.update(rest.len() - 1, rest.last().push(s.last()))
        }
    }
}

/// The pieces of `s` between whitespace characters.
pub open spec fn split_ws_pieces(s: Seq<char>) -> Seq<Seq<char>>
    decreases s.len(),
{
    if s.len() == 0 {
        seq![Seq::<char>::empty()]
    } else {
        let rest = split_ws_pieces(s.drop_last());
        if is_ws(s.last()) {
            rest.push(Seq::<char>::empty())
        } else {
            rest.update(rest.len() - 1, rest.last().push(s.last()))
        }
    }
}

pub open spec fn nonempty_piece() -> spec_fn(Seq<char>) -> bool {
    |p: Seq<char>| p.len() > 0
}

/// `str::split_whitespace`: the non-empty pieces between whitespace.
pub open spec fn split_whitespace(s: Seq<char>) -> Seq<Seq<char>> {
    split_ws_pieces(s).filter(nonempty_piece())
}

/// The views of a vector of character vectors.
pub open spec fn seqs(v: Seq<Vec<char>>) -> Seq<Seq<char>> {
    v.map_values(|x: Vec<char>| x@)
}

pub open spec fn strip_cr(l: Seq<char>) -> Seq<char> {
    if l.len() > 0 && l.last() == '\r' {
        l.drop_last()
    } else {
        l
    }
}

/// `str::lines`: the pieces between `'\n'`, each with one `'\r'` before its
/// `'\n'` removed, without an empty piece after a final `'\n'`.
pub open spec fn lines(s: Seq<char>) -> Seq<Seq<char>> {
    let p = split_char(s, '\n');
    let ended = p.drop_last().map_values(|l: Seq<char>| strip_cr(l));
    if p.last().len() == 0 {
        ended
    } else {
        ended.push(p.last())
    }
}

/// The value of a string of digits in the given radix.
pub open spec fn radix_value(s: Seq<char>, radix: nat) -> nat
    decreases s.len(),
{
    if s.len() == 0 {
        0
    } else {
        radix_value(s.drop_last(), radix) * radix + hex_digit_value(s.last())
    }
}

pub open spec fn all_digits(s: Seq<char>) -> bool {
    forall|i: int| 0 <= i < s.len() ==> is_ascii_digit(#[trigger] s[i])
}

pub open spec fn all_hexdigits(s: Seq<char>) -> bool {
    forall|i: int| 0 <= i < s.len() ==> is_ascii_hexdigit(#[trigger] s[i])
}

/// The digits after an optional leading `'+'`.
pub open spec fn unsigned_body(s: Seq<char>) -> Seq<char> {
    if s.len() > 0 && s[0] == '+' {
        s.drop_first()
    } else {
        s
    }
}

/// `str::parse::<u32>`.
pub open spec fn parse_u32(s: Seq<char>) -> Option<u32> {
    let d = unsigned_body(s);
    if d.len() > 0 && all_digits(d) && radix_value(d, 10) <= u32::MAX {
        Some(radix_value(d, 10) as u32)
    } else {
        None
    }
}

/// `str::parse::<i32>`.
pub open spec fn parse_i32(s: Seq<char>) -> Option<i32> {
    if s.len() > 0 && s[0] == '-' {
        let d = s.drop_first();
        if d.len() > 0 && all_digits(d) && radix_value(d, 10) <= 0x8000_0000 {
            Some((0 - radix_value(d, 10)) as i32)
        } else {
            None
        }
    } else {
        let d = unsigned_body(s);
        if d.len() > 0 && all_digits(d) && radix_value(d, 10) <= i32::MAX {
            Some(radix_value(d, 10) as i32)
        } else {
            None
        }
    }
}

/// `u8::from_str_radix(s, 16)`.
pub open spec fn parse_hex_u8(s: Seq<char>) -> Option<u8> {
    let d = unsigned_body(s);
    if d.len() > 0 && all_hexdigits(d) && radix_value(d, 16) <= 255 {
        Some(radix_value(d, 16) as u8)
    } else {
        None
    }
}

pub open spec fn digit_char(d: nat) -> char {
    (('0' as nat) + d) as char
}

/// Decimal representation of `n` without leading zeros.
pub open spec fn dec(n: nat) -> Seq<char>
    decreases n,
{
    if n < 10 {
        seq![digit_char(n)]
    } else {
        dec(n / 10).push(digit_char(n % 10))
    }
}

/// Decimal representation of a signed integer.
pub open spec fn dec_int(n: int) -> Seq<char> {
    if n < 0 {
        seq!['-'] + dec((0 - n) as nat)
    } else {
        dec(n as nat)
    }
}

pub open spec fn lower_hex_char(d: nat) -> char {
    if d < 10 {
        digit_char(d)
    } else {
        (('a' as nat) + (d - 10)) as char
    }
}

/// `format!("0x{:02x}", v)`.
pub open spec fn hex_byte(v: u8) -> Seq<char> {
    seq!['0', 'x', lower_hex_char(v as nat / 16), lower_hex_char(v as nat % 16)]
}

/// Every `from` in `s` replaced by `to` (`str::replace` with a character pattern).
pub open spec fn replace_char(s: Seq<char>, from: char, to: Seq<char>) -> Seq<char>
    decreases s.len(),
{
    if s.len() == 0 {
        s
    } else if s.last() == from {
        replace_char(s.drop_last(), from, to) + to
    } else {
        replace_char(s.drop_last(), from, to).push(s.last())
    }
}

/// The pieces joined with `sep` between them (`[String]::join`).
pub open spec fn join(pieces: Seq<Seq<char>>, sep: Seq<char>) -> Seq<char>
    decreases pieces.len(),
{
    if pieces.len() == 0 {
        Seq::empty()
    } else if pieces.len() == 1 {
        pieces[0]
    } else {
        join(pieces.drop_last(), sep) + sep + pieces.last()
    }
}

/// The views of a vector of strings.
pub open spec fn views(v: Seq<String>) -> Seq<Seq<char>> {
    v.map_values(|s: String| s@)
}


// ---------------------------------------------------------------------------
// Lemmas
// ---------------------------------------------------------------------------

pub proof fn lemma_trim_start_at(s: Seq<char>, i: int)
    requires
        0 <= i <= s.len(),
        forall|k: int| 0 <= k < i ==> is_ws(#[trigger] s[k]),
        i == s.len() || !is_ws(s[i]),
    ensures
        trim_start(s) == s.subrange(i, s.len() as int),
    decreases i,
{
    if i == 0 {
        assert(s.subrange(0, s.len() as int) =~= s);
    } else {
        let t = s.drop_first();
        assert forall|k: int| 0 <= k < i - 1 implies is_ws(#[trigger] t[k]) by {
            assert(t[k] == s[k + 1]);
        }
        lemma_trim_start_at(t, i - 1);
        assert(t.subrange(i - 1, t.len() as int) =~= s.subrange(i, s.len() as int));
    }
}

pub proof fn lemma_trim_end_at(s: Seq<char>, j: int)
    requires
        0 <= j <= s.len(),
        forall|k: int| j <= k < s.len() ==> is_ws(#[trigger] s[k]),
        j == 0 || !is_ws(s[j - 1]),
    ensures
        trim_end(s) == s.subrange(0, j),
    decreases s.len() - j,
{
    if j == s.len() {
        assert(s.subrange(0, j) =~= s);
    } else {
        let t = s.drop_last();
        lemma_trim_end_at(t, j);
        assert(t.subrange(0, j) =~= s.subrange(0, j));
    }
}

pub proof fn lemma_find_is(s: Seq<char>, p: Seq<char>, i: int)
    requires
        is_first_occurrence(s, p, i),
    ensures
        find(s, p) == Some(i),
{
    assert(exists|k: int| occurs_at(s, p, k));
    let k = choose|k: int| is_first_occurrence(s, p, k);
    assert(is_first_occurrence(s, p, k));
    if k < i {
        assert(!occurs_at(s, p, k));
    } else if i < k {
        assert(!occurs_at(s, p, i));
    }
}

pub proof fn lemma_find_char_is(s: Seq<char>, c: char, i: int)
    requires
        is_first_char(s, c, i),
    ensures
        find_char(s, c) == Some(i),
{
    assert(exists|k: int| 0 <= k < s.len() && s[k] == c);
    let k = choose|k: int| is_first_char(s, c, k);
    assert(is_first_char(s, c, k));
    if k < i {
        assert(s[k] != c);
    } else if i < k {
        assert(s[i] != c);
    }
}

// ---------------------------------------------------------------------------
// Executable helpers
// ---------------------------------------------------------------------------

/// Appends one character to a `String` by `String::push`. The contract claims
/// what std documents of it: the text afterwards is the old text with `c` at
/// its end.
#[verifier::external_body]
pub(crate) fn push_char(s: &mut String, c: char)
    ensures
        final(s)@ == old(s)@.push(c),
{
    s.push(c);
}

/// The characters of a string slice.
pub fn chars_of(s: &str) -> (r: Vec<char>)
    ensures
        r@ == s@,
{
    let n = s.unicode_len();
    let mut r: Vec<char> = Vec::new();
    let mut i: usize = 0;
    while i < n
        invariant
            n == s@.len(),
            i <= n,
            r@ == s@.subrange(0, i as int),
        decreases n - i,
    {
        r.push(s.get_char(i));
        i += 1;
    }
    assert(r@ =~= s@);
    r
}

/// A `String` holding the given characters.
pub fn to_string(v: &[char]) -> (r: String)
    ensures
        r@ == v@,
{
    let mut r = String::new();
    let mut i: usize = 0;
    while i < v.len()
        invariant
            i <= v@.len(),
            r@ == v@.subrange(0, i as int),
        decreases v@.len() - i,
    {
        push_char(&mut r, v[i]);
        assert(v@.subrange(0, i + 1) =~= v@.subrange(0, i as int).push(v@[i as int]));
        i += 1;
    }
    assert(r@ =~= v@);
    r
}

/// `char::is_whitespace`.
pub fn is_whitespace(c: char) -> (b: bool)
    ensures
        b == is_ws(c),
{
    ('\u{9}' <= c && c <= '\u{d}') || c == ' ' || c == '\u{85}' || c == '\u{a0}' || c
        == '\u{1680}' || ('\u{2000}' <= c && c <= '\u{200a}') || c == '\u{2028}' || c
        == '\u{2029}' || c == '\u{202f}' || c == '\u{205f}' || c == '\u{3000}'
}

pub fn is_hexdigit(c: char) -> (b: bool)
    ensures
        b == is_ascii_hexdigit(c),
{
    ('0' <= c && c <= '9') || ('a' <= c && c <= 'f') || ('A' <= c && c <= 'F')
}

/// The characters `s[a..b]`.
pub fn copy_range(s: &[char], a: usize, b: usize) -> (r: Vec<char>)
    requires
        a <= b <= s@.len(),
    ensures
        r@ == s@.subrange(a as int, b as int),
{
    let mut r: Vec<char> = Vec::new();
    let mut i = a;
    while i < b
        invariant
            a <= i <= b <= s@.len(),
            r@ == s@.subrange(a as int, i as int),
        decreases b - i,
    {
        r.push(s[i]);
        assert(s@.subrange(a as int, i + 1) =~= s@.subrange(a as int, i as int).push(s@[i as int]));
        i += 1;
    }
    r
}

/// Appends `t` to `out`.
pub fn push_all(out: &mut Vec<char>, t: &[char])
    ensures
        final(out)@ == old(out)@ + t@,
{
    let mut i: usize = 0;
    while i < t.len()
        invariant
            i <= t@.len(),
            out@ == old(out)@ + t@.subrange(0, i as int),
        decreases t@.len() - i,
    {
        out.push(t[i]);
        assert(t@.subrange(0, i + 1) =~= t@.subrange(0, i as int).push(t@[i as int]));
        i += 1;
    }
    assert(t@.subrange(0, t@.len() as int) =~= t@);
}

/// Appends the characters of `t` to `out`.
pub fn push_str(out: &mut Vec<char>, t: &str)
    ensures
        final(out)@ == old(out)@ + t@,
{
    let v = chars_of(t);
    push_all(out, v.as_slice());
}

/// `str::trim`.
pub fn trim_chars(s: &[char]) -> (r: Vec<char>)
    ensures
        r@ == trim(s@),
{
    let n = s.len();
    let mut i: usize = 0;
    while i < n && is_whitespace(s[i])
        invariant
            n == s@.len(),
            i <= n,
            forall|k: int| 0 <= k < i ==> is_ws(#[trigger] s@[k]),
        decreases n - i,
    {
        i += 1;
    }
    proof {
        lemma_trim_start_at(s@, i as int);
    }
    let ghost t = s@.subrange(i as int, n as int);
    let mut j: usize = n;
    while j > i && is_whitespace(s[j - 1])
        invariant
            n == s@.len(),
            i <= j <= n,
            t == s@.subrange(i as int, n as int),
            forall|k: int| j <= k < n ==> is_ws(#[trigger] s@[k]),
        decreases j,
    {
        j -= 1;
    }
    proof {
        assert forall|k: int| j - i <= k < t.len() implies is_ws(#[trigger] t[k]) by {
            assert(t[k] == s@[k + i]);
        }
        lemma_trim_end_at(t, j - i);
        assert(t.subrange(0, j - i) =~= s@.subrange(i as int, j as int));
    }
    copy_range(s, i, j)
}

/// `str::trim` on a string slice.
pub fn trim_str(s: &str) -> (r: Vec<char>)
    ensures
        r@ == trim(s@),
{
    let v = chars_of(s);
    trim_chars(v.as_slice())
}

/// Whether `p` occurs in `s` at index `i`.
pub fn matches_at(s: &[char], p: &[char], i: usize) -> (b: bool)
    ensures
        b == occurs_at(s@, p@, i as int),
{
    if i > s.len() || p.len() > s.len() - i {
        return false;
    }
    let mut k: usize = 0;
    while k < p.len()
        invariant
            i + p@.len() <= s@.len(),
            s@.len() <= usize::MAX,
            k <= p@.len(),
            forall|m: int| 0 <= m < k ==> s@[i + m] == p@[m],
        decreases p@.len() - k,
    {
        if s[i + k] != p[k] {
            assert(s@.subrange(i as int, i + p@.len())[k as int] != p@[k as int]);
            return false;
        }
        k += 1;
    }
    assert(s@.subrange(i as int, i + p@.len()) =~= p@);
    true
}

/// `str::find`.
pub fn find_chars(s: &[char], p: &[char]) -> (r: Option<usize>)
    ensures
        match r {
            Some(i) => find(s@, p@) == Some(i as int) && is_first_occurrence(s@, p@, i as int),
            None => find(s@, p@) is None && !contains(s@, p@),
        },
{
    let mut i: usize = 0;
    while i < s.len()
        invariant
            i <= s@.len(),
            forall|j: int| 0 <= j < i ==> !occurs_at(s@, p@, j),
        decreases s@.len() - i,
    {
        if matches_at(s, p, i) {
            proof {
                lemma_find_is(s@, p@, i as int);
            }
            return Some(i);
        }
        i += 1;
    }
    if matches_at(s, p, i) {
        proof {
            lemma_find_is(s@, p@, i as int);
        }
        return Some(i);
    }
    assert forall|j: int| !occurs_at(s@, p@, j) by {
        if 0 <= j && j < i {
        } else if j > i {
            assert(j + p@.len() > s@.len());
        }
    }
    None
}

/// `str::contains`.
pub fn contains_chars(s: &[char], p: &[char]) -> (b: bool)
    ensures
        b == contains(s@, p@),
{
    match find_chars(s, p) {
        Some(i) => true,
        None => false,
    }
}

/// `str::contains` with a literal pattern.
pub fn contains_str(s: &[char], p: &str) -> (b: bool)
    ensures
        b == contains(s@, p@),
{
    let pv = chars_of(p);
    contains_chars(s, pv.as_slice())
}

/// `str::starts_with`.
pub fn starts_with_chars(s: &[char], p: &[char]) -> (b: bool)
    ensures
        b == starts_with(s@, p@),
{
    let b = matches_at(s, p, 0);
    assert(b == starts_with(s@, p@));
    b
}

/// `str::starts_with` with a literal pattern.
pub fn starts_with_str(s: &[char], p: &str) -> (b: bool)
    ensures
        b == starts_with(s@, p@),
{
    let pv = chars_of(p);
    starts_with_chars(s, pv.as_slice())
}

/// `str::ends_with`.
pub fn ends_with_chars(s: &[char], p: &[char]) -> (b: bool)
    ensures
        b == ends_with(s@, p@),
{
    if p.len() > s.len() {
        return false;
    }
    matches_at(s, p, s.len() - p.len())
}

/// `str::strip_prefix` with a literal pattern.
pub fn strip_prefix_str(s: &[char], p: &str) -> (r: Option<Vec<char>>)
    ensures
        match r {
            Some(v) => strip_prefix(s@, p@) == Some(v@),
            None => strip_prefix(s@, p@) is None,
        },
{
    let pv = chars_of(p);
    if starts_with_chars(s, pv.as_slice()) {
        Some(copy_range(s, pv.len(), s.len()))
    } else {
        None
    }
}

/// `str::to_ascii_lowercase`.
pub fn lower_chars(s: &[char]) -> (r: Vec<char>)
    ensures
        r@ == lower(s@),
{
    let mut r: Vec<char> = Vec::new();
    let mut i: usize = 0;
    while i < s.len()
        invariant
            i <= s@.len(),
            r@ == lower(s@.subrange(0, i as int)),
        decreases s@.len() - i,
    {
        let c = s[i];
        let l = if 'A' <= c && c <= 'Z' {
            char_add(c, 32)
        } else {
            c
        };
        r.push(l);
        assert(lower(s@.subrange(0, i + 1)) =~= lower(s@.subrange(0, i as int)).push(ascii_lower(c)));
        i += 1;
    }
    assert(s@.subrange(0, s@.len() as int) =~= s@);
    r
}

/// `str::to_ascii_uppercase`.
pub fn upper_chars(s: &[char]) -> (r: Vec<char>)
    ensures
        r@ == upper(s@),
{
    let mut r: Vec<char> = Vec::new();
    let mut i: usize = 0;
    while i < s.len()
        invariant
            i <= s@.len(),
            r@ == upper(s@.subrange(0, i as int)),
        decreases s@.len() - i,
    {
        let c = s[i];
        let u = if 'a' <= c && c <= 'z' {
            char_sub(c, 32)
        } else {
            c
        };
        r.push(u);
        assert(upper(s@.subrange(0, i + 1)) =~= upper(s@.subrange(0, i as int)).push(ascii_upper(c)));
        i += 1;
    }
    assert(s@.subrange(0, s@.len() as int) =~= s@);
    r
}

/// The ASCII character `k` places after `c`.
fn char_add(c: char, k: u8) -> (r: char)
    requires
        'A' <= c && c <= 'Z',
        k == 32,
    ensures
        r == ((c as u32) + 32) as char,
{
    ((c as u8) + k) as char
}

/// The ASCII character `k` places before `c`.
fn char_sub(c: char, k: u8) -> (r: char)
    requires
        'a' <= c && c <= 'z',
        k == 32,
    ensures
        r == ((c as u32) - 32) as char,
{
    ((c as u8) - k) as char
}

/// `str::find` with a character pattern.
pub fn find_char_in(s: &[char], c: char) -> (r: Option<usize>)
    ensures
        match r {
            Some(i) => find_char(s@, c) == Some(i as int) && is_first_char(s@, c, i as int),
            None => find_char(s@, c) is None && forall|k: int| 0 <= k < s@.len() ==> s@[k] != c,
        },
{
    let mut i: usize = 0;
    while i < s.len()
        invariant
            i <= s@.len(),
            forall|k: int| 0 <= k < i ==> s@[k] != c,
        decreases s@.len() - i,
    {
        if s[i] == c {
            proof {
                lemma_find_char_is(s@, c, i as int);
            }
            return Some(i);
        }
        i += 1;
    }
    None
}

/// `str::split_once` with a character separator.
pub fn split_once_char(s: &[char], c: char) -> (r: Option<(Vec<char>, Vec<char>)>)
    ensures
        match r {
            Some((a, b)) => split_once(s@, c) == Some((a@, b@)),
            None => split_once(s@, c) is None,
        },
{
    match find_char_in(s, c) {
        Some(i) => {
            let n = s.len();
            Some((copy_range(s, 0, i), copy_range(s, i + 1, n)))
        },
        None => None,
    }
}

/// `str::split` with a character separator.
pub fn split_char_chars(s: &[char], c: char) -> (r: Vec<Vec<char>>)
    ensures
        seqs(r@) == split_char(s@, c),
        r@.len() >= 1,
{
    let mut done: Vec<Vec<char>> = Vec::new();
    let mut cur: Vec<char> = Vec::new();
    let mut i: usize = 0;
    while i < s.len()
        invariant
            i <= s@.len(),
            split_char(s@.subrange(0, i as int), c) == seqs(done@).push(cur@),
        decreases s@.len() - i,
    {
        let x = s[i];
        let ghost before = s@.subrange(0, i as int);
        assert(s@.subrange(0, i + 1).drop_last() =~= before);
        if x == c {
            let ghost old_done = done@;
            done.push(cur);
            cur = Vec::new();
            assert(seqs(done@) =~= seqs(old_done).push(seqs(done@).last()));
        } else {
            cur.push(x);
        }
        i += 1;
        assert(split_char(s@.subrange(0, i as int), c) =~= seqs(done@).push(cur@));
    }
    assert(s@.subrange(0, s@.len() as int) =~= s@);
    let ghost old_done = done@;
    done.push(cur);
    assert(seqs(done@) =~= seqs(old_done).push(seqs(done@).last()));
    done
}

/// `str::lines`.
pub fn split_lines(s: &[char]) -> (r: Vec<Vec<char>>)
    ensures
        seqs(r@) == lines(s@),
{
    let pieces = split_char_chars(s, '\n');
    let ghost p = split_char(s@, '\n');
    let n = pieces.len();
    let mut out: Vec<Vec<char>> = Vec::new();
    let mut i: usize = 0;
    while i + 1 < n
        invariant
            n == pieces@.len(),
            n >= 1,
            seqs(pieces@) == p,
            i + 1 <= n,
            seqs(out@) == p.drop_last().map_values(|l: Seq<char>| strip_cr(l)).subrange(0, i as int),
        decreases n - i,
    {
        let piece = &pieces[i];
        let m = piece.len();
        let line = if m > 0 && piece[m - 1] == '\r' {
            copy_range(piece.as_slice(), 0, m - 1)
        } else {
            copy_range(piece.as_slice(), 0, m)
        };
        proof {
            assert(p[i as int] == piece@);
            if m > 0 && piece@[m - 1] == '\r' {
                assert(line@ =~= strip_cr(piece@));
            } else {
                assert(line@ =~= strip_cr(piece@));
            }
        }
        let ghost old_out = out@;
        let ghost lv = line@;
        out.push(line);
        assert(seqs(out@) =~= seqs(old_out).push(lv));
        i += 1;
        assert(seqs(out@) =~= p.drop_last().map_values(|l: Seq<char>| strip_cr(l)).subrange(0, i as int));
    }
    let last = &pieces[n - 1];
    assert(p.last() == last@);
    assert(p.drop_last().map_values(|l: Seq<char>| strip_cr(l)).subrange(0, i as int) =~= p.drop_last().map_values(|l: Seq<char>| strip_cr(l)));
    if last.len() > 0 {
        let copy = copy_range(last.as_slice(), 0, last.len());
        assert(copy@ =~= last@);
        let ghost old_out = out@;
        out.push(copy);
        assert(seqs(out@) =~= seqs(old_out).push(last@));
    }
    out
}

/// `str::split_whitespace`.
pub fn split_ws(s: &[char]) -> (r: Vec<Vec<char>>)
    ensures
        seqs(r@) == split_whitespace(s@),
{
    let mut tokens: Vec<Vec<char>> = Vec::new();
    let mut cur: Vec<char> = Vec::new();
    let ghost mut pdone: Seq<Seq<char>> = Seq::empty();
    let mut i: usize = 0;
    reveal(Seq::filter);
    while i < s.len()
        invariant
            i <= s@.len(),
            split_ws_pieces(s@.subrange(0, i as int)) == pdone.push(cur@),
            seqs(tokens@) == pdone.filter(nonempty_piece()),
        decreases s@.len() - i,
    {
        let x = s[i];
        let ghost before = s@.subrange(0, i as int);
        assert(s@.subrange(0, i + 1).drop_last() =~= before);
        if is_whitespace(x) {
            proof {
                reveal(Seq::filter);
                assert(pdone.push(cur@).drop_last() =~= pdone);
            }
            if cur.len() > 0 {
                let ghost old_t = tokens@;
                let ghost c = cur@;
                tokens.push(cur);
                assert(seqs(tokens@) =~= seqs(old_t).push(c));
            }
            proof {
                pdone = pdone.push(cur@);
            }
            cur = Vec::new();
        } else {
            cur.push(x);
        }
        i += 1;
        assert(split_ws_pieces(s@.subrange(0, i as int)) =~= pdone.push(cur@));
    }
    assert(s@.subrange(0, s@.len() as int) =~= s@);
    assert(pdone.push(cur@).drop_last() =~= pdone);
    reveal(Seq::filter);
    if cur.len() > 0 {
        let ghost old_t = tokens@;
        let ghost c = cur@;
        tokens.push(cur);
        assert(seqs(tokens@) =~= seqs(old_t).push(c));
    }
    tokens
}

pub proof fn lemma_radix_value_prefix(d: Seq<char>, i: int, radix: nat)
    requires
        0 <= i <= d.len(),
        radix >= 1,
    ensures
        radix_value(d.subrange(0, i), radix) <= radix_value(d, radix),
    decreases d.len() - i,
{
    if i < d.len() {
        lemma_radix_value_prefix(d.drop_last(), i, radix);
        assert(d.drop_last().subrange(0, i) =~= d.subrange(0, i));
        let v = radix_value(d.drop_last(), radix);
        assert(v * radix >= v) by (nonlinear_arith)
            requires
                radix >= 1,
                v >= 0,
        ;
    } else {
        assert(d.subrange(0, i) =~= d);
    }
}

/// Accumulates the digits `s[start..]` in the given radix, up to `max`.
fn parse_digits(s: &[char], start: usize, radix: u64, max: u64) -> (r: Option<u64>)
    requires
        start <= s@.len(),
        radix == 10 || radix == 16,
        max <= 0xffff_ffff,
    ensures
        ({
            let d = s@.subrange(start as int, s@.len() as int);
            let ok = if radix == 10 { all_digits(d) } else { all_hexdigits(d) };
            match r {
                Some(v) => ok && v == radix_value(d, radix as nat) && v <= max,
                None => !(ok && radix_value(d, radix as nat) <= max),
            }
        }),
{
    let ghost d = s@.subrange(start as int, s@.len() as int);
    let mut i = start;
    while i < s.len()
        invariant
            start <= i <= s@.len(),
            d == s@.subrange(start as int, s@.len() as int),
            radix == 10 || radix == 16,
            forall|k: int| start <= k < i ==> (if radix == 10 { is_ascii_digit(#[trigger] s@[k]) } else { is_ascii_hexdigit(s@[k]) }),
        decreases s@.len() - i,
    {
        let c = s[i];
        let ok = if radix == 10 { '0' <= c && c <= '9' } else { is_hexdigit(c) };
        if !ok {
            assert(d[i - start] == c);
            return None;
        }
        i += 1;
    }
    let mut acc: u64 = 0;
    let mut j = start;
    while j < s.len()
        invariant
            start <= j <= s@.len(),
            d == s@.subrange(start as int, s@.len() as int),
            radix == 10 || radix == 16,
            max <= 0xffff_ffff,
            forall|k: int| start <= k < s@.len() ==> (if radix == 10 { is_ascii_digit(#[trigger] s@[k]) } else { is_ascii_hexdigit(s@[k]) }),
            acc == radix_value(s@.subrange(start as int, j as int), radix as nat),
            acc <= max,
        decreases s@.len() - j,
    {
        let c = s[j];
        let dv: u64 = if '0' <= c && c <= '9' {
            (c as u64) - ('0' as u64)
        } else if 'a' <= c && c <= 'f' {
            (c as u64) - ('a' as u64) + 10
        } else {
            (c as u64) - ('A' as u64) + 10
        };
        assert(s@.subrange(start as int, j + 1).drop_last() =~= s@.subrange(start as int, j as int));
        assert(dv == hex_digit_value(c));
        assert(acc * radix <= 0xffff_ffff * 16) by (nonlinear_arith)
            requires
                acc <= 0xffff_ffff,
                radix <= 16,
        ;
        let next = acc * radix + dv;
        if next > max {
            proof {
                lemma_radix_value_prefix(d, j + 1 - start, radix as nat);
                assert(d.subrange(0, j + 1 - start) =~= s@.subrange(start as int, j + 1));
            }
            return None;
        }
        acc = next;
        j += 1;
    }
    assert(s@.subrange(start as int, s@.len() as int) =~= d);
    Some(acc)
}

/// `str::parse::<u32>`.
pub fn parse_u32_chars(s: &[char]) -> (r: Option<u32>)
    ensures
        r == parse_u32(s@),
{
    let start: usize = if s.len() > 0 && s[0] == '+' { 1 } else { 0 };
    assert(unsigned_body(s@) =~= s@.subrange(start as int, s@.len() as int));
    if start == s.len() {
        return None;
    }
    match parse_digits(s, start, 10, 0xffff_ffff) {
        Some(v) => Some(v as u32),
        None => None,
    }
}

/// `str::parse::<i32>`.
pub fn parse_i32_chars(s: &[char]) -> (r: Option<i32>)
    ensures
        r == parse_i32(s@),
{
    if s.len() > 0 && s[0] == '-' {
        assert(s@.drop_first() =~= s@.subrange(1, s@.len() as int));
        if s.len() == 1 {
            return None;
        }
        match parse_digits(s, 1, 10, 0x8000_0000) {
            Some(v) => Some((0 - (v as i64)) as i32),
            None => None,
        }
    } else {
        let start: usize = if s.len() > 0 && s[0] == '+' { 1 } else { 0 };
        assert(unsigned_body(s@) =~= s@.subrange(start as int, s@.len() as int));
        if start == s.len() {
            return None;
        }
        match parse_digits(s, start, 10, 0x7fff_ffff) {
            Some(v) => Some(v as i32),
            None => None,
        }
    }
}

/// `u8::from_str_radix(s, 16)`.
pub fn parse_hex_u8_chars(s: &[char]) -> (r: Option<u8>)
    ensures
        r == parse_hex_u8(s@),
{
    let start: usize = if s.len() > 0 && s[0] == '+' { 1 } else { 0 };
    assert(unsigned_body(s@) =~= s@.subrange(start as int, s@.len() as int));
    if start == s.len() {
        return None;
    }
    match parse_digits(s, start, 16, 255) {
        Some(v) => Some(v as u8),
        None => None,
    }
}

fn digit(d: u64) -> (c: char)
    requires
        d < 16,
    ensures
        c == lower_hex_char(d as nat),
        d < 10 ==> c == digit_char(d as nat),
{
    match d {
        0 => '0',
        1 => '1',
        2 => '2',
        3 => '3',
        4 => '4',
        5 => '5',
        6 => '6',
        7 => '7',
        8 => '8',
        9 => '9',
        10 => 'a',
        11 => 'b',
        12 => 'c',
        13 => 'd',
        14 => 'e',
        _ => 'f',
    }
}

/// Appends the decimal digits of `n`.
pub fn push_dec(out: &mut Vec<char>, n: u64)
    ensures
        final(out)@ == old(out)@ + dec(n as nat),
    decreases n,
{
    if n >= 10 {
        push_dec(out, n / 10);
    }
    let c = digit(n % 10);
    out.push(c);
    if n < 10 {
        assert(old(out)@ + dec(n as nat) =~= old(out)@.push(c));
    } else {
        assert(old(out)@ + dec(n as nat) =~= old(out)@ + dec((n / 10) as nat) + seq![c]);
    }
}

/// Appends the decimal digits of a signed number.
pub fn push_dec_signed(out: &mut Vec<char>, n: i64)
    requires
        n > i64::MIN,
    ensures
        final(out)@ == old(out)@ + dec_int(n as int),
{
    if n < 0 {
        out.push('-');
        push_dec(out, (0 - n) as u64);
        assert(final(out)@ =~= old(out)@ + dec_int(n as int));
    } else {
        push_dec(out, n as u64);
    }
}

/// `format!("0x{:02x}", v)`.
pub fn push_hex_byte(out: &mut Vec<char>, v: u8)
    ensures
        final(out)@ == old(out)@ + hex_byte(v),
{
    out.push('0');
    out.push('x');
    out.push(digit((v / 16) as u64));
    out.push(digit((v % 16) as u64));
    assert(final(out)@ =~= old(out)@ + hex_byte(v));
}

pub proof fn lemma_trim_start_matches_step(s: Seq<char>, p: Seq<char>, pos: int)
    requires
        p.len() > 0,
        0 <= pos <= s.len(),
        starts_with(s.subrange(pos, s.len() as int), p),
    ensures
        trim_start_matches(s.subrange(pos, s.len() as int), p) == trim_start_matches(
            s.subrange(pos + p.len(), s.len() as int),
            p,
        ),
{
    assert(s.subrange(pos, s.len() as int).subrange(p.len() as int, s.len() - pos) =~= s.subrange(
        pos + p.len(),
        s.len() as int,
    ));
}

/// `str::trim_start_matches` with a non-empty literal pattern.
pub fn trim_start_matches_str(s: &[char], p: &str) -> (r: Vec<char>)
    requires
        p@.len() > 0,
    ensures
        r@ == trim_start_matches(s@, p@),
{
    let pv = chars_of(p);
    let n = s.len();
    let mut pos: usize = 0;
    assert(s@.subrange(0, s@.len() as int) =~= s@);
    while matches_at(s, pv.as_slice(), pos)
        invariant
            pv@ == p@,
            n == s@.len(),
            p@.len() > 0,
            pos <= s@.len(),
            trim_start_matches(s@, p@) == trim_start_matches(s@.subrange(pos as int, s@.len() as int), p@),
        decreases s@.len() - pos,
    {
        proof {
            assert(s@.subrange(pos as int, s@.len() as int).subrange(0, p@.len() as int) =~= s@.subrange(pos as int, pos + p@.len()));
            lemma_trim_start_matches_step(s@, p@, pos as int);
        }
        pos = pos + pv.len();
    }
    proof {
        if starts_with(s@.subrange(pos as int, s@.len() as int), p@) {
            assert(s@.subrange(pos as int, s@.len() as int).subrange(0, p@.len() as int) =~= s@.subrange(pos as int, pos + p@.len()));
        }
    }
    copy_range(s, pos, s.len())
}

/// `str::trim_end_matches` with a character pattern.
pub fn trim_end_char_chars(s: &[char], c: char) -> (r: Vec<char>)
    ensures
        r@ == trim_end_char(s@, c),
{
    let mut j: usize = s.len();
    assert(s@.subrange(0, s@.len() as int) =~= s@);
    while j > 0 && s[j - 1] == c
        invariant
            j <= s@.len(),
            trim_end_char(s@, c) == trim_end_char(s@.subrange(0, j as int), c),
        decreases j,
    {
        assert(s@.subrange(0, j as int).drop_last() =~= s@.subrange(0, j - 1));
        j -= 1;
    }
    copy_range(s, 0, j)
}

/// `str::trim_start_matches` with a character pattern.
pub fn trim_start_char_chars(s: &[char], c: char) -> (r: Vec<char>)
    ensures
        r@ == trim_start_char(s@, c),
{
    let mut i: usize = 0;
    assert(s@.subrange(0, s@.len() as int) =~= s@);
    while i < s.len() && s[i] == c
        invariant
            i <= s@.len(),
            trim_start_char(s@, c) == trim_start_char(s@.subrange(i as int, s@.len() as int), c),
        decreases s@.len() - i,
    {
        assert(s@.subrange(i as int, s@.len() as int).drop_first() =~= s@.subrange(i + 1, s@.len() as int));
        i += 1;
    }
    copy_range(s, i, s.len())
}

/// `str::replace` with a character pattern.
pub fn replace_char_chars(s: &[char], from: char, to: &[char]) -> (r: Vec<char>)
    ensures
        r@ == replace_char(s@, from, to@),
{
    let mut r: Vec<char> = Vec::new();
    let mut i: usize = 0;
    while i < s.len()
        invariant
            i <= s@.len(),
            r@ == replace_char(s@.subrange(0, i as int), from, to@),
        decreases s@.len() - i,
    {
        assert(s@.subrange(0, i + 1).drop_last() =~= s@.subrange(0, i as int));
        if s[i] == from {
            push_all(&mut r, to);
        } else {
            r.push(s[i]);
        }
        i += 1;
    }
    assert(s@.subrange(0, s@.len() as int) =~= s@);
    r
}

/// `[String]::join`.
pub fn join_strings(pieces: &Vec<String>, sep: &str) -> (r: Vec<char>)
    ensures
        r@ == join(views(pieces@), sep@),
{
    let mut r: Vec<char> = Vec::new();
    let mut i: usize = 0;
    while i < pieces.len()
        invariant
            i <= pieces@.len(),
            r@ == join(views(pieces@.subrange(0, i as int)), sep@),
        decreases pieces@.len() - i,
    {
        let ghost prev = views(pieces@.subrange(0, i as int));
        assert(views(pieces@.subrange(0, i + 1)).drop_last() =~= prev);
        if i > 0 {
            push_str(&mut r, sep);
        }
        push_str(&mut r, pieces[i].as_str());
        proof {
            if i == 0 {
                assert(r@ =~= join(views(pieces@.subrange(0, 1)), sep@));
            }
        }
        i += 1;
    }
    assert(pieces@.subrange(0, pieces@.len() as int) =~= pieces@);
    r
}

// ---------------------------------------------------------------------------
// Terminal escape sequences
// ---------------------------------------------------------------------------

/// Where the escape-sequence filter stands.
pub enum AnsiState {
    /// Copying characters.
    Plain,
    /// Just read an ESC.
    Escape,
    /// Inside a `ESC [` control sequence.
    Control,
}

/// One character through the filter: an ESC is dropped; `ESC [` opens a control
/// sequence that runs to its final byte in `@`..=`~`, all dropped.
pub open spec fn ansi_step(st: (AnsiState, Seq<char>), c: char) -> (AnsiState, Seq<char>) {
    match st.0 {
        AnsiState::Plain => if c == '\u{1b}' {
            (AnsiState::Escape, st.1)
        } else {
            (AnsiState::Plain, st.1.push(c))
        },
        AnsiState::Escape => if c == '[' {
            (AnsiState::Control, st.1)
        } else if c == '\u{1b}' {
            (AnsiState::Escape, st.1)
        } else {
            (AnsiState::Plain, st.1.push(c))
        },
        AnsiState::Control => if '@' <= c && c <= '~' {
            (AnsiState::Plain, st.1)
        } else {
            (AnsiState::Control, st.1)
        },
    }
}

pub open spec fn ansi_run(s: Seq<char>) -> (AnsiState, Seq<char>)
    decreases s.len(),
{
    if s.len() == 0 {
        (AnsiState::Plain, Seq::empty())
    } else {
        ansi_step(ansi_run(s.drop_last()), s.last())
    }
}

/// `s` without its ANSI escape sequences.
pub open spec fn strip_ansi(s: Seq<char>) -> Seq<char> {
    ansi_run(s).1
}

/// `s` without its ANSI escape sequences, as characters.
pub fn strip_ansi_chars(s: &[char]) -> (r: Vec<char>)
    ensures
        r@ == strip_ansi(s@),
{
    let mut out: Vec<char> = Vec::new();
    let mut escape = false;
    let mut control = false;
    let mut i: usize = 0;
    while i < s.len()
        invariant
            i <= s@.len(),
            !(escape && control),
            ansi_run(s@.subrange(0, i as int)) == (if control {
                AnsiState::Control
            } else if escape {
                AnsiState::Escape
            } else {
                AnsiState::Plain
            }, out@),
        decreases s@.len() - i,
    {
        assert(s@.subrange(0, i + 1).drop_last() =~= s@.subrange(0, i as int));
        let c = s[i];
        if control {
            if '@' <= c && c <= '~' {
                control = false;
            }
        } else if escape {
            if c == '[' {
                escape = false;
                control = true;
            } else if c == '\u{1b}' {
            } else {
                escape = false;
                out.push(c);
            }
        } else if c == '\u{1b}' {
            escape = true;
        } else {
            out.push(c);
        }
        i += 1;
    }
    assert(s@.subrange(0, s@.len() as int) =~= s@);
    out
}

/// Removes ANSI escape sequences (colours and the like) from terminal output.
pub fn strip_ansi_escape_sequences(text: &str) -> (r: String)
    ensures
        r@ == strip_ansi(text@),
{
    let v = chars_of(text);
    let out = strip_ansi_chars(v.as_slice());
    to_string(out.as_slice())
}

/// No character of `s` is an ESC.
pub open spec fn no_esc(s: Seq<char>) -> bool {
    forall|i: int| 0 <= i < s.len() ==> #[trigger] s[i] != '\u{1b}'
}

/// `f` picks, in increasing order, the positions of `b` that spell `a`.
pub open spec fn picks(f: Seq<int>, a: Seq<char>, b: Seq<char>) -> bool {
    &&& f.len() == a.len()
    &&& forall|i: int| 0 <= i < f.len() ==> 0 <= #[trigger] f[i] < b.len() && a[i] == b[f[i]]
    &&& forall|i: int, j: int| 0 <= i < j < f.len() ==> #[trigger] f[i] < #[trigger] f[j]
}

/// `a` is `b` with some characters left out.
pub open spec fn is_subsequence(a: Seq<char>, b: Seq<char>) -> bool {
    exists|f: Seq<int>| picks(f, a, b)
}

proof fn lemma_ansi_grows(s: Seq<char>)
    requires
        s.len() > 0,
    ensures
        ansi_run(s).1 == ansi_run(s.drop_last()).1 || (ansi_run(s).1 == ansi_run(s.drop_last()).1.push(s.last())
            && s.last() != '\u{1b}'),
{
}

proof fn lemma_ansi_no_esc(s: Seq<char>)
    ensures
        no_esc(ansi_run(s).1),
    decreases s.len(),
{
    if s.len() > 0 {
        lemma_ansi_no_esc(s.drop_last());
        lemma_ansi_grows(s);
        let prev = ansi_run(s.drop_last()).1;
        let out = ansi_run(s).1;
        assert forall|i: int| 0 <= i < out.len() implies #[trigger] out[i] != '\u{1b}' by {
            if out != prev && i < prev.len() {
                assert(out[i] == prev[i]);
            }
        }
    }
}

proof fn lemma_ansi_plain(s: Seq<char>)
    requires
        no_esc(s),
    ensures
        ansi_run(s) == (AnsiState::Plain, s),
    decreases s.len(),
{
    if s.len() > 0 {
        let d = s.drop_last();
        assert forall|i: int| 0 <= i < d.len() implies #[trigger] d[i] != '\u{1b}' by {
            assert(d[i] == s[i]);
        }
        lemma_ansi_plain(d);
        assert(s[s.len() - 1] != '\u{1b}');
        assert(d.push(s.last()) =~= s);
    }
}

proof fn lemma_ansi_picks(s: Seq<char>) -> (f: Seq<int>)
    ensures
        picks(f, ansi_run(s).1, s),
    decreases s.len(),
{
    if s.len() == 0 {
        Seq::empty()
    } else {
        let d = s.drop_last();
        let f0 = lemma_ansi_picks(d);
        lemma_ansi_grows(s);
        let prev = ansi_run(d).1;
        let out = ansi_run(s).1;
        if out == prev {
            assert forall|i: int| 0 <= i < f0.len() implies 0 <= #[trigger] f0[i] < s.len() && out[i] == s[f0[i]] by {
                assert(s[f0[i]] == d[f0[i]]);
            }
            f0
        } else {
            let f = f0.push(s.len() - 1);
            assert forall|i: int| 0 <= i < f.len() implies 0 <= #[trigger] f[i] < s.len() && out[i] == s[f[i]] by {
                if i < f0.len() {
                    assert(f[i] == f0[i]);
                    assert(out[i] == prev[i]);
                    assert(s[f0[i]] == d[f0[i]]);
                }
            }
            assert forall|i: int, j: int| 0 <= i < j < f.len() implies #[trigger] f[i] < #[trigger] f[j] by {
                if j < f0.len() {
                    assert(f[i] == f0[i] && f[j] == f0[j]);
                } else {
                    assert(f[i] == f0[i]);
                }
            }
            f
        }
    }
}

/// Stripping escape sequences leaves no ESC, only drops characters (the rest
/// keep their order), changes nothing in text without an ESC, and so changes
/// nothing the second time.
pub proof fn law_strip_ansi(s: Seq<char>)
    ensures
        no_esc(strip_ansi(s)),
        is_subsequence(strip_ansi(s), s),
        no_esc(s) ==> strip_ansi(s) == s,
        strip_ansi(strip_ansi(s)) == strip_ansi(s),
{
    lemma_ansi_no_esc(s);
    let f = lemma_ansi_picks(s);
    assert(picks(f, strip_ansi(s), s));
    if no_esc(s) {
        lemma_ansi_plain(s);
    }
    lemma_ansi_plain(strip_ansi(s));
}

/// Whether two texts are equal.
pub fn eq_chars_str(a: &[char], lit: &str) -> (b: bool)
    ensures
        b == (a@ == lit@),
{
    let l = chars_of(lit);
    eq_chars(a, l.as_slice())
}

/// Whether two character sequences are equal.
pub fn eq_chars(a: &[char], b: &[char]) -> (r: bool)
    ensures
        r == (a@ == b@),
{
    if a.len() != b.len() {
        return false;
    }
    let mut i: usize = 0;
    while i < a.len()
        invariant
            a@.len() == b@.len(),
            i <= a@.len(),
            forall|k: int| 0 <= k < i ==> a@[k] == b@[k],
        decreases a@.len() - i,
    {
        if a[i] != b[i] {
            return false;
        }
        i += 1;
    }
    assert(a@ =~= b@);
    true
}

} // verus!
