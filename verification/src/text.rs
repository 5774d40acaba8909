//! Character-sequence utilities shared by the parsers and cleaners of the crate.
//!
//! All text is handled as sequences of Unicode scalar values (`Seq<char>`),
//! which is the view that `String` and `str` have in specifications.

use vstd::prelude::*;

verus! {

// ---------------------------------------------------------------------------
// Conversions between strings and character vectors
// ---------------------------------------------------------------------------

/// Appends one character to a `String` (std `String::push`).
/// The contract restates the documented behaviour: the character is added at the end.
#[verifier::external_body]
pub(crate) fn push_char(s: &mut String, c: char)
    ensures
        final(s)@ == old(s)@.push(c),
{
    s.push(c);
}

/// The characters of a string slice, in order.
pub fn chars_of(s: &str) -> (v: Vec<char>)
    ensures
        v@ == s@,
{
    let mut v: Vec<char> = Vec::new();
    for c in it: s.chars()
        invariant
            v@ == it.seq().take(it.index() as int),
    {
        v.push(c);
    }
    v
}

/// The string made of the given characters.
pub fn string_of(v: &[char]) -> (s: String)
    ensures
        s@ == v@,
{
    let mut s = String::new();
    let mut i: usize = 0;
    while i < v.len()
        invariant
            i <= v.len(),
            s@ == v@.take(i as int),
        decreases v.len() - i,
    {
        push_char(&mut s, v[i]);
        i = i + 1;
        assert(s@ =~= v@.take(i as int));
    }
    assert(v@.take(v.len() as int) =~= v@);
    s
}

/// A copy of the characters `s[start..end]`.
pub fn sub_chars(s: &[char], start: usize, end: usize) -> (v: Vec<char>)
    requires
        start <= end <= s.len(),
    ensures
        v@ == s@.subrange(start as int, end as int),
{
    let mut v: Vec<char> = Vec::new();
    let mut i = start;
    while i < end
        invariant
            start <= i <= end <= s.len(),
            v@ == s@.subrange(start as int, i as int),
        decreases end - i,
    {
        v.push(s[i]);
        i = i + 1;
        assert(v@ =~= s@.subrange(start as int, i as int));
    }
    v
}

/// Appends the characters of `src` to `dst`.
pub fn append_chars(dst: &mut Vec<char>, src: &[char])
    ensures
        final(dst)@ == old(dst)@ + src@,
{
    let ghost start = dst@;
    let mut i: usize = 0;
    while i < src.len()
        invariant
            i <= src.len(),
            dst@ == start + src@.take(i as int),
        decreases src.len() - i,
    {
        dst.push(src[i]);
        i = i + 1;
        assert(dst@ =~= start + src@.take(i as int));
    }
    assert(src@.take(src.len() as int) =~= src@);
}

/// Appends the characters of a string slice to `dst`.
pub fn append_str(dst: &mut Vec<char>, src: &str)
    ensures
        final(dst)@ == old(dst)@ + src@,
{
    let cs = chars_of(src);
    append_chars(dst, &cs);
}

/// Whether two character slices are equal.
pub fn chars_eq(a: &[char], b: &[char]) -> (r: bool)
    ensures
        r == (a@ == b@),
{
    if a.len() != b.len() {
        return false;
    }
    let mut i: usize = 0;
    while i < a.len()
        invariant
            a.len() == b.len(),
            i <= a.len(),
            forall|k: int| 0 <= k < i ==> a@[k] == b@[k],
        decreases a.len() - i,
    {
        if a[i] != b[i] {
            return false;
        }
        i = i + 1;
    }
    assert(a@ =~= b@);
    true
}

/// Whether a character slice spells the given string slice.
pub fn chars_eq_str(a: &[char], b: &str) -> (r: bool)
    ensures
        r == (a@ == b@),
{
    let bs = chars_of(b);
    chars_eq(a, &bs)
}

// ---------------------------------------------------------------------------
// Whitespace and trimming
// ---------------------------------------------------------------------------

/// Unicode `White_Space`, the set that `char::is_whitespace` and `str::trim` use.
pub open spec fn is_ws(c: char) -> bool {
    ||| c == '\t' || c == '\n' || c == '\u{0B}' || c == '\u{0C}' || c == '\r' || c == ' '
    ||| c == '\u{85}' || c == '\u{A0}' || c == '\u{1680}'
    ||| '\u{2000}' <= c <= '\u{200A}'
    ||| c == '\u{2028}' || c == '\u{2029}' || c == '\u{202F}' || c == '\u{205F}' || c == '\u{3000}'
}

/// Executable form of [`is_ws`].
pub fn is_whitespace(c: char) -> (r: bool)
    ensures
        r == is_ws(c),
{
    c == '\t' || c == '\n' || c == '\u{0B}' || c == '\u{0C}' || c == '\r' || c == ' '
        || c == '\u{85}' || c == '\u{A0}' || c == '\u{1680}' || ('\u{2000}' <= c && c <= '\u{200A}')
        || c == '\u{2028}' || c == '\u{2029}' || c == '\u{202F}' || c == '\u{205F}'
        || c == '\u{3000}'
}

/// `s` without its leading whitespace.
pub open spec fn trim_start_ws(s: Seq<char>) -> Seq<char>
    decreases s.len(),
{
    if s.len() > 0 && is_ws(s[0]) {
        trim_start_ws(s.drop_first())
    } else {
        s
    }
}

/// `s` without its trailing whitespace.
pub open spec fn trim_end_ws(s: Seq<char>) -> Seq<char>
    decreases s.len(),
{
    if s.len() > 0 && is_ws(s.last()) {
        trim_end_ws(s.drop_last())
    } else {
        s
    }
}

/// `s` without leading and trailing whitespace (`str::trim`).
pub open spec fn trim_ws(s: Seq<char>) -> Seq<char> {
    trim_end_ws(trim_start_ws(s))
}

/// `s` without the trailing characters that belong to `set` (`str::trim_end_matches`
/// with a set of characters).
pub open spec fn trim_end_set(s: Seq<char>, set: Seq<char>) -> Seq<char>
    decreases s.len(),
{
    if s.len() > 0 && set.contains(s.last()) {
        trim_end_set(s.drop_last(), set)
    } else {
        s
    }
}

/// `s` without the leading characters that belong to `set` (`str::trim_start_matches`).
pub open spec fn trim_start_set(s: Seq<char>, set: Seq<char>) -> Seq<char>
    decreases s.len(),
{
    if s.len() > 0 && set.contains(s[0]) {
        trim_start_set(s.drop_first(), set)
    } else {
        s
    }
}

/// Whether `c` occurs in `set`.
pub fn in_set(c: char, set: &[char]) -> (r: bool)
    ensures
        r == set@.contains(c),
{
    let mut i: usize = 0;
    while i < set.len()
        invariant
            i <= set.len(),
            forall|k: int| 0 <= k < i ==> set@[k] != c,
        decreases set.len() - i,
    {
        if set[i] == c {
            assert(set@[i as int] == c);
            return true;
        }
        i = i + 1;
    }
    false
}

proof fn lemma_trim_start_ws_skip(s: Seq<char>, i: int)
    requires
        0 <= i < s.len(),
        is_ws(s[i]),
    ensures
        trim_start_ws(s.skip(i)) == trim_start_ws(s.skip(i + 1)),
{
    assert(s.skip(i).drop_first() =~= s.skip(i + 1));
}

proof fn lemma_trim_end_ws_take(s: Seq<char>, j: int)
    requires
        0 < j <= s.len(),
        is_ws(s[j - 1]),
    ensures
        trim_end_ws(s.take(j)) == trim_end_ws(s.take(j - 1)),
{
    assert(s.take(j).drop_last() =~= s.take(j - 1));
}

proof fn lemma_trim_end_set_take(s: Seq<char>, set: Seq<char>, j: int)
    requires
        0 < j <= s.len(),
        set.contains(s[j - 1]),
    ensures
        trim_end_set(s.take(j), set) == trim_end_set(s.take(j - 1), set),
{
    assert(s.take(j).drop_last() =~= s.take(j - 1));
}

proof fn lemma_trim_start_set_skip(s: Seq<char>, set: Seq<char>, i: int)
    requires
        0 <= i < s.len(),
        set.contains(s[i]),
    ensures
        trim_start_set(s.skip(i), set) == trim_start_set(s.skip(i + 1), set),
{
    assert(s.skip(i).drop_first() =~= s.skip(i + 1));
}

/// `str::trim` on a character slice.
pub fn trim(s: &[char]) -> (r: Vec<char>)
    ensures
        r@ == trim_ws(s@),
{
    let n = s.len();
    let mut i: usize = 0;
    assert(s@.skip(0) =~= s@);
    while i < n && is_whitespace(s[i])
        invariant
            i <= n == s.len(),
            trim_start_ws(s@.skip(i as int)) == trim_start_ws(s@),
        decreases n - i,
    {
        proof { lemma_trim_start_ws_skip(s@, i as int); }
        i = i + 1;
    }
    let ghost t = s@.skip(i as int);
    assert(trim_start_ws(t) == t);
    assert(trim_start_ws(s@) == t);
    let mut j: usize = n;
    assert(t.take((j - i) as int) =~= t);
    while j > i && is_whitespace(s[j - 1])
        invariant
            i <= j <= n == s.len(),
            t == s@.skip(i as int),
            trim_end_ws(t.take((j - i) as int)) == trim_end_ws(t),
        decreases j - i,
    {
        proof {
            assert(t[(j - i) - 1] == s@[j - 1]);
            lemma_trim_end_ws_take(t, (j - i) as int);
        }
        j = j - 1;
    }
    assert(t.take((j - i) as int) =~= s@.subrange(i as int, j as int));
    sub_chars(s, i, j)
}

/// `str::trim_end_matches` with a set of characters.
pub fn trim_end_in(s: &[char], set: &[char]) -> (r: Vec<char>)
    ensures
        r@ == trim_end_set(s@, set@),
{
    let mut j: usize = s.len();
    assert(s@.take(j as int) =~= s@);
    while j > 0 && in_set(s[j - 1], set)
        invariant
            j <= s.len(),
            trim_end_set(s@.take(j as int), set@) == trim_end_set(s@, set@),
        decreases j,
    {
        proof { lemma_trim_end_set_take(s@, set@, j as int); }
        j = j - 1;
    }
    sub_chars(s, 0, j)
}

/// `str::trim_start_matches` with a set of characters.
pub fn trim_start_in(s: &[char], set: &[char]) -> (r: Vec<char>)
    ensures
        r@ == trim_start_set(s@, set@),
{
    let n = s.len();
    let mut i: usize = 0;
    assert(s@.skip(0) =~= s@);
    while i < n && in_set(s[i], set)
        invariant
            i <= n == s.len(),
            trim_start_set(s@.skip(i as int), set@) == trim_start_set(s@, set@),
        decreases n - i,
    {
        proof { lemma_trim_start_set_skip(s@, set@, i as int); }
        i = i + 1;
    }
    assert(s@.skip(i as int) =~= s@.subrange(i as int, n as int));
    sub_chars(s, i, n)
}


// ---------------------------------------------------------------------------
// Substring search
// ---------------------------------------------------------------------------

/// `pat` occurs in `s` starting at index `i`.
pub open spec fn match_at(s: Seq<char>, pat: Seq<char>, i: int) -> bool {
    0 <= i && i + pat.len() <= s.len() && s.subrange(i, i + pat.len()) == pat
}

/// `pat` occurs somewhere in `s` (`str::contains`).
pub open spec fn contains_seq(s: Seq<char>, pat: Seq<char>) -> bool {
    exists|i: int| match_at(s, pat, i)
}

/// The index of the first occurrence of `pat` in `s` (`str::find`, counted in characters).
#[verifier::opaque]
pub open spec fn find_seq(s: Seq<char>, pat: Seq<char>) -> Option<int> {
    if contains_seq(s, pat) {
        Some(choose|i: int| match_at(s, pat, i) && forall|j: int| 0 <= j < i ==> !match_at(s, pat, j))
    } else {
        None
    }
}

/// Whether `pat` occurs in `s` at index `i` (executable).
pub fn matches_at(s: &[char], pat: &[char], i: usize) -> (r: bool)
    ensures
        r == match_at(s@, pat@, i as int),
{
    if i > s.len() || pat.len() > s.len() - i {
        return false;
    }
    let mut k: usize = 0;
    while k < pat.len()
        invariant
            i + pat.len() <= s.len(),
            k <= pat.len(),
            forall|m: int| 0 <= m < k ==> s@[i + m] == pat@[m],
        decreases pat.len() - k,
    {
        if s[i + k] != pat[k] {
            assert(s@.subrange(i as int, i + pat.len())[k as int] != pat@[k as int]);
            return false;
        }
        k = k + 1;
    }
    assert(s@.subrange(i as int, i + pat.len()) =~= pat@);
    true
}

/// The first occurrence of `pat` is at `i` when it occurs there and nowhere before.
pub proof fn lemma_find_unique(s: Seq<char>, pat: Seq<char>, i: int)
    requires
        match_at(s, pat, i),
        forall|j: int| 0 <= j < i ==> !match_at(s, pat, j),
    ensures
        find_seq(s, pat) == Some(i),
{
    reveal(find_seq);
    assert(contains_seq(s, pat));
    let c = choose|k: int| match_at(s, pat, k) && forall|j: int| 0 <= j < k ==> !match_at(s, pat, j);
    assert(match_at(s, pat, c) && forall|j: int| 0 <= j < c ==> !match_at(s, pat, j));
    if c < i {
        assert(!match_at(s, pat, c));
    }
    if i < c {
        assert(!match_at(s, pat, i));
    }
}

/// The first index at which `pat` occurs in `s` (`str::find`, counted in characters).
pub fn find(s: &[char], pat: &[char]) -> (r: Option<usize>)
    ensures
        match r {
            Some(i) => find_seq(s@, pat@) == Some(i as int) && match_at(s@, pat@, i as int),
            None => find_seq(s@, pat@) is None && !contains_seq(s@, pat@),
        },
{
    let mut i: usize = 0;
    while i < s.len()
        invariant
            i <= s.len(),
            forall|j: int| 0 <= j < i ==> !match_at(s@, pat@, j),
        decreases s.len() - i,
    {
        if matches_at(s, pat, i) {
            proof { lemma_find_unique(s@, pat@, i as int); }
            return Some(i);
        }
        i = i + 1;
    }
    if matches_at(s, pat, i) {
        proof { lemma_find_unique(s@, pat@, i as int); }
        return Some(i);
    }
    assert(!contains_seq(s@, pat@)) by {
        if contains_seq(s@, pat@) {
            let w = choose|w: int| match_at(s@, pat@, w);
            assert(w <= s@.len());
        }
    }
    reveal(find_seq);
    None
}

/// `str::contains` on character slices.
pub fn contains(s: &[char], pat: &[char]) -> (r: bool)
    ensures
        r == contains_seq(s@, pat@),
{
    match find(s, pat) {
        Some(i) => {
            assert(match_at(s@, pat@, i as int));
            true
        },
        None => false,
    }
}

/// `str::contains` with a literal pattern.
pub fn contains_str(s: &[char], pat: &str) -> (r: bool)
    ensures
        r == contains_seq(s@, pat@),
{
    let p = chars_of(pat);
    contains(s, &p)
}

/// `pat` is a prefix of `s` (`str::starts_with`).
pub open spec fn starts_with_seq(s: Seq<char>, pat: Seq<char>) -> bool {
    pat.len() <= s.len() && s.take(pat.len() as int) == pat
}

/// `pat` is a suffix of `s` (`str::ends_with`).
pub open spec fn ends_with_seq(s: Seq<char>, pat: Seq<char>) -> bool {
    pat.len() <= s.len() && s.skip(s.len() - pat.len()) == pat
}

/// `str::starts_with` on character slices.
pub fn starts_with(s: &[char], pat: &str) -> (r: bool)
    ensures
        r == starts_with_seq(s@, pat@),
{
    let p = chars_of(pat);
    let r = matches_at(s, &p, 0);
    assert(s@.take(p@.len() as int) =~= s@.subrange(0, p@.len() as int));
    r
}

/// `str::ends_with` on character slices.
pub fn ends_with(s: &[char], pat: &str) -> (r: bool)
    ensures
        r == ends_with_seq(s@, pat@),
{
    let p = chars_of(pat);
    if p.len() > s.len() {
        return false;
    }
    let r = matches_at(s, &p, s.len() - p.len());
    assert(s@.skip(s@.len() - p@.len()) =~= s@.subrange(s@.len() - p@.len(), s@.len() as int));
    r
}

// ---------------------------------------------------------------------------
// Case mapping
// ---------------------------------------------------------------------------

/// What `str::to_lowercase` returns for a string: its Unicode lowercase mapping.
pub uninterp spec fn lowercase(s: Seq<char>) -> Seq<char>;

/// std `str::to_lowercase`. The contract only names the result: it is the
/// Unicode lowercase mapping of the argument, which depends on nothing else.
#[verifier::external_body]
pub(crate) fn to_lowercase(s: &str) -> (r: String)
    ensures
        r@ == lowercase(s@),
{
    s.to_lowercase()
}

/// The lowercase mapping of a character slice, as characters.
pub fn lowercase_chars(s: &[char]) -> (r: Vec<char>)
    ensures
        r@ == lowercase(s@),
{
    let st = string_of(s);
    let low = to_lowercase(st.as_str());
    chars_of(low.as_str())
}


// ---------------------------------------------------------------------------
// Numbers
// ---------------------------------------------------------------------------

/// The character of a digit in base 10 or 16 (lowercase letters above nine).
pub open spec fn digit_char(d: int) -> char {
    if d < 10 {
        (48 + d) as char
    } else {
        (87 + d) as char
    }
}

/// The decimal digits of `n`, most significant first, without leading zeros.
pub open spec fn decimal(n: nat) -> Seq<char>
    decreases n,
{
    if n < 10 {
        seq![digit_char(n as int)]
    } else {
        decimal(n / 10).push(digit_char((n % 10) as int))
    }
}

/// The lowercase hexadecimal digits of `n`, most significant first, without leading zeros.
pub open spec fn hexadecimal(n: nat) -> Seq<char>
    decreases n,
{
    if n < 16 {
        seq![digit_char(n as int)]
    } else {
        hexadecimal(n / 16).push(digit_char((n % 16) as int))
    }
}

/// `s` padded on the left with `c` up to `width` characters (`{:0width}` formatting).
pub open spec fn pad_left(s: Seq<char>, width: nat, c: char) -> Seq<char> {
    if s.len() >= width {
        s
    } else {
        Seq::new((width - s.len()) as nat, |i: int| c) + s
    }
}

fn digit(d: u64) -> (c: char)
    requires
        d < 16,
    ensures
        c == digit_char(d as int),
{
    if d < 10 {
        ((48 + d) as u8) as char
    } else {
        ((87 + d) as u8) as char
    }
}

/// The decimal representation of `n` (`n.to_string()`).
pub fn decimal_chars(n: u64) -> (r: Vec<char>)
    ensures
        r@ == decimal(n as nat),
{
    let mut m = n;
    let mut out: Vec<char> = Vec::new();
    assert(decimal(n as nat) =~= decimal(m as nat) + out@);
    while m >= 10
        invariant
            decimal(n as nat) == decimal(m as nat) + out@,
        decreases m,
    {
        let d = digit(m % 10);
        let ghost prev = out@;
        out.insert(0, d);
        proof {
            assert(decimal(m as nat) == decimal((m / 10) as nat).push(d));
            assert(decimal((m / 10) as nat).push(d) + prev =~= decimal((m / 10) as nat) + out@);
        }
        m = m / 10;
    }
    let d = digit(m);
    let ghost prev = out@;
    out.insert(0, d);
    assert(decimal(m as nat) + prev =~= out@);
    out
}

/// The lowercase hexadecimal representation of `n`, zero-padded to 16 digits (`{:016x}`).
pub fn hex16_chars(n: u64) -> (r: Vec<char>)
    ensures
        r@ == pad_left(hexadecimal(n as nat), 16, '0'),
{
    let mut m = n;
    let mut out: Vec<char> = Vec::new();
    assert(hexadecimal(n as nat) =~= hexadecimal(m as nat) + out@);
    while m >= 16
        invariant
            hexadecimal(n as nat) == hexadecimal(m as nat) + out@,
        decreases m,
    {
        let d = digit(m % 16);
        let ghost prev = out@;
        out.insert(0, d);
        proof {
            assert(hexadecimal(m as nat) == hexadecimal((m / 16) as nat).push(d));
            assert(hexadecimal((m / 16) as nat).push(d) + prev =~= hexadecimal((m / 16) as nat) + out@);
        }
        m = m / 16;
    }
    let d = digit(m);
    let ghost prev = out@;
    out.insert(0, d);
    assert(hexadecimal(m as nat) + prev =~= out@);
    let ghost h = out@;
    if out.len() >= 16 {
        return out;
    }
    let mut padded: Vec<char> = Vec::new();
    let pad = 16 - out.len();
    let mut i: usize = 0;
    while i < pad
        invariant
            i <= pad,
            padded@ == Seq::new(i as nat, |k: int| '0'),
        decreases pad - i,
    {
        padded.push('0');
        i = i + 1;
        assert(padded@ =~= Seq::new(i as nat, |k: int| '0'));
    }
    append_chars(&mut padded, &out);
    assert(padded@ =~= pad_left(h, 16, '0'));
    padded
}

/// Zero-pads a decimal number to `width` digits (`{:0width}` formatting).
pub fn padded_decimal(n: u64, width: usize) -> (r: Vec<char>)
    ensures
        r@ == pad_left(decimal(n as nat), width as nat, '0'),
{
    let d = decimal_chars(n);
    if d.len() >= width {
        return d;
    }
    let mut padded: Vec<char> = Vec::new();
    let pad = width - d.len();
    let mut i: usize = 0;
    while i < pad
        invariant
            i <= pad,
            padded@ == Seq::new(i as nat, |k: int| '0'),
        decreases pad - i,
    {
        padded.push('0');
        i = i + 1;
        assert(padded@ =~= Seq::new(i as nat, |k: int| '0'));
    }
    append_chars(&mut padded, &d);
    padded
}

/// A decimal digit character.
pub open spec fn is_digit(c: char) -> bool {
    '0' <= c <= '9'
}

/// Every character of `s` is a decimal digit.
pub open spec fn all_digits(s: Seq<char>) -> bool {
    forall|i: int| 0 <= i < s.len() ==> is_digit(#[trigger] s[i])
}

/// The number spelled by a string of decimal digits.
pub open spec fn digits_value(s: Seq<char>) -> nat
    decreases s.len(),
{
    if s.len() == 0 {
        0
    } else {
        digits_value(s.drop_last()) * 10 + ((s.last() as int) - 48) as nat
    }
}

/// What `str::parse::<u32>` accepts: an optional `+`, then one or more decimal digits,
/// with a value that fits in 32 bits.
pub open spec fn parse_u32_spec(s: Seq<char>) -> Option<u32> {
    let body = if s.len() > 0 && s[0] == '+' { s.drop_first() } else { s };
    if body.len() > 0 && all_digits(body) && digits_value(body) <= u32::MAX {
        Some(digits_value(body) as u32)
    } else {
        None
    }
}

/// `str::parse::<u32>` on a character slice.
pub fn parse_u32(s: &[char]) -> (r: Option<u32>)
    ensures
        r == parse_u32_spec(s@),
{
    let start: usize = if s.len() > 0 && s[0] == '+' { 1 } else { 0 };
    let ghost body = if s@.len() > 0 && s@[0] == '+' { s@.drop_first() } else { s@ };
    assert(body =~= s@.skip(start as int));
    if start >= s.len() {
        return None;
    }
    let mut acc: u64 = 0;
    let mut i: usize = start;
    assert(body.take(0) =~= Seq::<char>::empty());
    while i < s.len()
        invariant
            start <= i <= s.len(),
            body == s@.skip(start as int),
            body == (if s@.len() > 0 && s@[0] == '+' { s@.drop_first() } else { s@ }),
            forall|k: int| 0 <= k < i - start ==> is_digit(#[trigger] body[k]),
            acc <= 0x1_0000_0000,
            acc as nat == if digits_value(body.take(i - start)) < 0x1_0000_0000 {
                digits_value(body.take(i - start))
            } else {
                0x1_0000_0000
            },
        decreases s.len() - i,
    {
        let c = s[i];
        if !('0' <= c && c <= '9') {
            assert(body[i - start] == s@[i as int]);
            assert(!is_digit(body[i - start]));
            assert(!all_digits(body));
            return None;
        }
        let d = (c as u64) - 48;
        proof {
            assert(body[i - start] == s@[i as int]);
            assert(body.take(i + 1 - start).drop_last() =~= body.take(i - start));
            assert(body.take(i + 1 - start).last() == c);
            let v = digits_value(body.take(i - start));
            assert(digits_value(body.take(i + 1 - start)) == v * 10 + ((c as int) - 48));
            assert(d as int == (c as int) - 48);
        }
        let next = acc * 10 + d;
        acc = if next >= 0x1_0000_0000 { 0x1_0000_0000 } else { next };
        i = i + 1;
    }
    assert(body.take(s@.len() - start) =~= body);
    if acc > 0xFFFF_FFFF {
        None
    } else {
        Some(acc as u32)
    }
}


/// What `str::parse::<u64>` accepts: an optional `+`, then one or more decimal digits,
/// with a value that fits in 64 bits.
pub open spec fn parse_u64_spec(s: Seq<char>) -> Option<u64> {
    let body = if s.len() > 0 && s[0] == '+' { s.drop_first() } else { s };
    if body.len() > 0 && all_digits(body) && digits_value(body) <= u64::MAX {
        Some(digits_value(body) as u64)
    } else {
        None
    }
}

/// `str::parse::<u64>` on a character slice.
pub fn parse_u64(s: &[char]) -> (r: Option<u64>)
    ensures
        r == parse_u64_spec(s@),
{
    let start: usize = if s.len() > 0 && s[0] == '+' { 1 } else { 0 };
    let ghost body = if s@.len() > 0 && s@[0] == '+' { s@.drop_first() } else { s@ };
    assert(body =~= s@.skip(start as int));
    if start >= s.len() {
        return None;
    }
    let mut acc: u128 = 0;
    let mut i: usize = start;
    assert(body.take(0) =~= Seq::<char>::empty());
    while i < s.len()
        invariant
            start <= i <= s.len(),
            body == s@.skip(start as int),
            body == (if s@.len() > 0 && s@[0] == '+' { s@.drop_first() } else { s@ }),
            forall|k: int| 0 <= k < i - start ==> is_digit(#[trigger] body[k]),
            acc <= 0x1_0000_0000_0000_0000,
            acc as nat == if digits_value(body.take(i - start)) < 0x1_0000_0000_0000_0000 {
                digits_value(body.take(i - start))
            } else {
                0x1_0000_0000_0000_0000
            },
        decreases s.len() - i,
    {
        let c = s[i];
        if !('0' <= c && c <= '9') {
            assert(body[i - start] == s@[i as int]);
            assert(!is_digit(body[i - start]));
            assert(!all_digits(body));
            return None;
        }
        let d = (c as u128) - 48;
        proof {
            assert(body[i - start] == s@[i as int]);
            assert(body.take(i + 1 - start).drop_last() =~= body.take(i - start));
            assert(body.take(i + 1 - start).last() == c);
            let v = digits_value(body.take(i - start));
            assert(digits_value(body.take(i + 1 - start)) == v * 10 + ((c as int) - 48));
            assert(d as int == (c as int) - 48);
        }
        let next = acc * 10 + d;
        acc = if next >= 0x1_0000_0000_0000_0000 { 0x1_0000_0000_0000_0000 } else { next };
        i = i + 1;
    }
    assert(body.take(s@.len() - start) =~= body);
    if acc > 0xFFFF_FFFF_FFFF_FFFF {
        None
    } else {
        Some(acc as u64)
    }
}

/// `s` with every occurrence of `pat` removed, scanning left to right
/// (`str::replace(pat, "")`).
pub open spec fn remove_all(s: Seq<char>, pat: Seq<char>) -> Seq<char>
    decreases s.len(),
{
    if pat.len() == 0 {
        s
    } else {
        match find_seq(s, pat) {
            Some(k) => if 0 <= k && k + pat.len() <= s.len() {
                s.take(k) + remove_all(s.skip(k + pat.len()), pat)
            } else {
                s
            },
            None => s,
        }
    }
}

/// Executable form of [`remove_all`].
pub fn remove_all_chars(s: &[char], pat: &str) -> (r: Vec<char>)
    ensures
        r@ == remove_all(s@, pat@),
{
    let p = chars_of(pat);
    if p.len() == 0 {
        return sub_chars(s, 0, s.len());
    }
    let mut out: Vec<char> = Vec::new();
    let mut rest: Vec<char> = sub_chars(s, 0, s.len());
    assert(rest@ =~= s@);
    assert(out@ + remove_all(rest@, p@) =~= remove_all(s@, p@));
    loop
        invariant
            p@ == pat@,
            p@.len() > 0,
            out@ + remove_all(rest@, p@) == remove_all(s@, p@),
        decreases rest.len(),
    {
        match find(&rest, &p) {
            Some(k) => {
                assert(match_at(rest@, p@, k as int));
                assert(rest@.len() == rest.len());
                let before = sub_chars(&rest, 0, k);
                let next = sub_chars(&rest, k + p.len(), rest.len());
                assert(before@ =~= rest@.take(k as int));
                assert(next@ =~= rest@.skip(k + p@.len()));
                let ghost prev = out@;
                append_chars(&mut out, &before);
                assert(prev + remove_all(rest@, p@) =~= out@ + remove_all(next@, p@));
                rest = next;
            },
            None => {
                let ghost prev = out@;
                append_chars(&mut out, &rest);
                assert(out@ =~= prev + remove_all(rest@, p@));
                return out;
            },
        }
    }
}

/// The index of the last `c` in `s`.
pub open spec fn last_index(s: Seq<char>, c: char) -> Option<int>
    decreases s.len(),
{
    if s.len() == 0 {
        None
    } else if s.last() == c {
        Some(s.len() - 1)
    } else {
        last_index(s.drop_last(), c)
    }
}

/// `str::rfind` with a character.
pub fn rfind_char(s: &[char], c: char) -> (r: Option<usize>)
    ensures
        match r {
            Some(i) => last_index(s@, c) == Some(i as int) && i < s@.len(),
            None => last_index(s@, c) is None,
        },
{
    let mut n: usize = s.len();
    assert(s@.take(n as int) =~= s@);
    while n > 0
        invariant
            n <= s@.len(),
            last_index(s@.take(n as int), c) == last_index(s@, c),
        decreases n,
    {
        assert(s@.take(n as int).drop_last() =~= s@.take(n - 1));
        if s[n - 1] == c {
            return Some(n - 1);
        }
        n = n - 1;
    }
    None
}

/// The first whitespace-separated word of `s` (`split_whitespace().next()`).
pub open spec fn first_word(s: Seq<char>) -> Option<Seq<char>> {
    if words_of(s).len() > 0 {
        Some(words_of(s)[0])
    } else {
        None
    }
}

/// Executable form of [`first_word`].
pub fn first_word_of(s: &[char]) -> (r: Option<Vec<char>>)
    ensures
        match r {
            Some(w) => first_word(s@) == Some(w@),
            None => first_word(s@) is None,
        },
{
    let ws = words(s);
    if ws.len() > 0 {
        let w = sub_chars(&ws[0], 0, ws[0].len());
        assert(w@ =~= ws@[0]@);
        assert(views(ws@)[0] == ws@[0]@);
        Some(w)
    } else {
        None
    }
}

/// The code of a character with ASCII capitals mapped to small letters.
pub open spec fn ascii_lower_code(c: char) -> u32 {
    if 'A' <= c <= 'Z' {
        (c as u32 + 32) as u32
    } else {
        c as u32
    }
}

/// `a` and `b` are equal when ASCII letter case is ignored (`str::eq_ignore_ascii_case`).
pub open spec fn eq_ignore_ascii_case_seq(a: Seq<char>, b: Seq<char>) -> bool {
    a.len() == b.len() && forall|i: int| 0 <= i < a.len() ==> ascii_lower_code(#[trigger] a[i])
        == ascii_lower_code(b[i])
}

fn lower_code(c: char) -> (r: u32)
    ensures
        r == ascii_lower_code(c),
{
    let x = c as u32;
    if 'A' <= c && c <= 'Z' {
        x + 32
    } else {
        x
    }
}

/// `str::eq_ignore_ascii_case` on a character slice and a string.
pub fn eq_ignore_ascii_case(a: &[char], b: &str) -> (r: bool)
    ensures
        r == eq_ignore_ascii_case_seq(a@, b@),
{
    let bc = chars_of(b);
    if a.len() != bc.len() {
        return false;
    }
    let mut i: usize = 0;
    while i < a.len()
        invariant
            i <= a@.len(),
            a@.len() == bc@.len(),
            bc@ == b@,
            forall|k: int| 0 <= k < i ==> ascii_lower_code(#[trigger] a@[k]) == ascii_lower_code(bc@[k]),
        decreases a.len() - i,
    {
        if lower_code(a[i]) != lower_code(bc[i]) {
            return false;
        }
        i = i + 1;
    }
    true
}

// ---------------------------------------------------------------------------
// Splitting
// ---------------------------------------------------------------------------

/// A line without the `\r` that preceded its `\n`.
pub open spec fn strip_cr(l: Seq<char>) -> Seq<char> {
    if l.len() > 0 && l.last() == '\r' {
        l.drop_last()
    } else {
        l
    }
}

/// The lines of `s` as `str::lines` yields them: split at `\n`, a `\r` before the `\n`
/// removed, and no empty line after a final `\n`.
pub open spec fn lines_of(s: Seq<char>) -> Seq<Seq<char>>
    decreases s.len(),
{
    if s.len() == 0 {
        seq![]
    } else {
        match find_seq(s, seq!['\n']) {
            Some(k) => if 0 <= k < s.len() {
                seq![strip_cr(s.take(k))] + lines_of(s.skip(k + 1))
            } else {
                seq![s]
            },
            None => seq![s],
        }
    }
}

/// The views of a sequence of character vectors.
pub open spec fn views(v: Seq<Vec<char>>) -> Seq<Seq<char>> {
    v.map_values(|x: Vec<char>| x@)
}

proof fn lemma_views_push(v: Seq<Vec<char>>, x: Vec<char>)
    ensures
        views(v.push(x)) == views(v).push(x@),
{
    assert(views(v.push(x)) =~= views(v).push(x@));
}

/// The lines of a character slice (`str::lines`).
pub fn lines(s: &[char]) -> (r: Vec<Vec<char>>)
    ensures
        views(r@) == lines_of(s@),
{
    let mut out: Vec<Vec<char>> = Vec::new();
    let mut rest: Vec<char> = sub_chars(s, 0, s.len());
    assert(rest@ =~= s@);
    assert(views(out@) =~= Seq::<Seq<char>>::empty());
    while rest.len() > 0
        invariant
            lines_of(s@) == views(out@) + lines_of(rest@),
        decreases rest.len(),
    {
        let nl = ['\n'];
        assert(nl@ =~= seq!['\n']);
        match find(&rest, &nl) {
            Some(k) => {
                let mut line = sub_chars(&rest, 0, k);
                if line.len() > 0 && line[line.len() - 1] == '\r' {
                    line.pop();
                }
                assert(line@ =~= strip_cr(rest@.take(k as int)));
                let next = sub_chars(&rest, k + 1, rest.len());
                assert(next@ =~= rest@.skip(k + 1));
                proof {
                    lemma_views_push(out@, line);
                    assert(lines_of(rest@) == seq![line@] + lines_of(next@));
                    assert(views(out@) + (seq![line@] + lines_of(next@))
                        =~= views(out@).push(line@) + lines_of(next@));
                }
                out.push(line);
                rest = next;
            },
            None => {
                let line = sub_chars(&rest, 0, rest.len());
                assert(line@ =~= rest@);
                proof {
                    lemma_views_push(out@, line);
                    assert(lines_of(rest@) == seq![rest@]);
                    assert(lines_of(Seq::<char>::empty()) == Seq::<Seq<char>>::empty());
                    assert(views(out@) + seq![rest@] =~= views(out@).push(line@)
                        + lines_of(Seq::<char>::empty()));
                }
                out.push(line);
                rest = Vec::new();
            },
        }
    }
    assert(lines_of(rest@) == Seq::<Seq<char>>::empty());
    assert(views(out@) + Seq::<Seq<char>>::empty() =~= views(out@));
    out
}

/// The index of the first whitespace character of `t`, or its length.
pub open spec fn first_ws(t: Seq<char>) -> nat
    decreases t.len(),
{
    if t.len() == 0 {
        0
    } else if is_ws(t[0]) {
        0
    } else {
        1 + first_ws(t.drop_first())
    }
}

/// Trimming leading whitespace leaves a suffix that starts with no whitespace.
pub proof fn lemma_trim_start_ws(s: Seq<char>)
    ensures
        trim_start_ws(s).len() <= s.len(),
        trim_start_ws(s).len() > 0 ==> !is_ws(trim_start_ws(s)[0]),
        trim_start_ws(s) == s.skip(s.len() - trim_start_ws(s).len()),
    decreases s.len(),
{
    if s.len() > 0 && is_ws(s[0]) {
        lemma_trim_start_ws(s.drop_first());
        assert(s.drop_first().skip(s.drop_first().len() - trim_start_ws(s.drop_first()).len())
            =~= s.skip(s.len() - trim_start_ws(s).len()));
    } else {
        assert(s.skip(0) =~= s);
    }
}

/// `first_ws` is the position of the first whitespace character (or the length).
pub proof fn lemma_first_ws(t: Seq<char>)
    ensures
        first_ws(t) <= t.len(),
        t.len() > 0 && !is_ws(t[0]) ==> first_ws(t) >= 1,
        forall|i: int| 0 <= i < first_ws(t) ==> !is_ws(#[trigger] t[i]),
        first_ws(t) < t.len() ==> is_ws(t[first_ws(t) as int]),
    decreases t.len(),
{
    if t.len() > 0 && !is_ws(t[0]) {
        lemma_first_ws(t.drop_first());
        assert forall|i: int| 0 <= i < first_ws(t) implies !is_ws(#[trigger] t[i]) by {
            if i > 0 {
                assert(t[i] == t.drop_first()[i - 1]);
            }
        }
    }
}

/// The whitespace-separated words of `s` (`str::split_whitespace`).
pub open spec fn words_of(s: Seq<char>) -> Seq<Seq<char>>
    decreases s.len(),
{
    let t = trim_start_ws(s);
    if t.len() == 0 {
        seq![]
    } else {
        proof {
            lemma_trim_start_ws(s);
            lemma_first_ws(t);
        }
        seq![t.take(first_ws(t) as int)] + words_of(t.skip(first_ws(t) as int))
    }
}

/// The whitespace-separated words of a character slice (`str::split_whitespace`).
pub fn words(s: &[char]) -> (r: Vec<Vec<char>>)
    ensures
        views(r@) == words_of(s@),
{
    let mut out: Vec<Vec<char>> = Vec::new();
    let mut rest: Vec<char> = sub_chars(s, 0, s.len());
    assert(rest@ =~= s@);
    assert(views(out@) =~= Seq::<Seq<char>>::empty());
    loop
        invariant
            words_of(s@) == views(out@) + words_of(rest@),
        decreases rest.len(),
    {
        let n = rest.len();
        let mut i: usize = 0;
        assert(rest@.skip(0) =~= rest@);
        while i < n && is_whitespace(rest[i])
            invariant
                i <= n == rest.len(),
                trim_start_ws(rest@.skip(i as int)) == trim_start_ws(rest@),
            decreases n - i,
        {
            proof { lemma_trim_start_ws_skip(rest@, i as int); }
            i = i + 1;
        }
        let ghost t = trim_start_ws(rest@);
        assert(t == rest@.skip(i as int));
        if i == n {
            assert(t.len() == 0);
            assert(words_of(rest@) == Seq::<Seq<char>>::empty());
            assert(views(out@) + Seq::<Seq<char>>::empty() =~= views(out@));
            return out;
        }
        let mut j: usize = i;
        while j < n && !is_whitespace(rest[j])
            invariant
                i <= j <= n == rest.len(),
                forall|k: int| i <= k < j ==> !is_ws(#[trigger] rest@[k]),
            decreases n - j,
        {
            j = j + 1;
        }
        proof {
            lemma_trim_start_ws(rest@);
            lemma_first_ws(t);
            assert(first_ws(t) == j - i) by {
                if first_ws(t) < j - i {
                    assert(is_ws(t[first_ws(t) as int]));
                    assert(t[first_ws(t) as int] == rest@[i + first_ws(t)]);
                }
                if first_ws(t) > j - i {
                    assert(j < n);
                    assert(!is_ws(t[(j - i) as int]));
                    assert(t[(j - i) as int] == rest@[j as int]);
                }
            }
        }
        let word = sub_chars(&rest, i, j);
        let next = sub_chars(&rest, j, n);
        assert(word@ =~= t.take(first_ws(t) as int));
        assert(next@ =~= t.skip(first_ws(t) as int));
        proof {
            lemma_views_push(out@, word);
            assert(views(out@) + (seq![word@] + words_of(next@))
                =~= views(out@).push(word@) + words_of(next@));
        }
        out.push(word);
        rest = next;
    }
}

/// `s` without the leading `prefix` (`str::strip_prefix`), when it starts with it.
pub fn strip_prefix(s: &[char], prefix: &str) -> (r: Option<Vec<char>>)
    ensures
        match r {
            Some(v) => starts_with_seq(s@, prefix@) && v@ == s@.skip(prefix@.len() as int),
            None => !starts_with_seq(s@, prefix@),
        },
{
    let p = chars_of(prefix);
    if starts_with(s, prefix) {
        Some(sub_chars(s, p.len(), s.len()))
    } else {
        None
    }
}

/// The parts of `s` before and after the first occurrence of `c` (`str::split_once`).
pub open spec fn split_once_seq(s: Seq<char>, c: char) -> Option<(Seq<char>, Seq<char>)> {
    match find_seq(s, seq![c]) {
        Some(k) => Some((s.take(k), s.skip(k + 1))),
        None => None,
    }
}

/// `str::split_once` with a character separator.
pub fn split_once(s: &[char], c: char) -> (r: Option<(Vec<char>, Vec<char>)>)
    ensures
        match r {
            Some((a, b)) => split_once_seq(s@, c) == Some((a@, b@)),
            None => split_once_seq(s@, c) is None,
        },
{
    let sep = [c];
    assert(sep@ =~= seq![c]);
    match find(s, &sep) {
        Some(k) => {
            assert(match_at(s@, sep@, k as int));
            assert(sep@.len() == 1);
            assert(k + 1 <= s@.len());
            assert(s@.len() == s.len());
            let a = sub_chars(s, 0, k);
            let b = sub_chars(s, k + 1, s.len());
            assert(a@ =~= s@.take(k as int));
            assert(b@ =~= s@.skip(k + 1));
            Some((a, b))
        },
        None => None,
    }
}

/// The pieces of `s` between occurrences of `c` (`str::split` with a character).
pub open spec fn split_seq(s: Seq<char>, c: char) -> Seq<Seq<char>>
    decreases s.len(),
{
    match find_seq(s, seq![c]) {
        Some(k) => if 0 <= k < s.len() {
            seq![s.take(k)] + split_seq(s.skip(k + 1), c)
        } else {
            seq![s]
        },
        None => seq![s],
    }
}

/// `str::split` with a character separator.
pub fn split(s: &[char], c: char) -> (r: Vec<Vec<char>>)
    ensures
        views(r@) == split_seq(s@, c),
{
    let mut out: Vec<Vec<char>> = Vec::new();
    let mut rest: Vec<char> = sub_chars(s, 0, s.len());
    assert(rest@ =~= s@);
    assert(views(out@) =~= Seq::<Seq<char>>::empty());
    let sep = [c];
    assert(sep@ =~= seq![c]);
    loop
        invariant
            sep@ == seq![c],
            split_seq(s@, c) == views(out@) + split_seq(rest@, c),
        decreases rest.len(),
    {
        match find(&rest, &sep) {
            Some(k) => {
                let piece = sub_chars(&rest, 0, k);
                let next = sub_chars(&rest, k + 1, rest.len());
                assert(piece@ =~= rest@.take(k as int));
                assert(next@ =~= rest@.skip(k + 1));
                proof {
                    lemma_views_push(out@, piece);
                    assert(views(out@) + (seq![piece@] + split_seq(next@, c))
                        =~= views(out@).push(piece@) + split_seq(next@, c));
                }
                out.push(piece);
                rest = next;
            },
            None => {
                let piece = sub_chars(&rest, 0, rest.len());
                assert(piece@ =~= rest@);
                proof {
                    lemma_views_push(out@, piece);
                    assert(views(out@) + seq![piece@] =~= views(out@).push(piece@));
                }
                out.push(piece);
                return out;
            },
        }
    }
}


// ---------------------------------------------------------------------------
// Digit trimming, truncation, character replacement
// ---------------------------------------------------------------------------

/// `s` without its leading non-digit characters.
pub open spec fn trim_start_nondigit(s: Seq<char>) -> Seq<char>
    decreases s.len(),
{
    if s.len() > 0 && !is_digit(s[0]) {
        trim_start_nondigit(s.drop_first())
    } else {
        s
    }
}

/// `s` without its trailing non-digit characters.
pub open spec fn trim_end_nondigit(s: Seq<char>) -> Seq<char>
    decreases s.len(),
{
    if s.len() > 0 && !is_digit(s.last()) {
        trim_end_nondigit(s.drop_last())
    } else {
        s
    }
}

/// `s` without non-digit characters at either end
/// (`str::trim_matches(|c| !c.is_ascii_digit())`).
pub open spec fn trim_nondigit(s: Seq<char>) -> Seq<char> {
    trim_end_nondigit(trim_start_nondigit(s))
}

/// Executable form of [`trim_nondigit`].
pub fn trim_non_digits(s: &[char]) -> (r: Vec<char>)
    ensures
        r@ == trim_nondigit(s@),
{
    let n = s.len();
    let mut i: usize = 0;
    assert(s@.skip(0) =~= s@);
    while i < n && !('0' <= s[i] && s[i] <= '9')
        invariant
            i <= n == s.len(),
            trim_start_nondigit(s@.skip(i as int)) == trim_start_nondigit(s@),
        decreases n - i,
    {
        assert(s@.skip(i as int).drop_first() =~= s@.skip(i + 1));
        i = i + 1;
    }
    let ghost t = s@.skip(i as int);
    assert(trim_start_nondigit(t) == t);
    let mut j: usize = n;
    assert(t.take((j - i) as int) =~= t);
    while j > i && !('0' <= s[j - 1] && s[j - 1] <= '9')
        invariant
            i <= j <= n == s.len(),
            t == s@.skip(i as int),
            trim_end_nondigit(t.take((j - i) as int)) == trim_end_nondigit(t),
        decreases j - i,
    {
        assert(t[(j - i) - 1] == s@[j - 1]);
        assert(t.take((j - i) as int).drop_last() =~= t.take((j - i) - 1));
        j = j - 1;
    }
    assert(t.take((j - i) as int) =~= s@.subrange(i as int, j as int));
    sub_chars(s, i, j)
}

/// Whether every character is a decimal digit.
pub fn is_all_digits(s: &[char]) -> (r: bool)
    ensures
        r == all_digits(s@),
{
    let mut i: usize = 0;
    while i < s.len()
        invariant
            i <= s.len(),
            forall|k: int| 0 <= k < i ==> is_digit(#[trigger] s@[k]),
        decreases s.len() - i,
    {
        if !('0' <= s[i] && s[i] <= '9') {
            assert(!is_digit(s@[i as int]));
            return false;
        }
        i = i + 1;
    }
    true
}

/// `s` with every `from` replaced by `to`.
pub open spec fn replace_char(s: Seq<char>, from: char, to: char) -> Seq<char> {
    s.map_values(|c: char| if c == from { to } else { c })
}

/// Executable form of [`replace_char`] (`str::replace` with two characters).
pub fn replace_chars(s: &[char], from: char, to: char) -> (r: Vec<char>)
    ensures
        r@ == replace_char(s@, from, to),
{
    let mut out: Vec<char> = Vec::new();
    let mut i: usize = 0;
    while i < s.len()
        invariant
            i <= s.len(),
            out@ == replace_char(s@.take(i as int), from, to),
        decreases s.len() - i,
    {
        out.push(if s[i] == from { to } else { s[i] });
        i = i + 1;
        assert(out@ =~= replace_char(s@.take(i as int), from, to));
    }
    assert(s@.take(s.len() as int) =~= s@);
    out
}

/// `s` shortened to `max_len` characters, the last three of which become `...`
/// when anything is cut.
pub open spec fn truncated(s: Seq<char>, max_len: nat) -> Seq<char> {
    if s.len() <= max_len {
        s
    } else {
        s.take(if max_len >= 3 { max_len - 3 } else { 0 }) + "..."@
    }
}

/// Executable form of [`truncated`].
pub fn truncate_chars(s: &[char], max_len: usize) -> (r: Vec<char>)
    ensures
        r@ == truncated(s@, max_len as nat),
{
    if s.len() <= max_len {
        sub_chars(s, 0, s.len())
    } else {
        let keep = if max_len >= 3 { max_len - 3 } else { 0 };
        let mut out = sub_chars(s, 0, keep);
        append_str(&mut out, "...");
        out
    }
}


/// `s` padded with spaces on the right to at least `width` characters (`{:<width}`).
pub open spec fn pad_right(s: Seq<char>, width: nat) -> Seq<char> {
    if s.len() >= width {
        s
    } else {
        s + Seq::new((width - s.len()) as nat, |i: int| ' ')
    }
}

/// Executable form of [`pad_right`].
pub fn pad_right_chars(s: &[char], width: usize) -> (r: Vec<char>)
    ensures
        r@ == pad_right(s@, width as nat),
{
    let mut out = sub_chars(s, 0, s.len());
    assert(out@ =~= s@);
    while out.len() < width
        invariant
            out@.len() <= if s@.len() >= width { s@.len() } else { width as nat },
            out@.len() >= s@.len(),
            out@ == s@ + Seq::new((out@.len() - s@.len()) as nat, |i: int| ' '),
        decreases width - out.len(),
    {
        let ghost prev = out@;
        out.push(' ');
        assert(out@ =~= s@ + Seq::new((out@.len() - s@.len()) as nat, |i: int| ' '));
    }
    assert(s@.len() < width ==> out@.len() == width);
    out
}

/// `a` followed by `b`.
pub fn concat_str(a: &str, b: &str) -> (r: String)
    ensures
        r@ == a@ + b@,
{
    let mut v = chars_of(a);
    append_str(&mut v, b);
    string_of(&v)
}

/// The views of a list of strings.
pub open spec fn string_views(v: Seq<String>) -> Seq<Seq<char>> {
    v.map_values(|s: String| s@)
}

/// Appends a copy of `text` to `v` when `cond` holds.
pub fn push_text_if(v: &mut Vec<String>, cond: bool, text: &str)
    ensures
        string_views(final(v)@) == string_views(old(v)@) + (if cond { seq![text@] } else { seq![] }),
{
    if cond {
        v.push(text.to_owned());
    }
    assert(string_views(v@) =~= string_views(old(v)@) + (if cond { seq![text@] } else { seq![] }));
}

// ---------------------------------------------------------------------------
// Space collapsing, suffix stripping, case-insensitive removal
// ---------------------------------------------------------------------------

/// `s` with every run of spaces shortened to a single space.
pub open spec fn collapse_spaces(s: Seq<char>) -> Seq<char>
    decreases s.len(),
{
    if s.len() < 2 {
        s
    } else if s[0] == ' ' && s[1] == ' ' {
        collapse_spaces(s.drop_first())
    } else {
        seq![s[0]] + collapse_spaces(s.drop_first())
    }
}

/// Executable form of [`collapse_spaces`].
pub fn collapse_double_spaces(s: &[char]) -> (r: Vec<char>)
    ensures
        r@ == collapse_spaces(s@),
{
    let mut out: Vec<char> = Vec::new();
    let n = s.len();
    let mut i: usize = 0;
    assert(s@.skip(0) =~= s@);
    while i < n
        invariant
            i <= n == s.len(),
            out@ + collapse_spaces(s@.skip(i as int)) == collapse_spaces(s@),
        decreases n - i,
    {
        let ghost rest = s@.skip(i as int);
        assert(rest.drop_first() =~= s@.skip(i + 1));
        if i + 1 < n && s[i] == ' ' && s[i + 1] == ' ' {
            assert(collapse_spaces(rest) == collapse_spaces(rest.drop_first()));
        } else {
            if i + 1 < n {
                assert(collapse_spaces(rest) == seq![s@[i as int]] + collapse_spaces(rest.drop_first()));
            } else {
                assert(rest =~= seq![s@[i as int]]);
                assert(collapse_spaces(rest.drop_first()) =~= Seq::<char>::empty());
                assert(collapse_spaces(rest) == seq![s@[i as int]] + collapse_spaces(rest.drop_first()));
            }
            let ghost before = out@;
            out.push(s[i]);
            assert(out@ + collapse_spaces(s@.skip(i + 1)) =~= before + (seq![s@[i as int]]
                + collapse_spaces(s@.skip(i + 1))));
        }
        i = i + 1;
    }
    assert(s@.skip(n as int) =~= Seq::<char>::empty());
    assert(out@ + Seq::<char>::empty() =~= out@);
    out
}

/// `s` with `pat` stripped from its end as many times as it occurs there
/// (`str::trim_end_matches` with a string pattern).
pub open spec fn strip_suffix_all(s: Seq<char>, pat: Seq<char>) -> Seq<char>
    decreases s.len(),
{
    if pat.len() > 0 && ends_with_seq(s, pat) {
        strip_suffix_all(s.take(s.len() - pat.len()), pat)
    } else {
        s
    }
}

/// Executable form of [`strip_suffix_all`].
pub fn trim_end_str(s: &[char], pat: &str) -> (r: Vec<char>)
    ensures
        r@ == strip_suffix_all(s@, pat@),
{
    let p = chars_of(pat);
    let mut cur = sub_chars(s, 0, s.len());
    assert(cur@ =~= s@);
    while p.len() > 0 && ends_with(&cur, pat)
        invariant
            p@ == pat@,
            strip_suffix_all(cur@, pat@) == strip_suffix_all(s@, pat@),
        decreases cur.len(),
    {
        cur = sub_chars(&cur, 0, cur.len() - p.len());
    }
    cur
}

/// `s` without the characters `[pos, pos + len)`.
pub open spec fn cut(s: Seq<char>, pos: int, len: int) -> Seq<char> {
    s.take(pos) + s.skip(pos + len)
}

/// Executable form of [`cut`] (`String::replace_range` with an empty replacement).
pub fn cut_chars(s: &[char], pos: usize, len: usize) -> (r: Vec<char>)
    requires
        pos + len <= s.len(),
    ensures
        r@ == cut(s@, pos as int, len as int),
{
    let mut out = sub_chars(s, 0, pos);
    let tail = sub_chars(s, pos + len, s.len());
    append_chars(&mut out, &tail);
    assert(tail@ =~= s@.skip(pos + len));
    assert(out@ =~= s@.take(pos as int) + s@.skip(pos + len));
    out
}

/// The number of bytes of a character in UTF-8 (`char::len_utf8`).
pub open spec fn utf8_width(c: char) -> nat {
    if (c as u32) < 0x80 {
        1
    } else if (c as u32) < 0x800 {
        2
    } else if (c as u32) < 0x10000 {
        3
    } else {
        4
    }
}

/// The number of bytes of a string in UTF-8 (`str::len`).
pub open spec fn utf8_len(s: Seq<char>) -> nat
    decreases s.len(),
{
    if s.len() == 0 {
        0
    } else {
        utf8_len(s.drop_last()) + utf8_width(s.last())
    }
}

/// Longer prefixes take strictly more bytes.
pub proof fn lemma_utf8_len_grows(s: Seq<char>, i: int, j: int)
    requires
        0 <= i < j <= s.len(),
    ensures
        utf8_len(s.take(i)) < utf8_len(s.take(j)),
    decreases j - i,
{
    assert(s.take(j).drop_last() =~= s.take(j - 1));
    if i < j - 1 {
        lemma_utf8_len_grows(s, i, j - 1);
    }
}

/// The character index of `s` at which byte offset `b` lies, when it is a character
/// boundary (`str::is_char_boundary`).
pub open spec fn char_index_at(s: Seq<char>, b: int) -> Option<int> {
    if exists|i: int| 0 <= i <= s.len() && utf8_len(#[trigger] s.take(i)) == b {
        Some(choose|i: int| 0 <= i <= s.len() && utf8_len(#[trigger] s.take(i)) == b)
    } else {
        None
    }
}

/// The characters of `s` that `str::replace_range` removes for the first occurrence of
/// `pat` in the lowercase mapping of `s` (`str::find`). The occurrence is found in the
/// mapping and its byte range is cut from `s` itself; the mapping may have a different
/// length in bytes, so the range is taken in bytes. `None` when there is no occurrence, or
/// when the range does not fall on character boundaries of `s` (where `replace_range`
/// would panic).
pub open spec fn lower_match(s: Seq<char>, pat: Seq<char>) -> Option<(int, int)> {
    match find_seq(lowercase(s), pat) {
        Some(p) => {
            let start = utf8_len(lowercase(s).take(p));
            let end = start + utf8_len(pat);
            match (char_index_at(s, start as int), char_index_at(s, end as int)) {
                (Some(i), Some(j)) => Some((i, j)),
                _ => None,
            }
        },
        None => None,
    }
}

/// A case-insensitive match of a non-empty pattern covers a non-empty range of
/// characters of `s`.
pub proof fn lemma_lower_match_range(s: Seq<char>, pat: Seq<char>)
    requires
        pat.len() > 0,
    ensures
        lower_match(s, pat) matches Some((i, j)) ==> 0 <= i < j <= s.len(),
{
    if let Some((i, j)) = lower_match(s, pat) {
        assert(utf8_len(pat) > 0);
        if j == i {
        } else if j < i {
            lemma_utf8_len_grows(s, j, i);
        }
    }
}

/// `s` after removing, again and again, the first occurrence of `pat` in its
/// lowercase mapping.
pub open spec fn remove_all_lower(s: Seq<char>, pat: Seq<char>) -> Seq<char>
    decreases s.len(),
{
    if pat.len() == 0 {
        s
    } else {
        match lower_match(s, pat) {
            Some((i, j)) => if 0 <= i < j <= s.len() {
                remove_all_lower(cut(s, i, j - i), pat)
            } else {
                s
            },
            None => s,
        }
    }
}

/// Removing every case-insensitive occurrence of a non-empty pattern leaves none.
pub proof fn lemma_remove_all_lower_clean(s: Seq<char>, pat: Seq<char>)
    requires
        pat.len() > 0,
    ensures
        lower_match(remove_all_lower(s, pat), pat) is None,
    decreases s.len(),
{
    lemma_lower_match_range(s, pat);
    if let Some((i, j)) = lower_match(s, pat) {
        lemma_remove_all_lower_clean(cut(s, i, j - i), pat);
    }
}

fn char_width(c: char) -> (r: u128)
    ensures
        r == utf8_width(c),
{
    let u = c as u32;
    if u < 0x80 {
        1
    } else if u < 0x800 {
        2
    } else if u < 0x10000 {
        3
    } else {
        4
    }
}

/// The number of UTF-8 bytes of the first `k` characters.
fn utf8_prefix_len(s: &[char], k: usize) -> (r: u128)
    requires
        k <= s.len(),
    ensures
        r == utf8_len(s@.take(k as int)),
        r <= 4 * (k as int),
{
    let mut acc: u128 = 0;
    let mut i: usize = 0;
    assert(s@.take(0) =~= Seq::<char>::empty());
    while i < k
        invariant
            i <= k <= s.len(),
            acc == utf8_len(s@.take(i as int)),
            acc <= 4 * (i as int),
        decreases k - i,
    {
        assert(s@.take(i + 1).drop_last() =~= s@.take(i as int));
        acc = acc + char_width(s[i]);
        i = i + 1;
    }
    acc
}

/// The character index at which byte offset `b` lies, if it is a character boundary.
fn char_index_of(s: &[char], b: u128) -> (r: Option<usize>)
    requires
        b < u128::MAX - 4,
    ensures
        match r {
            Some(i) => char_index_at(s@, b as int) == Some(i as int) && i <= s@.len(),
            None => char_index_at(s@, b as int) is None,
        },
{
    let mut acc: u128 = 0;
    let mut i: usize = 0;
    assert(s@.take(0) =~= Seq::<char>::empty());
    while i <= s.len()
        invariant
            i <= s.len() + 1,
            b < u128::MAX - 4,
            i <= s.len() ==> acc == utf8_len(s@.take(i as int)),
            acc <= b,
            forall|k: int| 0 <= k < i && k <= s@.len() ==> utf8_len(#[trigger] s@.take(k)) < b,
        decreases s.len() + 1 - i,
    {
        if acc == b {
            proof {
                assert(utf8_len(s@.take(i as int)) == b);
                let c = choose|k: int| 0 <= k <= s@.len() && utf8_len(#[trigger] s@.take(k)) == b;
                if c < i {
                    assert(utf8_len(s@.take(c)) < b);
                } else if c > i {
                    lemma_utf8_len_grows(s@, i as int, c);
                }
            }
            return Some(i);
        }
        if i == s.len() {
            proof {
                assert forall|k: int| 0 <= k <= s@.len() implies utf8_len(#[trigger] s@.take(k)) != b by {
                    if k == i {
                    } else {
                        assert(utf8_len(s@.take(k)) < b);
                    }
                }
            }
            return None;
        }
        assert(s@.take(i + 1).drop_last() =~= s@.take(i as int));
        let next = acc + char_width(s[i]);
        if next > b {
            proof {
                assert forall|k: int| 0 <= k <= s@.len() implies utf8_len(#[trigger] s@.take(k)) != b by {
                    if k > i + 1 {
                        lemma_utf8_len_grows(s@, i + 1, k);
                    } else if k <= i {
                        if k < i {
                            assert(utf8_len(s@.take(k)) < b);
                        }
                    }
                }
            }
            return None;
        }
        acc = next;
        i = i + 1;
    }
    None
}

/// The character range that removing the first occurrence of `pat` in the lowercase
/// mapping `lower` of `s` cuts from `s`.
pub fn find_lower(s: &[char], lower: &[char], pat: &[char]) -> (r: Option<(usize, usize)>)
    requires
        lower@ == lowercase(s@),
    ensures
        match r {
            Some((i, j)) => lower_match(s@, pat@) == Some((i as int, j as int)) && i <= j <= s@.len() && (
            pat@.len() > 0 ==> i < j),
            None => lower_match(s@, pat@) is None,
        },
{
    match find(lower, pat) {
        Some(p) => {
            let start = utf8_prefix_len(lower, p);
            let plen = utf8_prefix_len(pat, pat.len());
            assert(pat@.take(pat@.len() as int) =~= pat@);
            let end = start + plen;
            match (char_index_of(s, start), char_index_of(s, end)) {
                (Some(i), Some(j)) => {
                    proof {
                        if i > j {
                            lemma_utf8_len_grows(s@, j as int, i as int);
                        }
                        if pat@.len() > 0 && i == j {
                            assert(utf8_len(pat@) > 0) by {
                                assert(utf8_len(pat@) == utf8_len(pat@.drop_last()) + utf8_width(pat@.last()));
                            }
                        }
                    }
                    Some((i, j))
                },
                _ => None,
            }
        },
        None => None,
    }
}

/// Executable form of [`remove_all_lower`].
pub fn remove_all_lowercase(s: &[char], pat: &[char]) -> (r: Vec<char>)
    ensures
        r@ == remove_all_lower(s@, pat@),
{
    let mut cur = sub_chars(s, 0, s.len());
    assert(cur@ =~= s@);
    if pat.len() == 0 {
        return cur;
    }
    loop
        invariant
            pat@.len() > 0,
            remove_all_lower(cur@, pat@) == remove_all_lower(s@, pat@),
        decreases cur.len(),
    {
        let lower = lowercase_chars(&cur);
        match find_lower(&cur, &lower, pat) {
            Some((i, j)) => {
                cur = cut_chars(&cur, i, j - i);
            },
            None => {
                return cur;
            },
        }
    }
}


// ---------------------------------------------------------------------------
// Paths and character classes
// ---------------------------------------------------------------------------

/// `Path::join` on Unix: an absolute `rel` replaces `base`; otherwise a `/` is put between
/// them unless `base` is empty or already ends with `/`.
pub open spec fn path_join(base: Seq<char>, rel: Seq<char>) -> Seq<char> {
    if rel.len() > 0 && rel[0] == '/' {
        rel
    } else if base.len() == 0 || base.last() == '/' {
        base + rel
    } else {
        base + seq!['/'] + rel
    }
}

/// Executable form of [`path_join`].
pub fn join_path(base: &str, rel: &str) -> (r: String)
    ensures
        r@ == path_join(base@, rel@),
{
    let b = chars_of(base);
    let r = chars_of(rel);
    if r.len() > 0 && r[0] == '/' {
        return rel.to_owned();
    }
    let mut out = b;
    if out.len() > 0 && out[out.len() - 1] != '/' {
        out.push('/');
    }
    append_chars(&mut out, &r);
    string_of(&out)
}

/// What `char::is_alphanumeric` says of a character (Unicode `Alphabetic` or `Numeric`).
pub uninterp spec fn alphanumeric(c: char) -> bool;

/// std `char::is_alphanumeric`. The contract only names the result, a property of the
/// character alone.
#[verifier::external_body]
pub(crate) fn is_alphanumeric(c: char) -> (r: bool)
    ensures
        r == alphanumeric(c),
{
    c.is_alphanumeric()
}


// ---------------------------------------------------------------------------
// Lexicographic order (the order of `String`'s `Ord`, by code points)
// ---------------------------------------------------------------------------

/// `a` sorts strictly before `b`.
pub open spec fn seq_lt(a: Seq<char>, b: Seq<char>) -> bool
    decreases a.len(),
{
    if a.len() == 0 {
        b.len() > 0
    } else if b.len() == 0 {
        false
    } else if a[0] != b[0] {
        a[0] < b[0]
    } else {
        seq_lt(a.drop_first(), b.drop_first())
    }
}

/// No string sorts before itself.
pub proof fn lemma_lt_irreflexive(a: Seq<char>)
    ensures
        !seq_lt(a, a),
    decreases a.len(),
{
    if a.len() > 0 {
        lemma_lt_irreflexive(a.drop_first());
    }
}

/// Two strings never sort before each other.
pub proof fn lemma_lt_asymmetric(a: Seq<char>, b: Seq<char>)
    requires
        seq_lt(a, b),
    ensures
        !seq_lt(b, a),
    decreases a.len(),
{
    if a.len() > 0 && b.len() > 0 && a[0] == b[0] {
        lemma_lt_asymmetric(a.drop_first(), b.drop_first());
    }
}

/// The string order is transitive.
pub proof fn lemma_lt_transitive(a: Seq<char>, b: Seq<char>, c: Seq<char>)
    requires
        seq_lt(a, b),
        seq_lt(b, c),
    ensures
        seq_lt(a, c),
    decreases a.len(),
{
    if a.len() > 0 && b.len() > 0 && c.len() > 0 && a[0] == b[0] && b[0] == c[0] {
        lemma_lt_transitive(a.drop_first(), b.drop_first(), c.drop_first());
    }
}

/// Of two different strings one sorts before the other.
pub proof fn lemma_lt_total(a: Seq<char>, b: Seq<char>)
    requires
        a != b,
    ensures
        seq_lt(a, b) || seq_lt(b, a),
    decreases a.len(),
{
    if a.len() > 0 && b.len() > 0 && a[0] == b[0] {
        if a.drop_first() == b.drop_first() {
            assert(a =~= seq![a[0]] + a.drop_first());
            assert(b =~= seq![b[0]] + b.drop_first());
        }
        lemma_lt_total(a.drop_first(), b.drop_first());
    } else if a.len() == 0 && b.len() == 0 {
        assert(a =~= b);
    }
}

/// Whether `a` sorts strictly before `b`.
pub fn less_than(a: &[char], b: &[char]) -> (r: bool)
    ensures
        r == seq_lt(a@, b@),
{
    let mut i: usize = 0;
    assert(a@.skip(0) =~= a@);
    assert(b@.skip(0) =~= b@);
    while i < a.len() && i < b.len() && a[i] == b[i]
        invariant
            i <= a.len(),
            i <= b.len(),
            seq_lt(a@.skip(i as int), b@.skip(i as int)) == seq_lt(a@, b@),
        decreases a.len() - i,
    {
        assert(a@.skip(i as int).drop_first() =~= a@.skip(i + 1));
        assert(b@.skip(i as int).drop_first() =~= b@.skip(i + 1));
        i = i + 1;
    }
    if i == a.len() {
        i < b.len()
    } else if i == b.len() {
        false
    } else {
        a[i] < b[i]
    }
}

} // verus!
