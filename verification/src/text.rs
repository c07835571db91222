//! Character-sequence primitives shared by the parsers, the matcher and the
//! state machine. Every contract is stated over `Seq<char>`, the view of
//! `str` and `String`.

use vstd::prelude::*;

verus! {

/// Whether `char::is_whitespace` holds of `c` (the Unicode `White_Space` property).
pub uninterp spec fn unicode_whitespace(c: char) -> bool;

/// Whether `char::is_alphanumeric` holds of `c` (Unicode `Alphabetic` or a numeric category).
pub uninterp spec fn unicode_alphanumeric(c: char) -> bool;

/// The text that `str::to_lowercase` returns for `s`.
pub uninterp spec fn unicode_lowercase(s: Seq<char>) -> Seq<char>;

/// `char::is_whitespace`: the result depends on the character alone and is named
/// `unicode_whitespace`.
pub assume_specification[ char::is_whitespace ](c: char) -> (b: bool)
    ensures
        b == unicode_whitespace(c),
;

/// `char::is_alphanumeric`: the result depends on the character alone and is named
/// `unicode_alphanumeric`.
pub assume_specification[ char::is_alphanumeric ](c: char) -> (b: bool)
    ensures
        b == unicode_alphanumeric(c),
;

/// `str::to_lowercase`: the result depends on the text alone and is named
/// `unicode_lowercase`.
pub assume_specification[ str::to_lowercase ](s: &str) -> (r: std::string::String)
    ensures
        r@ == unicode_lowercase(s@),
;

/// `String::push` appends the character to the end of the string.
pub assume_specification[ std::string::String::push ](s: &mut std::string::String, c: char)
    ensures
        final(s)@ == old(s)@.push(c),
;

/// A set of characters that the scanners below test membership in.
#[derive(Clone, Copy, Debug)]
pub enum CharClass {
    /// Unicode whitespace.
    Whitespace,
    /// Everything that is not Unicode alphanumeric.
    NotAlphanumeric,
    /// Exactly one character.
    Is(char),
    /// Line feed or carriage return.
    LineBreak,
    /// Everything that is not Unicode whitespace.
    NotWhitespace,
    /// The characters from the first to the second, both included.
    Between(char, char),
}

impl CharClass {
    /// Whether the character belongs to the class.
    pub open spec fn has(self, c: char) -> bool {
        match self {
            CharClass::Whitespace => unicode_whitespace(c),
            CharClass::NotAlphanumeric => !unicode_alphanumeric(c),
            CharClass::Is(x) => c == x,
            CharClass::LineBreak => c == '\n' || c == '\r',
            CharClass::NotWhitespace => !unicode_whitespace(c),
            CharClass::Between(low, high) => low <= c && c <= high,
        }
    }

    /// Tests whether the character belongs to the class.
    pub fn contains(&self, c: char) -> (b: bool)
        ensures
            b == self.has(c),
    {
        match self {
            CharClass::Whitespace => c.is_whitespace(),
            CharClass::NotAlphanumeric => !c.is_alphanumeric(),
            CharClass::Is(x) => c == *x,
            CharClass::LineBreak => c == '\n' || c == '\r',
            CharClass::NotWhitespace => !c.is_whitespace(),
            CharClass::Between(low, high) => *low <= c && c <= *high,
        }
    }
}

/// The characters of `s`, one per element.
pub fn chars_of(s: &str) -> (v: Vec<char>)
    ensures
        v@ == s@,
{
    let mut v: Vec<char> = Vec::new();
    for c in it: s.chars()
        invariant
            v@ == it.seq().take(it.index() as int),
            it.seq() == s@,
    {
        v.push(c);
    }
    v
}

/// The string made of the characters of `v`, in order.
pub fn string_of(v: &Vec<char>) -> (s: String)
    ensures
        s@ == v@,
{
    let mut s = String::new();
    let mut i: usize = 0;
    while i < v.len()
        invariant
            i <= v.len(),
            s@ == v@.take(i as int),
        decreases v.len() - i,
    {
        s.push(v[i]);
        i += 1;
    }
    s
}

/// The views of a sequence of strings.
pub open spec fn views(v: Seq<String>) -> Seq<Seq<char>> {
    Seq::new(v.len(), |i: int| v[i]@)
}

/// The views of a sequence of character vectors.
pub open spec fn rows(v: Seq<Vec<char>>) -> Seq<Seq<char>> {
    Seq::new(v.len(), |i: int| v[i]@)
}

/// Turns each character vector into a string.
pub fn strings_of(parts: &Vec<Vec<char>>) -> (out: Vec<String>)
    ensures
        views(out@) == rows(parts@),
{
    let mut out: Vec<String> = Vec::new();
    let mut i: usize = 0;
    while i < parts.len()
        invariant
            i <= parts.len(),
            out.len() == i,
            forall|j: int| 0 <= j < i ==> (#[trigger] out@[j])@ == parts@[j]@,
        decreases parts.len() - i,
    {
        out.push(string_of(&parts[i]));
        i += 1;
    }
    assert(views(out@) =~= rows(parts@));
    out
}

/// Turns each string into its character vector.
pub fn chars_of_each(parts: &Vec<String>) -> (out: Vec<Vec<char>>)
    ensures
        rows(out@) == views(parts@),
{
    let mut out: Vec<Vec<char>> = Vec::new();
    let mut i: usize = 0;
    while i < parts.len()
        invariant
            i <= parts.len(),
            out.len() == i,
            forall|j: int| 0 <= j < i ==> (#[trigger] out@[j])@ == parts@[j]@,
        decreases parts.len() - i,
    {
        out.push(chars_of(parts[i].as_str()));
        i += 1;
    }
    assert(rows(out@) =~= views(parts@));
    out
}

/// A copy of `v[from..to]`.
pub fn copy_range(v: &Vec<char>, from: usize, to: usize) -> (out: Vec<char>)
    requires
        from <= to <= v.len(),
    ensures
        out@ == v@.subrange(from as int, to as int),
{
    let mut out: Vec<char> = Vec::new();
    let mut i: usize = from;
    while i < to
        invariant
            from <= i <= to <= v.len(),
            out@ == v@.subrange(from as int, i as int),
        decreases to - i,
    {
        out.push(v[i]);
        i += 1;
    }
    out
}

/// Appends the characters of `tail` to `out`.
pub fn append_chars(out: &mut Vec<char>, tail: &Vec<char>)
    ensures
        final(out)@ == old(out)@ + tail@,
{
    let mut i: usize = 0;
    while i < tail.len()
        invariant
            i <= tail.len(),
            out@ == old(out)@ + tail@.take(i as int),
        decreases tail.len() - i,
    {
        out.push(tail[i]);
        i += 1;
    }
    assert(tail@.take(tail.len() as int) == tail@);
}

/// Whether two character vectors hold the same text.
pub fn same_chars(a: &Vec<char>, b: &Vec<char>) -> (r: bool)
    ensures
        r == (a@ == b@),
{
    if a.len() != b.len() {
        return false;
    }
    let mut i: usize = 0;
    while i < a.len()
        invariant
            i <= a.len(),
            a.len() == b.len(),
            a@.take(i as int) == b@.take(i as int),
        decreases a.len() - i,
    {
        if a[i] != b[i] {
            return false;
        }
        assert(a@.take(i + 1) == a@.take(i as int).push(a@[i as int]));
        assert(b@.take(i + 1) == b@.take(i as int).push(b@[i as int]));
        i += 1;
    }
    assert(a@.take(a.len() as int) == a@);
    assert(b@.take(b.len() as int) == b@);
    true
}

// ---------------------------------------------------------------------------
// ASCII case
// ---------------------------------------------------------------------------

/// `'A'..='Z'` mapped to `'a'..='z'`; every other character unchanged.
pub open spec fn ascii_lower(c: char) -> char {
    if 'A' <= c && c <= 'Z' {
        ((c as u32) + 32) as char
    } else {
        c
    }
}

/// The text with its ASCII capitals as small letters.
pub open spec fn ascii_lowercase(s: Seq<char>) -> Seq<char> {
    Seq::new(s.len(), |i: int| ascii_lower(s[i]))
}

/// Whether the character is one of `0` to `9`.
pub open spec fn is_ascii_digit(c: char) -> bool {
    '0' <= c && c <= '9'
}

/// Whether the character is an ASCII letter or digit.
pub open spec fn is_ascii_alphanumeric(c: char) -> bool {
    ('0' <= c && c <= '9') || ('a' <= c && c <= 'z') || ('A' <= c && c <= 'Z')
}

/// The character as a small letter where it is an ASCII capital.
pub fn to_ascii_lower(c: char) -> (r: char)
    ensures
        r == ascii_lower(c),
{
    if 'A' <= c && c <= 'Z' {
        let b: u8 = c as u8;
        (b + 32) as char
    } else {
        c
    }
}

/// The text with its ASCII capitals as small letters.
pub fn to_ascii_lowercase(v: &Vec<char>) -> (out: Vec<char>)
    ensures
        out@ == ascii_lowercase(v@),
{
    let mut out: Vec<char> = Vec::new();
    let mut i: usize = 0;
    while i < v.len()
        invariant
            i <= v.len(),
            out.len() == i,
            forall|j: int| 0 <= j < i ==> #[trigger] out@[j] == ascii_lower(v@[j]),
        decreases v.len() - i,
    {
        out.push(to_ascii_lower(v[i]));
        i += 1;
    }
    assert(out@ =~= ascii_lowercase(v@));
    out
}

/// Tests whether the character is one of `0` to `9`.
pub fn ascii_digit(c: char) -> (b: bool)
    ensures
        b == is_ascii_digit(c),
{
    '0' <= c && c <= '9'
}

/// Tests whether the character is an ASCII letter or digit.
pub fn ascii_alphanumeric(c: char) -> (b: bool)
    ensures
        b == is_ascii_alphanumeric(c),
{
    ('0' <= c && c <= '9') || ('a' <= c && c <= 'z') || ('A' <= c && c <= 'Z')
}

// ---------------------------------------------------------------------------
// Stripping
// ---------------------------------------------------------------------------

/// How many characters at the front of `s` belong to `k`.
pub open spec fn leading(s: Seq<char>, k: CharClass) -> nat
    decreases s.len(),
{
    if s.len() > 0 && k.has(s[0]) {
        1 + leading(s.drop_first(), k)
    } else {
        0
    }
}

/// How many characters at the back of `s` belong to `k`.
pub open spec fn trailing(s: Seq<char>, k: CharClass) -> nat
    decreases s.len(),
{
    if s.len() > 0 && k.has(s.last()) {
        1 + trailing(s.drop_last(), k)
    } else {
        0
    }
}

/// The text without the characters of the class at its front.
pub open spec fn strip_start(s: Seq<char>, k: CharClass) -> Seq<char> {
    s.skip(leading(s, k) as int)
}

/// The text without the characters of the class at its back.
pub open spec fn strip_end(s: Seq<char>, k: CharClass) -> Seq<char> {
    s.take(s.len() - trailing(s, k))
}

/// The text without the characters of the class at its front and back.
pub open spec fn strip(s: Seq<char>, k: CharClass) -> Seq<char> {
    strip_end(strip_start(s, k), k)
}

/// `s` without its leading and trailing Unicode whitespace.
pub open spec fn trimmed(s: Seq<char>) -> Seq<char> {
    strip(s, CharClass::Whitespace)
}

/// `leading` is the length of the longest prefix inside the class.
pub proof fn lemma_leading(s: Seq<char>, k: CharClass, n: nat)
    requires
        n <= s.len(),
        forall|i: int| 0 <= i < n ==> k.has(#[trigger] s[i]),
        n == s.len() || !k.has(s[n as int]),
    ensures
        leading(s, k) == n,
    decreases n,
{
    if n > 0 {
        let t = s.drop_first();
        assert forall|i: int| 0 <= i < n - 1 implies k.has(#[trigger] t[i]) by {
            assert(t[i] == s[i + 1]);
        }
        if n < s.len() {
            assert(t[n - 1] == s[n as int]);
        }
        lemma_leading(t, k, (n - 1) as nat);
    }
}

/// `trailing` is the length of the longest suffix inside the class.
pub proof fn lemma_trailing(s: Seq<char>, k: CharClass, n: nat)
    requires
        n <= s.len(),
        forall|i: int| s.len() - n <= i < s.len() ==> k.has(#[trigger] s[i]),
        n == s.len() || !k.has(s[s.len() - n - 1]),
    ensures
        trailing(s, k) == n,
    decreases n,
{
    if n > 0 {
        let t = s.drop_last();
        assert forall|i: int| t.len() - (n - 1) <= i < t.len() implies k.has(#[trigger] t[i]) by {
            assert(t[i] == s[i]);
        }
        if n < s.len() {
            assert(t[t.len() - (n - 1) - 1] == s[s.len() - n - 1]);
        }
        lemma_trailing(t, k, (n - 1) as nat);
    }
}

/// The number of characters of `v` from index `from` on that belong to `k`
/// without a break.
pub fn count_leading_from(v: &Vec<char>, from: usize, k: CharClass) -> (n: usize)
    requires
        from <= v.len(),
    ensures
        n == leading(v@.skip(from as int), k),
        from + n <= v.len(),
{
    let mut i: usize = from;
    while i < v.len() && k.contains(v[i])
        invariant
            from <= i <= v.len(),
            forall|j: int| from <= j < i ==> k.has(#[trigger] v@[j]),
        decreases v.len() - i,
    {
        i += 1;
    }
    proof {
        let t = v@.skip(from as int);
        assert forall|j: int| 0 <= j < i - from implies k.has(#[trigger] t[j]) by {
            assert(t[j] == v@[from + j]);
        }
        if i < v.len() {
            assert(t[i - from] == v@[i as int]);
        }
        lemma_leading(t, k, (i - from) as nat);
    }
    i - from
}

/// The index of the first character of `v` outside `k`, or the length.
pub fn count_leading(v: &Vec<char>, k: CharClass) -> (n: usize)
    ensures
        n == leading(v@, k),
        n <= v.len(),
{
    assert(v@.skip(0) == v@);
    count_leading_from(v, 0, k)
}

/// The number of characters at the end of `v` inside `k`.
pub fn count_trailing(v: &Vec<char>, k: CharClass) -> (n: usize)
    ensures
        n == trailing(v@, k),
        n <= v.len(),
{
    let mut n: usize = 0;
    while n < v.len() && k.contains(v[v.len() - n - 1])
        invariant
            n <= v.len(),
            forall|j: int| v.len() - n <= j < v.len() ==> k.has(#[trigger] v@[j]),
        decreases v.len() - n,
    {
        n += 1;
    }
    proof {
        lemma_trailing(v@, k, n as nat);
    }
    n
}

/// Takes the characters of the class off the front.
pub fn strip_start_chars(v: &Vec<char>, k: CharClass) -> (out: Vec<char>)
    ensures
        out@ == strip_start(v@, k),
{
    let n = count_leading(v, k);
    copy_range(v, n, v.len())
}

/// Takes the characters of the class off the back.
pub fn strip_end_chars(v: &Vec<char>, k: CharClass) -> (out: Vec<char>)
    ensures
        out@ == strip_end(v@, k),
{
    let n = count_trailing(v, k);
    copy_range(v, 0, v.len() - n)
}

/// Takes the characters of the class off the front and the back.
pub fn strip_chars(v: &Vec<char>, k: CharClass) -> (out: Vec<char>)
    ensures
        out@ == strip(v@, k),
{
    let front = strip_start_chars(v, k);
    strip_end_chars(&front, k)
}

/// Takes the whitespace off the front and the back.
pub fn trim_chars(v: &Vec<char>) -> (out: Vec<char>)
    ensures
        out@ == trimmed(v@),
{
    strip_chars(v, CharClass::Whitespace)
}

// ---------------------------------------------------------------------------
// Tokens
// ---------------------------------------------------------------------------

/// The maximal runs of characters outside `sep`, in order of appearance.
/// Empty runs do not occur: a token is never empty.
pub open spec fn tokens(s: Seq<char>, sep: CharClass) -> Seq<Seq<char>>
    decreases s.len(),
{
    if s.len() == 0 {
        Seq::empty()
    } else {
        let before = tokens(s.drop_last(), sep);
        let c = s.last();
        if sep.has(c) {
            before
        } else if s.len() >= 2 && !sep.has(s[s.len() - 2]) {
            before.drop_last().push(before.last().push(c))
        } else {
            before.push(seq![c])
        }
    }
}

/// While the last character scanned is outside `sep`, the last token is the run
/// that is still open, and it is not empty.
pub proof fn lemma_tokens_open_run(s: Seq<char>, sep: CharClass)
    requires
        s.len() > 0,
        !sep.has(s.last()),
    ensures
        tokens(s, sep).len() > 0,
        tokens(s, sep).last().len() > 0,
    decreases s.len(),
{
    if s.len() >= 2 && !sep.has(s[s.len() - 2]) {
        let t = s.drop_last();
        assert(t.last() == s[s.len() - 2]);
        lemma_tokens_open_run(t, sep);
    }
}

/// No token is empty and no token holds a separator.
pub proof fn lemma_tokens_clean(s: Seq<char>, sep: CharClass)
    ensures
        forall|i: int|
            0 <= i < tokens(s, sep).len() ==> (#[trigger] tokens(s, sep)[i]).len() > 0,
        forall|i: int, j: int|
            0 <= i < tokens(s, sep).len() && 0 <= j < tokens(s, sep)[i].len() ==> !sep.has(
                #[trigger] tokens(s, sep)[i][j],
            ),
    decreases s.len(),
{
    if s.len() > 0 {
        let t = s.drop_last();
        lemma_tokens_clean(t, sep);
        let c = s.last();
        if !sep.has(c) && s.len() >= 2 && !sep.has(s[s.len() - 2]) {
            assert(t.last() == s[s.len() - 2]);
            lemma_tokens_open_run(t, sep);
        }
    }
}

/// Splits `v` into its tokens.
pub fn split_tokens(v: &Vec<char>, sep: CharClass) -> (out: Vec<Vec<char>>)
    ensures
        rows(out@) == tokens(v@, sep),
{
    let mut out: Vec<Vec<char>> = Vec::new();
    let mut cur: Vec<char> = Vec::new();
    let mut i: usize = 0;
    while i < v.len()
        invariant
            i <= v.len(),
            cur@.len() > 0 <==> (i > 0 && !sep.has(v@[i - 1])),
            cur@.len() > 0 ==> tokens(v@.take(i as int), sep) == rows(out@).push(cur@),
            cur@.len() == 0 ==> tokens(v@.take(i as int), sep) == rows(out@),
        decreases v.len() - i,
    {
        let c = v[i];
        let ghost prev = v@.take(i as int);
        let ghost next = v@.take(i + 1);
        assert(next.drop_last() == prev);
        assert(next.last() == c);
        if sep.contains(c) {
            if cur.len() > 0 {
                let ghost before = rows(out@);
                out.push(cur);
                assert(rows(out@) =~= before.push(cur@));
                cur = Vec::new();
            }
        } else {
            proof {
                if i > 0 {
                    assert(next[next.len() - 2] == v@[i - 1]);
                }
                if cur@.len() > 0 {
                    let before = rows(out@).push(cur@);
                    assert(before.drop_last() == rows(out@));
                    assert(before.last() == cur@);
                } else {
                    assert(cur@.push(c) == seq![c]);
                }
            }
            cur.push(c);
        }
        i += 1;
    }
    assert(v@.take(v.len() as int) == v@);
    if cur.len() > 0 {
        let ghost before = rows(out@);
        out.push(cur);
        assert(rows(out@) =~= before.push(cur@));
    }
    out
}

// ---------------------------------------------------------------------------
// Searching, replacing, joining
// ---------------------------------------------------------------------------

/// Whether `p` stands in `s` at index `i`.
pub open spec fn occurs_at(s: Seq<char>, p: Seq<char>, i: int) -> bool {
    0 <= i && i + p.len() <= s.len() && s.subrange(i, i + p.len()) == p
}

/// Whether `s` begins with `p`.
pub open spec fn starts_with(s: Seq<char>, p: Seq<char>) -> bool {
    occurs_at(s, p, 0)
}

/// Whether `s` ends with `p`.
pub open spec fn ends_with(s: Seq<char>, p: Seq<char>) -> bool {
    occurs_at(s, p, s.len() - p.len())
}

/// Whether `p` is a contiguous part of `s`.
pub open spec fn contains_text(s: Seq<char>, p: Seq<char>) -> bool {
    exists|i: int| occurs_at(s, p, i)
}

/// Tests whether `p` stands in `s` at index `i`.
pub fn has_at(s: &Vec<char>, p: &Vec<char>, i: usize) -> (r: bool)
    ensures
        r == occurs_at(s@, p@, i as int),
{
    if p.len() > s.len() || i > s.len() - p.len() {
        return false;
    }
    let mut j: usize = 0;
    while j < p.len()
        invariant
            j <= p.len(),
            i + p.len() <= s.len(),
            s@.subrange(i as int, i + j) == p@.take(j as int),
        decreases p.len() - j,
    {
        if s[i + j] != p[j] {
            assert(s@.subrange(i as int, i + p.len())[j as int] == s@[i + j]);
            return false;
        }
        assert(s@.subrange(i as int, i + j + 1) == s@.subrange(i as int, i + j).push(
            s@[i + j],
        ));
        assert(p@.take(j + 1) == p@.take(j as int).push(p@[j as int]));
        j += 1;
    }
    assert(p@.take(p.len() as int) == p@);
    true
}

/// Tests whether `s` begins with `p`.
pub fn has_prefix(s: &Vec<char>, p: &Vec<char>) -> (r: bool)
    ensures
        r == starts_with(s@, p@),
{
    has_at(s, p, 0)
}

/// Tests whether `s` ends with `p`.
pub fn has_suffix(s: &Vec<char>, p: &Vec<char>) -> (r: bool)
    ensures
        r == ends_with(s@, p@),
{
    if p.len() > s.len() {
        return false;
    }
    has_at(s, p, s.len() - p.len())
}

/// Tests whether `p` is a contiguous part of `s`.
pub fn has_text(s: &Vec<char>, p: &Vec<char>) -> (r: bool)
    ensures
        r == contains_text(s@, p@),
{
    if p.len() > s.len() {
        return false;
    }
    let last: usize = s.len() - p.len();
    let mut i: usize = 0;
    loop
        invariant
            i <= last,
            last == s.len() - p.len(),
            forall|k: int| 0 <= k < i ==> !occurs_at(s@, p@, k),
        decreases last - i,
    {
        if has_at(s, p, i) {
            return true;
        }
        if i == last {
            return false;
        }
        i += 1;
    }
}

/// `s` with every occurrence of `needle` replaced by `with`, found from the
/// left and without overlap. An empty `needle` replaces nothing.
pub open spec fn replaced(s: Seq<char>, needle: Seq<char>, with: Seq<char>) -> Seq<char>
    decreases s.len(),
{
    if needle.len() == 0 || s.len() < needle.len() {
        s
    } else if starts_with(s, needle) {
        with + replaced(s.skip(needle.len() as int), needle, with)
    } else {
        seq![s[0]] + replaced(s.drop_first(), needle, with)
    }
}

/// Replaces every occurrence of `needle`.
pub fn replace_chars(s: &Vec<char>, needle: &Vec<char>, with: &Vec<char>) -> (out: Vec<char>)
    ensures
        out@ == replaced(s@, needle@, with@),
{
    if needle.len() == 0 {
        return copy_range(s, 0, s.len());
    }
    let mut out: Vec<char> = Vec::new();
    let mut i: usize = 0;
    assert(s@.skip(0) == s@);
    assert(out@ + replaced(s@, needle@, with@) == replaced(s@, needle@, with@));
    while i < s.len()
        invariant
            i <= s.len(),
            needle.len() > 0,
            replaced(s@, needle@, with@) == out@ + replaced(s@.skip(i as int), needle@, with@),
        decreases s.len() - i,
    {
        let ghost rest = s@.skip(i as int);
        if has_at(s, needle, i) {
            proof {
                assert(rest.subrange(0, needle.len() as int) == s@.subrange(
                    i as int,
                    i + needle.len(),
                ));
                assert(rest.skip(needle.len() as int) == s@.skip(i + needle.len()));
                assert(out@ + (with@ + replaced(rest.skip(needle.len() as int), needle@, with@))
                    == (out@ + with@) + replaced(rest.skip(needle.len() as int), needle@, with@));
            }
            append_chars(&mut out, with);
            i += needle.len();
        } else {
            proof {
                if rest.len() >= needle.len() {
                    assert(rest.subrange(0, needle.len() as int) == s@.subrange(
                        i as int,
                        i + needle.len(),
                    ));
                }
                assert(rest.drop_first() == s@.skip(i + 1));
                let tail = replaced(rest.drop_first(), needle@, with@);
                if rest.len() < needle.len() {
                    assert(rest.drop_first().len() < needle.len());
                    assert(tail == rest.drop_first());
                    assert(rest == seq![rest[0]] + rest.drop_first());
                }
                assert(replaced(rest, needle@, with@) == seq![rest[0]] + tail);
                assert(out@ + (seq![rest[0]] + tail) == out@.push(s@[i as int]) + tail);
            }
            out.push(s[i]);
            i += 1;
        }
    }
    assert(s@.skip(s.len() as int).len() == 0);
    assert(out@ + Seq::<char>::empty() == out@);
    out
}

/// The parts separated by `sep`.
pub open spec fn joined(parts: Seq<Seq<char>>, sep: Seq<char>) -> Seq<char>
    decreases parts.len(),
{
    if parts.len() == 0 {
        Seq::empty()
    } else if parts.len() == 1 {
        parts[0]
    } else {
        joined(parts.drop_last(), sep) + sep + parts.last()
    }
}

/// Joins the parts with `sep` between them.
pub fn join_chars(parts: &Vec<Vec<char>>, sep: &Vec<char>) -> (out: Vec<char>)
    ensures
        out@ == joined(rows(parts@), sep@),
{
    let mut out: Vec<char> = Vec::new();
    let mut i: usize = 0;
    while i < parts.len()
        invariant
            i <= parts.len(),
            out@ == joined(rows(parts@).take(i as int), sep@),
        decreases parts.len() - i,
    {
        let ghost prev = rows(parts@).take(i as int);
        let ghost next = rows(parts@).take(i + 1);
        assert(next.drop_last() == prev);
        assert(next.last() == parts@[i as int]@);
        if i > 0 {
            append_chars(&mut out, sep);
        }
        append_chars(&mut out, &parts[i]);
        assert(i == 0 ==> out@ == parts@[i as int]@);
        i += 1;
    }
    assert(rows(parts@).take(parts.len() as int) == rows(parts@));
    out
}

// ---------------------------------------------------------------------------
// Numbers
// ---------------------------------------------------------------------------

/// The character of one decimal digit.
pub open spec fn digit_char(d: nat) -> char {
    (('0' as u32) + d) as char
}

/// `n` written in decimal, without leading zeros.
pub open spec fn decimal_text(n: nat) -> Seq<char>
    decreases n,
{
    if n < 10 {
        seq![digit_char(n)]
    } else {
        decimal_text(n / 10).push(digit_char(n % 10))
    }
}

/// `n` written in decimal, with a minus sign where it is negative.
pub open spec fn signed_decimal_text(n: int) -> Seq<char> {
    if n < 0 {
        seq!['-'] + decimal_text((-n) as nat)
    } else {
        decimal_text(n as nat)
    }
}

/// Appends `n` in decimal to `out`.
pub fn push_decimal(out: &mut Vec<char>, n: u64)
    ensures
        final(out)@ == old(out)@ + decimal_text(n as nat),
    decreases n,
{
    if n >= 10 {
        push_decimal(out, n / 10);
    }
    let d: u8 = (n % 10) as u8;
    let c: char = (48u8 + d) as char;
    assert(c == digit_char((n % 10) as nat));
    out.push(c);
    proof {
        if n >= 10 {
            assert(old(out)@ + decimal_text((n / 10) as nat).push(c) =~= (old(out)@ + decimal_text(
                (n / 10) as nat,
            )).push(c));
        } else {
            assert(old(out)@ + seq![c] =~= old(out)@.push(c));
        }
    }
}

/// Appends `n` in decimal to `out`, with a minus sign where it is negative.
pub fn push_signed_decimal(out: &mut Vec<char>, n: i32)
    ensures
        final(out)@ == old(out)@ + signed_decimal_text(n as int),
{
    if n < 0 {
        out.push('-');
        let magnitude: u64 = (-(n as i64)) as u64;
        push_decimal(out, magnitude);
        assert(out@ =~= old(out)@ + (seq!['-'] + decimal_text((-n) as nat)));
    } else {
        push_decimal(out, n as u64);
    }
}

// ---------------------------------------------------------------------------
// Order
// ---------------------------------------------------------------------------

/// Whether `a` comes strictly before `b` when compared character by
/// character by code point, a proper prefix coming first. This is the order of
/// `str` and `String`.
pub open spec fn lex_lt(a: Seq<char>, b: Seq<char>) -> bool
    decreases a.len(),
{
    if b.len() == 0 {
        false
    } else if a.len() == 0 {
        true
    } else if a[0] != b[0] {
        a[0] < b[0]
    } else {
        lex_lt(a.drop_first(), b.drop_first())
    }
}

/// Tests whether `a` comes strictly before `b`.
pub fn less_chars(a: &Vec<char>, b: &Vec<char>) -> (r: bool)
    ensures
        r == lex_lt(a@, b@),
{
    let mut i: usize = 0;
    assert(a@.skip(0) == a@ && b@.skip(0) == b@);
    while i < a.len() && i < b.len()
        invariant
            i <= a.len(),
            i <= b.len(),
            lex_lt(a@, b@) == lex_lt(a@.skip(i as int), b@.skip(i as int)),
        decreases a.len() - i,
    {
        let ghost x = a@.skip(i as int);
        let ghost y = b@.skip(i as int);
        assert(x[0] == a@[i as int] && y[0] == b@[i as int]);
        assert(x.drop_first() == a@.skip(i + 1));
        assert(y.drop_first() == b@.skip(i + 1));
        if a[i] != b[i] {
            return a[i] < b[i];
        }
        i += 1;
    }
    i < b.len()
}


/// No text comes strictly before itself.
pub proof fn lemma_lex_irreflexive(a: Seq<char>)
    ensures
        !lex_lt(a, a),
    decreases a.len(),
{
    if a.len() > 0 {
        lemma_lex_irreflexive(a.drop_first());
    }
}

/// The order of texts is transitive.
pub proof fn lemma_lex_transitive(a: Seq<char>, b: Seq<char>, c: Seq<char>)
    requires
        lex_lt(a, b),
        lex_lt(b, c),
    ensures
        lex_lt(a, c),
    decreases a.len(),
{
    if a.len() > 0 && b.len() > 0 && c.len() > 0 {
        if a[0] == b[0] && b[0] == c[0] {
            lemma_lex_transitive(a.drop_first(), b.drop_first(), c.drop_first());
        }
    }
}

/// Two texts are the same, or one comes strictly before the other.
pub proof fn lemma_lex_total(a: Seq<char>, b: Seq<char>)
    ensures
        lex_lt(a, b) || lex_lt(b, a) || a == b,
    decreases a.len(),
{
    if a.len() == 0 || b.len() == 0 {
        if a.len() == 0 && b.len() == 0 {
            assert(a =~= b);
        }
    } else if a[0] == b[0] {
        lemma_lex_total(a.drop_first(), b.drop_first());
        if a.drop_first() == b.drop_first() {
            assert(a =~= seq![a[0]] + a.drop_first());
            assert(b =~= seq![b[0]] + b.drop_first());
        }
    }
}

/// Of two texts at most one comes strictly before the other.
pub proof fn lemma_lex_asymmetric(a: Seq<char>, b: Seq<char>)
    requires
        lex_lt(a, b),
    ensures
        !lex_lt(b, a),
{
    if lex_lt(b, a) {
        lemma_lex_transitive(a, b, a);
        lemma_lex_irreflexive(a);
    }
}

/// Whether each text comes strictly before the next: the texts are in
/// order and none occurs twice.
pub open spec fn strictly_sorted(v: Seq<Seq<char>>) -> bool {
    forall|i: int, j: int| 0 <= i < j < v.len() ==> lex_lt(#[trigger] v[i], #[trigger] v[j])
}

/// Adds a text to a list that is in order, unless it is there already.
pub fn insert_sorted(v: &mut Vec<Vec<char>>, x: Vec<char>)
    requires
        strictly_sorted(rows(old(v)@)),
    ensures
        strictly_sorted(rows(final(v)@)),
        forall|n: Seq<char>|
            rows(final(v)@).contains(n) <==> (rows(old(v)@).contains(n) || n == x@),
{
    let ghost before = rows(v@);
    let mut pos: usize = 0;
    while pos < v.len() && less_chars(&v[pos], &x)
        invariant
            pos <= v.len(),
            v@ == old(v)@,
            before == rows(v@),
            forall|i: int| 0 <= i < pos ==> lex_lt(#[trigger] before[i], x@),
        decreases v.len() - pos,
    {
        assert(before[pos as int] == v@[pos as int]@);
        pos += 1;
    }
    if pos < v.len() {
        assert(before[pos as int] == v@[pos as int]@);
        if !less_chars(&x, &v[pos]) {
            proof {
                lemma_lex_total(x@, before[pos as int]);
                assert(before.contains(x@));
            }
            return;
        }
    }
    let ghost xs = x@;
    v.insert(pos, x);
    proof {
        let after = rows(v@);
        assert(after =~= before.insert(pos as int, xs));
        assert forall|i: int, j: int| 0 <= i < j < after.len() implies lex_lt(
            #[trigger] after[i],
            #[trigger] after[j],
        ) by {
            if j < pos {
                assert(after[i] == before[i] && after[j] == before[j]);
            } else if j == pos {
                assert(after[i] == before[i]);
            } else if i == pos {
                assert(after[j] == before[j - 1]);
                if j - 1 > pos {
                    lemma_lex_transitive(xs, before[pos as int], before[j - 1]);
                }
            } else if i < pos {
                assert(after[i] == before[i] && after[j] == before[j - 1]);
            } else {
                assert(after[i] == before[i - 1] && after[j] == before[j - 1]);
            }
        }
        assert forall|n: Seq<char>| after.contains(n) <==> (before.contains(n) || n == xs) by {
            if after.contains(n) {
                let k = choose|k: int| 0 <= k < after.len() && after[k] == n;
                if k < pos {
                    assert(before[k] == n);
                } else if k > pos {
                    assert(before[k - 1] == n);
                }
            }
            if before.contains(n) {
                let k = choose|k: int| 0 <= k < before.len() && before[k] == n;
                if k < pos {
                    assert(after[k] == n);
                } else {
                    assert(after[k + 1] == n);
                }
            }
            if n == xs {
                assert(after[pos as int] == n);
            }
        }
    }
}

} // verus!
