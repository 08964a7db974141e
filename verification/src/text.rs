//! Character-level text helpers: whitespace, trimming, searching and
//! splitting, stated over `Seq<char>` and implemented on `Vec<char>`.
use vstd::prelude::*;

verus! {

broadcast use vstd::string::group_string_axioms;

/// Unicode `White_Space`, the set that `char::is_whitespace` and `str::trim` use.
pub open spec fn is_ws(c: char) -> bool {
    let u = c as u32;
    ||| (9 <= u && u <= 13)
    ||| u == 32
    ||| u == 0x85
    ||| u == 0xa0
    ||| u == 0x1680
    ||| (0x2000 <= u && u <= 0x200a)
    ||| u == 0x2028
    ||| u == 0x2029
    ||| u == 0x202f
    ||| u == 0x205f
    ||| u == 0x3000
}

/// `s` with its leading whitespace removed.
pub open spec fn trim_start(s: Seq<char>) -> Seq<char>
    decreases s.len(),
{
    if s.len() > 0 && is_ws(s[0]) {
        trim_start(s.drop_first())
    } else {
        s
    }
}

/// `s` with its trailing whitespace removed.
pub open spec fn trim_end(s: Seq<char>) -> Seq<char>
    decreases s.len(),
{
    if s.len() > 0 && is_ws(s.last()) {
        trim_end(s.drop_last())
    } else {
        s
    }
}

/// `s` with whitespace removed at both ends, as `str::trim` does.
pub open spec fn trim(s: Seq<char>) -> Seq<char> {
    trim_end(trim_start(s))
}

/// The trimmed text, or nothing when it is empty.
pub open spec fn clean(s: Seq<char>) -> Option<Seq<char>> {
    if trim(s).len() == 0 {
        None
    } else {
        Some(trim(s))
    }
}

/// The view of an optional string.
pub open spec fn opt_view(o: Option<String>) -> Option<Seq<char>> {
    match o {
        Some(s) => Some(s@),
        None => None,
    }
}

/// `clean` lifted over an optional string.
pub open spec fn clean_opt(o: Option<String>) -> Option<Seq<char>> {
    match o {
        Some(s) => clean(s@),
        None => None,
    }
}

/// ASCII lower-casing of one character, as `char::to_ascii_lowercase`.
pub open spec fn lower(c: char) -> char {
    if 'A' <= c && c <= 'Z' {
        ((c as u32) + 32) as char
    } else {
        c
    }
}

/// ASCII lower-casing of a text.
pub open spec fn lower_seq(s: Seq<char>) -> Seq<char> {
    s.map_values(|c: char| lower(c))
}

/// `s` begins with `p`.
pub open spec fn has_prefix(s: Seq<char>, p: Seq<char>) -> bool {
    p.len() <= s.len() && s.subrange(0, p.len() as int) == p
}

/// `s` ends with `p`.
pub open spec fn has_suffix(s: Seq<char>, p: Seq<char>) -> bool {
    p.len() <= s.len() && s.subrange(s.len() - p.len(), s.len() as int) == p
}

/// `needle` occurs in `s` at position `i`.
pub open spec fn occurs_at(s: Seq<char>, needle: Seq<char>, i: int) -> bool {
    0 <= i && i + needle.len() <= s.len() && s.subrange(i, i + needle.len()) == needle
}

/// The first position at or after `i` where `needle` occurs in `s`.
pub open spec fn find_from(s: Seq<char>, needle: Seq<char>, i: int) -> Option<int>
    decreases s.len() + 1 - i,
{
    if i < 0 || i + needle.len() > s.len() {
        None
    } else if occurs_at(s, needle, i) {
        Some(i)
    } else {
        find_from(s, needle, i + 1)
    }
}

/// The first position where `needle` occurs in `s`, as `str::find`.
pub open spec fn find(s: Seq<char>, needle: Seq<char>) -> Option<int> {
    find_from(s, needle, 0)
}

/// `needle` occurs somewhere in `s`, as `str::contains`.
pub open spec fn contains_seq(s: Seq<char>, needle: Seq<char>) -> bool {
    find(s, needle) is Some
}

/// The first position at or after `i` of the character `c`.
pub open spec fn index_of_from(s: Seq<char>, c: char, i: int) -> Option<int>
    decreases s.len() - i,
{
    if i < 0 || i >= s.len() {
        None
    } else if s[i] == c {
        Some(i)
    } else {
        index_of_from(s, c, i + 1)
    }
}

/// The first position of the character `c` in `s`.
pub open spec fn index_of(s: Seq<char>, c: char) -> Option<int> {
    index_of_from(s, c, 0)
}

/// The text before the first `c`, or all of `s`: what `s.split(c).next()` yields.
pub open spec fn before_char(s: Seq<char>, c: char) -> Seq<char> {
    match index_of(s, c) {
        Some(i) => s.subrange(0, i),
        None => s,
    }
}

/// The text after the first `c`, when there is one: the tail of `s.split_once(c)`.
pub open spec fn after_char(s: Seq<char>, c: char) -> Option<Seq<char>> {
    match index_of(s, c) {
        Some(i) => Some(s.subrange(i + 1, s.len() as int)),
        None => None,
    }
}

/// `s` with every leading `c` removed, as `trim_start_matches(c)`.
pub open spec fn strip_leading(s: Seq<char>, c: char) -> Seq<char>
    decreases s.len(),
{
    if s.len() > 0 && s[0] == c {
        strip_leading(s.drop_first(), c)
    } else {
        s
    }
}

/// `s` with every trailing `c` removed, as `trim_end_matches(c)`.
pub open spec fn strip_trailing(s: Seq<char>, c: char) -> Seq<char>
    decreases s.len(),
{
    if s.len() > 0 && s.last() == c {
        strip_trailing(s.drop_last(), c)
    } else {
        s
    }
}

/// The view of a vector of strings.
pub open spec fn views(v: Seq<String>) -> Seq<Seq<char>> {
    v.map_values(|s: String| s@)
}

/// Whether `c` is Unicode white space.
pub fn is_whitespace(c: char) -> (r: bool)
    ensures
        r == is_ws(c),
{
    let u = c as u32;
    (9 <= u && u <= 13) || u == 32 || u == 0x85 || u == 0xa0 || u == 0x1680 || (0x2000 <= u
        && u <= 0x200a) || u == 0x2028 || u == 0x2029 || u == 0x202f || u == 0x205f || u
        == 0x3000
}

/// ASCII lower-casing of one character.
pub fn to_lower(c: char) -> (r: char)
    ensures
        r == lower(c),
{
    if 'A' <= c && c <= 'Z' {
        let u = (c as u32) + 32;
        proof {
            assert(u == (c as u32) + 32);
        }
        char_from_u32_ascii(u)
    } else {
        c
    }
}

/// The character of an ASCII code point.
fn char_from_u32_ascii(u: u32) -> (r: char)
    requires
        u < 128,
    ensures
        r == u as char,
{
    let b = u as u8;
    b as char
}

/// The characters of a string.
pub fn chars_of(s: &str) -> (v: Vec<char>)
    ensures
        v@ == s@,
{
    let n = s.unicode_len();
    let mut v: Vec<char> = Vec::new();
    let mut i: usize = 0;
    while i < n
        invariant
            n == s@.len(),
            i <= n,
            v@ == s@.subrange(0, i as int),
        decreases n - i,
    {
        let c = s.get_char(i);
        v.push(c);
        i = i + 1;
    }
    v
}

/// The view of an optional index.
pub open spec fn opt_index(o: Option<usize>) -> Option<int> {
    match o {
        Some(i) => Some(i as int),
        None => None,
    }
}

/// Dropping leading white space one character at a time.
pub proof fn lemma_trim_start_skip(s: Seq<char>, i: int)
    requires
        0 <= i <= s.len(),
        forall|j: int| 0 <= j < i ==> is_ws(#[trigger] s[j]),
    ensures
        trim_start(s) == trim_start(s.subrange(i, s.len() as int)),
    decreases i,
{
    if i > 0 {
        lemma_trim_start_skip(s, i - 1);
        let t = s.subrange(i - 1, s.len() as int);
        assert(t[0] == s[i - 1]);
        assert(t.drop_first() =~= s.subrange(i, s.len() as int));
    } else {
        assert(s.subrange(0, s.len() as int) =~= s);
    }
}

/// Dropping trailing white space one character at a time.
pub proof fn lemma_trim_end_skip(s: Seq<char>, hi: int)
    requires
        0 <= hi <= s.len(),
        forall|j: int| hi <= j < s.len() ==> is_ws(#[trigger] s[j]),
    ensures
        trim_end(s) == trim_end(s.subrange(0, hi)),
    decreases s.len() - hi,
{
    if hi < s.len() {
        lemma_trim_end_skip(s, hi + 1);
        let t = s.subrange(0, hi + 1);
        assert(t.last() == s[hi]);
        assert(t.drop_last() =~= s.subrange(0, hi));
    } else {
        assert(s.subrange(0, s.len() as int) =~= s);
    }
}

/// The bounds of the part of `v` that trimming keeps.
pub fn trim_bounds(v: &[char]) -> (r: (usize, usize))
    ensures
        r.0 <= r.1 <= v@.len(),
        v@.subrange(r.0 as int, r.1 as int) == trim(v@),
{
    let n = v.len();
    let mut lo: usize = 0;
    while lo < n && is_whitespace(v[lo])
        invariant
            n == v@.len(),
            lo <= n,
            forall|j: int| 0 <= j < lo ==> is_ws(#[trigger] v@[j]),
        decreases n - lo,
    {
        lo = lo + 1;
    }
    proof {
        lemma_trim_start_skip(v@, lo as int);
    }
    if lo == n {
        assert(v@.subrange(n as int, n as int).len() == 0);
        assert(trim_start(v@.subrange(n as int, n as int)) =~= Seq::<char>::empty());
        return (n, n);
    }
    let ghost t = v@.subrange(lo as int, n as int);
    assert(trim_start(t) == t);
    let mut hi: usize = n;
    while hi > lo && is_whitespace(v[hi - 1])
        invariant
            n == v@.len(),
            lo < n,
            lo <= hi <= n,
            t == v@.subrange(lo as int, n as int),
            forall|j: int| hi <= j < n ==> is_ws(#[trigger] v@[j]),
        decreases hi,
    {
        hi = hi - 1;
    }
    proof {
        assert forall|j: int| hi - lo <= j < t.len() implies is_ws(#[trigger] t[j]) by {
            assert(t[j] == v@[lo + j]);
        }
        lemma_trim_end_skip(t, hi - lo);
        assert(t.subrange(0, hi - lo) =~= v@.subrange(lo as int, hi as int));
        assert(!is_ws(v@[lo as int]));
    }
    (lo, hi)
}

/// The first position where `needle` occurs in `s`.
pub fn find_in(s: &[char], needle: &[char]) -> (r: Option<usize>)
    ensures
        opt_index(r) == find(s@, needle@),
        r matches Some(i) ==> i + needle@.len() <= s@.len() && i + needle.len() <= s.len(),
{
    let n = s.len();
    let m = needle.len();
    if m > n {
        return None;
    }
    let mut i: usize = 0;
    while i <= n - m
        invariant
            n == s@.len(),
            m == needle@.len(),
            m <= n,
            i <= n - m + 1,
            find(s@, needle@) == find_from(s@, needle@, i as int),
        decreases n - i,
    {
        let mut k: usize = 0;
        let mut same = true;
        while k < m
            invariant
                n == s@.len(),
                m == needle@.len(),
                i + m <= n,
                k <= m,
                same == (forall|j: int| 0 <= j < k ==> s@[i + j] == needle@[j]),
            decreases m - k,
        {
            if s[i + k] != needle[k] {
                same = false;
            }
            k = k + 1;
        }
        if same {
            assert(s@.subrange(i as int, i + m) =~= needle@);
            return Some(i);
        }
        assert(!occurs_at(s@, needle@, i as int)) by {
            if s@.subrange(i as int, i + m) == needle@ {
                assert forall|j: int| 0 <= j < m implies s@[i + j] == needle@[j] by {
                    assert(s@.subrange(i as int, i + m)[j] == s@[i + j]);
                }
            }
        }
        i = i + 1;
    }
    None
}

/// The first position of `c` in `s`.
pub fn index_of_char(s: &[char], c: char) -> (r: Option<usize>)
    ensures
        opt_index(r) == index_of(s@, c),
        r matches Some(i) ==> i < s@.len() && i < s.len() && s@[i as int] == c,
{
    let n = s.len();
    let mut i: usize = 0;
    while i < n
        invariant
            n == s@.len(),
            i <= n,
            index_of(s@, c) == index_of_from(s@, c, i as int),
        decreases n - i,
    {
        if s[i] == c {
            return Some(i);
        }
        i = i + 1;
    }
    None
}

/// Whether `s` begins with `p`.
pub fn starts_with(s: &[char], p: &[char]) -> (r: bool)
    ensures
        r == has_prefix(s@, p@),
{
    if p.len() > s.len() {
        return false;
    }
    let m = p.len();
    let mut k: usize = 0;
    while k < m
        invariant
            m == p@.len(),
            m <= s@.len(),
            k <= m,
            forall|j: int| 0 <= j < k ==> s@[j] == p@[j],
        decreases m - k,
    {
        if s[k] != p[k] {
            assert(s@.subrange(0, m as int)[k as int] != p@[k as int]);
            return false;
        }
        k = k + 1;
    }
    assert(s@.subrange(0, m as int) =~= p@);
    true
}

/// Whether `s` ends with `p`.
pub fn ends_with(s: &[char], p: &[char]) -> (r: bool)
    ensures
        r == has_suffix(s@, p@),
{
    if p.len() > s.len() {
        return false;
    }
    let m = p.len();
    let n = s.len();
    let d = n - m;
    let mut k: usize = 0;
    while k < m
        invariant
            m == p@.len(),
            n == s@.len(),
            d + m == n,
            k <= m,
            forall|j: int| 0 <= j < k ==> s@[d + j] == p@[j],
        decreases m - k,
    {
        if s[d + k] != p[k] {
            assert(s@.subrange(d as int, s@.len() as int)[k as int] != p@[k as int]);
            return false;
        }
        k = k + 1;
    }
    assert(s@.subrange(d as int, s@.len() as int) =~= p@);
    true
}

/// Whether `s`, lower-cased, begins with `p`.
pub fn starts_with_lower(s: &[char], p: &[char]) -> (r: bool)
    ensures
        r == has_prefix(lower_seq(s@), p@),
{
    if p.len() > s.len() {
        return false;
    }
    let m = p.len();
    let mut k: usize = 0;
    while k < m
        invariant
            m == p@.len(),
            m <= s@.len(),
            k <= m,
            forall|j: int| 0 <= j < k ==> lower(s@[j]) == p@[j],
        decreases m - k,
    {
        if to_lower(s[k]) != p[k] {
            assert(lower_seq(s@).subrange(0, m as int)[k as int] != p@[k as int]);
            return false;
        }
        k = k + 1;
    }
    assert(lower_seq(s@).subrange(0, m as int) =~= p@);
    true
}

/// Whether two character sequences are equal.
pub fn chars_eq(a: &[char], b: &[char]) -> (r: bool)
    ensures
        r == (a@ == b@),
{
    if a.len() != b.len() {
        return false;
    }
    let r = starts_with(a, b);
    proof {
        if r {
            assert(a@.subrange(0, a@.len() as int) =~= a@);
        } else {
            if a@ == b@ {
                assert(a@.subrange(0, a@.len() as int) =~= a@);
            }
        }
    }
    r
}

/// Whether `a`, lower-cased, equals `b`.
pub fn lower_eq(a: &[char], b: &[char]) -> (r: bool)
    ensures
        r == (lower_seq(a@) == b@),
{
    if a.len() != b.len() {
        assert(lower_seq(a@).len() == a@.len());
        return false;
    }
    let r = starts_with_lower(a, b);
    proof {
        assert(lower_seq(a@).subrange(0, a@.len() as int) =~= lower_seq(a@));
    }
    r
}

/// The characters of `v` from `lo` up to `hi`, as a string.
pub fn sub_string(v: &[char], lo: usize, hi: usize) -> (r: String)
    requires
        lo <= hi <= v@.len(),
    ensures
        r@ == v@.subrange(lo as int, hi as int),
{
    crate::primitives::string_from_chars(&v[lo..hi])
}

/// The trimmed text of `v`, as a string.
pub fn trimmed_string(v: &[char]) -> (r: String)
    ensures
        r@ == trim(v@),
{
    let (lo, hi) = trim_bounds(v);
    sub_string(v, lo, hi)
}

/// A string holding `s` trimmed.
pub fn trim_str(s: &str) -> (r: String)
    ensures
        r@ == trim(s@),
{
    let v = chars_of(s);
    trimmed_string(v.as_slice())
}

/// Removing one more trailing `c` when the last character is `c`.
proof fn lemma_strip_trailing_step(s: Seq<char>, end: int, c: char)
    requires
        0 <= end <= s.len(),
        forall|j: int| end <= j < s.len() ==> #[trigger] s[j] == c,
    ensures
        strip_trailing(s, c) == strip_trailing(s.subrange(0, end), c),
    decreases s.len() - end,
{
    if end < s.len() {
        lemma_strip_trailing_step(s, end + 1, c);
        let t = s.subrange(0, end + 1);
        assert(t.last() == c);
        assert(t.drop_last() =~= s.subrange(0, end));
    } else {
        assert(s.subrange(0, s.len() as int) =~= s);
    }
}

/// The length of `v` once every trailing `c` is removed.
pub fn strip_trailing_len(v: &[char], c: char) -> (r: usize)
    ensures
        r <= v@.len(),
        v@.subrange(0, r as int) == strip_trailing(v@, c),
{
    let mut end = v.len();
    while end > 0 && v[end - 1] == c
        invariant
            end <= v@.len(),
            forall|j: int| end <= j < v@.len() ==> #[trigger] v@[j] == c,
        decreases end,
    {
        end = end - 1;
    }
    proof {
        lemma_strip_trailing_step(v@, end as int, c);
    }
    end
}

/// Removing one more leading `c` when the first character is `c`.
proof fn lemma_strip_leading_step(s: Seq<char>, start: int, c: char)
    requires
        0 <= start <= s.len(),
        forall|j: int| 0 <= j < start ==> #[trigger] s[j] == c,
    ensures
        strip_leading(s, c) == strip_leading(s.subrange(start, s.len() as int), c),
    decreases start,
{
    if start > 0 {
        lemma_strip_leading_step(s, start - 1, c);
        let t = s.subrange(start - 1, s.len() as int);
        assert(t[0] == c);
        assert(t.drop_first() =~= s.subrange(start, s.len() as int));
    } else {
        assert(s.subrange(0, s.len() as int) =~= s);
    }
}

/// Where `v` begins once every leading `c` is removed.
pub fn strip_leading_start(v: &[char], c: char) -> (r: usize)
    ensures
        r <= v@.len(),
        v@.subrange(r as int, v@.len() as int) == strip_leading(v@, c),
{
    let n = v.len();
    let mut start: usize = 0;
    while start < n && v[start] == c
        invariant
            n == v@.len(),
            start <= n,
            forall|j: int| 0 <= j < start ==> #[trigger] v@[j] == c,
        decreases n - start,
    {
        start = start + 1;
    }
    proof {
        lemma_strip_leading_step(v@, start as int, c);
    }
    start
}

/// A position that `index_of_from` reports lies in the text, at or after where it began.
pub proof fn lemma_index_of_from_range(s: Seq<char>, c: char, i: int)
    requires
        0 <= i,
    ensures
        index_of_from(s, c, i) matches Some(j) ==> i <= j < s.len() && s[j] == c,
    decreases s.len() - i,
{
    if i < s.len() && s[i] != c {
        lemma_index_of_from_range(s, c, i + 1);
    }
}

/// A position that `find_from` reports is an occurrence, at or after where it began.
pub proof fn lemma_find_from_range(s: Seq<char>, needle: Seq<char>, i: int)
    requires
        0 <= i,
    ensures
        find_from(s, needle, i) matches Some(j) ==> i <= j && occurs_at(s, needle, j),
    decreases s.len() + 1 - i,
{
    if i + needle.len() <= s.len() && !occurs_at(s, needle, i) {
        lemma_find_from_range(s, needle, i + 1);
    }
}

/// Whether two texts are equal.
pub fn str_equal(a: &str, b: &str) -> (r: bool)
    ensures
        r == (a@ == b@),
{
    let x = chars_of(a);
    let y = chars_of(b);
    chars_eq(x.as_slice(), y.as_slice())
}

/// Whether `c` occurs in `s`.
pub fn contains_char(s: &[char], c: char) -> (r: bool)
    ensures
        r == (index_of(s@, c) is Some),
{
    index_of_char(s, c).is_some()
}

/// Whether `needle` occurs in `s`.
pub fn contains_chars(s: &[char], needle: &[char]) -> (r: bool)
    ensures
        r == contains_seq(s@, needle@),
{
    find_in(s, needle).is_some()
}

/// Whether `s` holds a white-space character.
pub fn has_whitespace(s: &[char]) -> (r: bool)
    ensures
        r == (exists|i: int| 0 <= i < s@.len() && is_ws(#[trigger] s@[i])),
{
    let n = s.len();
    let mut i: usize = 0;
    while i < n
        invariant
            n == s@.len(),
            i <= n,
            forall|j: int| 0 <= j < i ==> !is_ws(#[trigger] s@[j]),
        decreases n - i,
    {
        if is_whitespace(s[i]) {
            return true;
        }
        i = i + 1;
    }
    false
}

/// The text before the first `c`, or all of it.
pub fn before_char_len(s: &[char], c: char) -> (r: usize)
    ensures
        r <= s@.len(),
        s@.subrange(0, r as int) == before_char(s@, c),
{
    proof {
        lemma_index_of_from_range(s@, c, 0);
    }
    match index_of_char(s, c) {
        Some(i) => i,
        None => {
            assert(s@.subrange(0, s@.len() as int) =~= s@);
            s.len()
        },
    }
}

/// The character of a decimal digit.
pub open spec fn digit_char(d: nat) -> char {
    (48 + d) as char
}

/// The decimal text of a number, as `Display` writes it.
pub open spec fn decimal(n: nat) -> Seq<char>
    decreases n,
{
    if n < 10 {
        seq![digit_char(n)]
    } else {
        decimal(n / 10) + seq![digit_char(n % 10)]
    }
}

/// Appends the decimal digits of `n`.
fn push_decimal(out: &mut Vec<char>, n: u64)
    ensures
        final(out)@ == old(out)@ + decimal(n as nat),
    decreases n,
{
    if n >= 10 {
        push_decimal(out, n / 10);
    }
    let d = (n % 10) as u32;
    let c = char_from_u32_ascii(48 + d);
    out.push(c);
    proof {
        if n >= 10 {
            assert(decimal(n as nat) == decimal((n / 10) as nat) + seq![digit_char((n % 10) as nat)]);
        }
    }
}

/// The decimal text of a number.
pub fn decimal_string(n: u64) -> (r: String)
    ensures
        r@ == decimal(n as nat),
{
    let mut out: Vec<char> = Vec::new();
    push_decimal(&mut out, n);
    assert(out@ =~= decimal(n as nat));
    crate::primitives::string_from_chars(out.as_slice())
}

/// `index_of_from` finds the first `c` at or after `i`, and nothing when there is none.
pub proof fn lemma_index_of_from_first(s: Seq<char>, c: char, i: int)
    requires
        0 <= i,
    ensures
        match index_of_from(s, c, i) {
            Some(j) => i <= j < s.len() && s[j] == c && forall|k: int| i <= k < j ==> s[k] != c,
            None => forall|k: int| i <= k < s.len() ==> s[k] != c,
        },
    decreases s.len() - i,
{
    if i < s.len() && s[i] != c {
        lemma_index_of_from_first(s, c, i + 1);
    }
}

/// What `before_char` keeps holds no `c`, and is a prefix of the text.
pub proof fn lemma_before_char(s: Seq<char>, c: char)
    ensures
        before_char(s, c).len() <= s.len(),
        before_char(s, c) == s.subrange(0, before_char(s, c).len() as int),
        forall|k: int| 0 <= k < before_char(s, c).len() ==> before_char(s, c)[k] != c,
        (forall|k: int| 0 <= k < s.len() ==> s[k] != c) ==> before_char(s, c) == s,
{
    lemma_index_of_from_first(s, c, 0);
    if index_of(s, c) is None {
        assert(s.subrange(0, s.len() as int) =~= s);
    }
}

/// Trimming the front keeps a suffix that is empty or starts with a non-blank.
pub proof fn lemma_trim_start_shape(s: Seq<char>)
    ensures
        trim_start(s).len() <= s.len(),
        trim_start(s) == s.subrange(s.len() - trim_start(s).len(), s.len() as int),
        trim_start(s).len() == 0 || !is_ws(trim_start(s)[0]),
    decreases s.len(),
{
    if s.len() > 0 && is_ws(s[0]) {
        lemma_trim_start_shape(s.drop_first());
        let t = trim_start(s.drop_first());
        assert(s.drop_first().subrange(s.len() - 1 - t.len(), s.len() - 1) =~= s.subrange(
            s.len() - t.len(),
            s.len() as int,
        ));
    } else {
        assert(s.subrange(0, s.len() as int) =~= s);
    }
}

/// Trimming the end keeps a prefix that is empty or ends with a non-blank.
pub proof fn lemma_trim_end_shape(s: Seq<char>)
    ensures
        trim_end(s).len() <= s.len(),
        trim_end(s) == s.subrange(0, trim_end(s).len() as int),
        trim_end(s).len() == 0 || !is_ws(trim_end(s).last()),
    decreases s.len(),
{
    if s.len() > 0 && is_ws(s.last()) {
        lemma_trim_end_shape(s.drop_last());
        let t = trim_end(s.drop_last());
        assert(s.drop_last().subrange(0, t.len() as int) =~= s.subrange(0, t.len() as int));
    } else {
        assert(s.subrange(0, s.len() as int) =~= s);
    }
}

/// A trimmed text is a part of the text, empty or with non-blanks at both ends.
pub proof fn lemma_trim_shape(s: Seq<char>)
    ensures
        trim(s).len() <= s.len(),
        exists|a: int| 0 <= a && a + trim(s).len() <= s.len() && trim(s) == #[trigger] s.subrange(a, a + trim(s).len()),
        trim(s).len() == 0 || (!is_ws(trim(s)[0]) && !is_ws(trim(s).last())),
{
    let t = trim_start(s);
    lemma_trim_start_shape(s);
    lemma_trim_end_shape(t);
    let u = trim_end(t);
    let a = s.len() - t.len();
    assert(u =~= s.subrange(a, a + u.len()));
    assert(trim(s) == s.subrange(a, a + trim(s).len()));
    if u.len() > 0 {
        assert(u[0] == t[0]);
    }
}

/// Trimming twice is trimming once.
pub proof fn lemma_trim_idempotent(s: Seq<char>)
    ensures
        trim(trim(s)) == trim(s),
{
    lemma_trim_shape(s);
    let u = trim(s);
    if u.len() > 0 {
        assert(trim_start(u) == u);
        assert(trim_end(u) == u);
    } else {
        assert(trim_start(u) == u);
    }
}

} // verus!
