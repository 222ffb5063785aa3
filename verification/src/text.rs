//! Operations on text: searching, trimming, splitting, and decimal numbers.
//!
//! A text is modelled by its characters, a `Seq<char>`. Each operation comes
//! as a spec function on such sequences and an executable function that
//! computes it.

use vstd::prelude::*;
use vstd::string::*;
use vstd::utf8::*;

verus! {

broadcast use vstd::string::group_string_axioms;

// ---------------------------------------------------------------------------
// What std computes
// ---------------------------------------------------------------------------

/// What `str::to_lowercase` makes of a text that is not ASCII.
pub uninterp spec fn unicode_lowercase(s: Seq<char>) -> Seq<char>;

/// What `str::to_uppercase` makes of a text that is not ASCII.
pub uninterp spec fn unicode_uppercase(s: Seq<char>) -> Seq<char>;

/// The lower case of an ASCII letter; any other character stays.
pub open spec fn ascii_lower(c: char) -> char {
    if 'A' <= c <= 'Z' {
        (c as u32 + 32) as char
    } else {
        c
    }
}

/// The upper case of an ASCII letter; any other character stays.
pub open spec fn ascii_upper(c: char) -> char {
    if 'a' <= c <= 'z' {
        (c as u32 - 32) as char
    } else {
        c
    }
}

/// A text in lower case: an ASCII text has its letters lowered one by one, and
/// of any other text Unicode says what it is.
pub open spec fn lowercase(s: Seq<char>) -> Seq<char> {
    if is_ascii_chars(s) {
        s.map_values(|c: char| ascii_lower(c))
    } else {
        unicode_lowercase(s)
    }
}

/// A text in upper case: an ASCII text has its letters raised one by one, and
/// of any other text Unicode says what it is.
pub open spec fn uppercase(s: Seq<char>) -> Seq<char> {
    if is_ascii_chars(s) {
        s.map_values(|c: char| ascii_upper(c))
    } else {
        unicode_uppercase(s)
    }
}

/// `String::push`: appends one character.
pub assume_specification[ String::push ](s: &mut String, c: char)
    ensures
        final(s)@ == old(s)@.push(c),
;

/// `str::to_lowercase`. The mapping beyond ASCII is Unicode's and stays a
/// name; an ASCII text has its letters lowered one by one.
#[verifier::external_body]
pub(crate) fn to_lowercase(s: &str) -> (r: String)
    ensures
        r@ == if is_ascii_chars(s@) {
            s@.map_values(|c: char| ascii_lower(c))
        } else {
            unicode_lowercase(s@)
        },
{
    s.to_lowercase()
}

/// `str::to_uppercase`. The mapping beyond ASCII is Unicode's and stays a
/// name; an ASCII text has its letters raised one by one.
#[verifier::external_body]
pub(crate) fn to_uppercase(s: &str) -> (r: String)
    ensures
        r@ == if is_ascii_chars(s@) {
            s@.map_values(|c: char| ascii_upper(c))
        } else {
            unicode_uppercase(s@)
        },
{
    s.to_uppercase()
}

// ---------------------------------------------------------------------------
// Characters and pieces
// ---------------------------------------------------------------------------

/// The characters of a text.
pub fn chars_of(s: &str) -> (r: Vec<char>)
    ensures
        r@ == s@,
{
    let mut out: Vec<char> = Vec::new();
    for c in it: s.chars()
        invariant
            out@ == s@.take(it.index()),
            it.seq() == s@,
    {
        out.push(c);
        assert(out@ =~= s@.take(it.index() + 1));
    }
    assert(out@ =~= s@);
    out
}

/// The text made of some characters.
pub fn text_of(v: &Vec<char>) -> (r: String)
    ensures
        r@ == v@,
{
    let mut out = String::new();
    let mut i: usize = 0;
    while i < v.len()
        invariant
            i <= v.len(),
            out@ == v@.take(i as int),
        decreases v.len() - i,
    {
        out.push(v[i]);
        i += 1;
        assert(v@.take(i as int) =~= v@.take(i - 1).push(v@[i - 1]));
    }
    assert(v@.take(v@.len() as int) =~= v@);
    out
}

/// The characters from `from` up to `to`.
pub fn piece(v: &Vec<char>, from: usize, to: usize) -> (r: Vec<char>)
    requires
        from <= to <= v@.len(),
    ensures
        r@ == v@.subrange(from as int, to as int),
{
    let mut out: Vec<char> = Vec::new();
    let mut i: usize = from;
    while i < to
        invariant
            from <= i <= to <= v@.len(),
            out@ == v@.subrange(from as int, i as int),
        decreases to - i,
    {
        out.push(v[i]);
        i += 1;
        assert(out@ =~= v@.subrange(from as int, i as int));
    }
    out
}

/// Whether two texts hold the same characters.
pub fn same_text(a: &str, b: &str) -> (r: bool)
    ensures
        r == (a@ == b@),
{
    let x = a.as_bytes();
    let y = b.as_bytes();
    proof {
        encode_utf8_decode_utf8(a@);
        encode_utf8_decode_utf8(b@);
    }
    if x.len() != y.len() {
        return false;
    }
    let mut i: usize = 0;
    while i < x.len()
        invariant
            i <= x.len(),
            x@.len() == y@.len(),
            x@ == encode_utf8(a@),
            y@ == encode_utf8(b@),
            forall|j: int| 0 <= j < i ==> x@[j] == y@[j],
        decreases x.len() - i,
    {
        if x[i] != y[i] {
            return false;
        }
        i += 1;
    }
    assert(x@ =~= y@);
    true
}

/// Whether `p` stands at position `at` of `s`.
pub open spec fn stands_at(s: Seq<char>, p: Seq<char>, at: int) -> bool {
    0 <= at && at + p.len() <= s.len() && s.subrange(at, at + p.len()) == p
}

/// Whether `p` stands at position `at` of `s`.
pub fn has_at(s: &Vec<char>, p: &Vec<char>, at: usize) -> (r: bool)
    ensures
        r == stands_at(s@, p@, at as int),
{
    if at > s.len() || p.len() > s.len() - at {
        return false;
    }
    let mut i: usize = 0;
    while i < p.len()
        invariant
            i <= p@.len(),
            at + p@.len() <= s.len(),
            forall|j: int| 0 <= j < i ==> s@[at + j] == p@[j],
        decreases p.len() - i,
    {
        if s[at + i] != p[i] {
            assert(s@.subrange(at as int, at + p@.len())[i as int] != p@[i as int]);
            return false;
        }
        i += 1;
    }
    assert(s@.subrange(at as int, at + p@.len()) =~= p@);
    true
}

/// What follows the prefix `p`, or `None` where `s` does not start with it.
pub open spec fn after_prefix(s: Seq<char>, p: Seq<char>) -> Option<Seq<char>> {
    if stands_at(s, p, 0) {
        Some(s.skip(p.len() as int))
    } else {
        None
    }
}

/// What precedes the suffix `p`, or `None` where `s` does not end with it.
pub open spec fn before_suffix(s: Seq<char>, p: Seq<char>) -> Option<Seq<char>> {
    if stands_at(s, p, s.len() - p.len()) {
        Some(s.take(s.len() - p.len()))
    } else {
        None
    }
}

/// What follows the prefix `p`, or `None` where `s` does not start with it.
pub fn strip_prefix(s: &str, p: &str) -> (r: Option<String>)
    ensures
        match r {
            Some(t) => after_prefix(s@, p@) == Some(t@),
            None => after_prefix(s@, p@) is None,
        },
{
    let v = chars_of(s);
    let q = chars_of(p);
    if has_at(&v, &q, 0) {
        let rest = piece(&v, q.len(), v.len());
        assert(rest@ =~= s@.skip(p@.len() as int));
        Some(text_of(&rest))
    } else {
        None
    }
}

/// What precedes the suffix `p`, or `None` where `s` does not end with it.
pub fn strip_suffix(s: &str, p: &str) -> (r: Option<String>)
    ensures
        match r {
            Some(t) => before_suffix(s@, p@) == Some(t@),
            None => before_suffix(s@, p@) is None,
        },
{
    let v = chars_of(s);
    let q = chars_of(p);
    if q.len() <= v.len() && has_at(&v, &q, v.len() - q.len()) {
        let rest = piece(&v, 0, v.len() - q.len());
        assert(rest@ =~= s@.take(s@.len() - p@.len()));
        Some(text_of(&rest))
    } else {
        None
    }
}

/// Whether `p` occurs somewhere in `s`.
pub open spec fn occurs(s: Seq<char>, p: Seq<char>) -> bool {
    exists|at: int| #[trigger] stands_at(s, p, at)
}

/// Whether `p` occurs somewhere in `s`.
pub fn contains(s: &str, p: &str) -> (r: bool)
    ensures
        r == occurs(s@, p@),
{
    let v = chars_of(s);
    let q = chars_of(p);
    let mut at: usize = 0;
    while at < v.len()
        invariant
            at <= v@.len(),
            v@ == s@,
            q@ == p@,
            forall|j: int| 0 <= j < at ==> !#[trigger] stands_at(s@, p@, j),
        decreases v.len() - at,
    {
        if has_at(&v, &q, at) {
            assert(stands_at(s@, p@, at as int));
            return true;
        }
        at += 1;
    }
    has_at(&v, &q, at)
}

/// The first position, from `i` on, at which `c` stands.
pub open spec fn find_from(s: Seq<char>, c: char, i: int) -> Option<int>
    decreases s.len() - i,
{
    if i < 0 || i >= s.len() {
        None
    } else if s[i] == c {
        Some(i)
    } else {
        find_from(s, c, i + 1)
    }
}

/// The first position at which `c` stands.
pub open spec fn find(s: Seq<char>, c: char) -> Option<int> {
    find_from(s, c, 0)
}

/// The position that `find_from` gives is the first one at which `c` stands.
pub proof fn lemma_find_from(s: Seq<char>, c: char, i: int)
    requires
        0 <= i <= s.len(),
    ensures
        match find_from(s, c, i) {
            Some(k) => i <= k < s.len() && s[k] == c && forall|j: int| i <= j < k ==> s[j] != c,
            None => forall|j: int| i <= j < s.len() ==> s[j] != c,
        },
    decreases s.len() - i,
{
    if i < s.len() && s[i] != c {
        lemma_find_from(s, c, i + 1);
    }
}

/// `find_from` gives the position that is the first one at which `c` stands.
pub proof fn lemma_find_is(s: Seq<char>, c: char, i: int, k: int)
    requires
        0 <= i <= k < s.len(),
        s[k] == c,
        forall|j: int| i <= j < k ==> s[j] != c,
    ensures
        find_from(s, c, i) == Some(k),
    decreases k - i,
{
    if i < k {
        lemma_find_is(s, c, i + 1, k);
    }
}

/// The first position, from `start` on, at which `c` stands.
pub fn find_char_from(v: &Vec<char>, c: char, start: usize) -> (r: Option<usize>)
    requires
        start <= v@.len(),
    ensures
        match r {
            Some(k) => start <= k < v@.len() && find_from(v@, c, start as int) == Some(k as int),
            None => find_from(v@, c, start as int) is None,
        },
{
    let mut i: usize = start;
    while i < v.len()
        invariant
            start <= i <= v@.len(),
            find_from(v@, c, start as int) == find_from(v@, c, i as int),
        decreases v.len() - i,
    {
        if v[i] == c {
            return Some(i);
        }
        i += 1;
    }
    None
}

// ---------------------------------------------------------------------------
// Trimming
// ---------------------------------------------------------------------------

/// `s` without the run of `c` at its start.
pub open spec fn trim_start_char(s: Seq<char>, c: char) -> Seq<char>
    decreases s.len(),
{
    if s.len() > 0 && s[0] == c {
        trim_start_char(s.skip(1), c)
    } else {
        s
    }
}

/// `s` without the run of `c` at its end.
pub open spec fn trim_end_char(s: Seq<char>, c: char) -> Seq<char>
    decreases s.len(),
{
    if s.len() > 0 && s.last() == c {
        trim_end_char(s.drop_last(), c)
    } else {
        s
    }
}

/// `s` without the runs of `c` at its ends.
pub open spec fn trim_char(s: Seq<char>, c: char) -> Seq<char> {
    trim_end_char(trim_start_char(s, c), c)
}

/// Unicode's `White_Space` characters.
pub open spec fn is_white(c: char) -> bool {
    ||| '\u{9}' <= c <= '\u{d}'
    ||| c == ' '
    ||| c == '\u{85}'
    ||| c == '\u{a0}'
    ||| c == '\u{1680}'
    ||| '\u{2000}' <= c <= '\u{200a}'
    ||| c == '\u{2028}'
    ||| c == '\u{2029}'
    ||| c == '\u{202f}'
    ||| c == '\u{205f}'
    ||| c == '\u{3000}'
}

/// `s` without the white space at its start.
pub open spec fn trim_start_white(s: Seq<char>) -> Seq<char>
    decreases s.len(),
{
    if s.len() > 0 && is_white(s[0]) {
        trim_start_white(s.skip(1))
    } else {
        s
    }
}

/// `s` without the white space at its end.
pub open spec fn trim_end_white(s: Seq<char>) -> Seq<char>
    decreases s.len(),
{
    if s.len() > 0 && is_white(s.last()) {
        trim_end_white(s.drop_last())
    } else {
        s
    }
}

/// `s` without the white space at its ends.
pub open spec fn trim_white(s: Seq<char>) -> Seq<char> {
    trim_end_white(trim_start_white(s))
}

/// Whether `c` is one of Unicode's `White_Space` characters.
pub fn is_white_space(c: char) -> (r: bool)
    ensures
        r == is_white(c),
{
    ('\u{9}' <= c && c <= '\u{d}') || c == ' ' || c == '\u{85}' || c == '\u{a0}' || c == '\u{1680}'
        || ('\u{2000}' <= c && c <= '\u{200a}') || c == '\u{2028}' || c == '\u{2029}' || c
        == '\u{202f}' || c == '\u{205f}' || c == '\u{3000}'
}

/// The characters without the run of `c` at their start.
pub fn trim_chars_start(v: &Vec<char>, c: char) -> (r: Vec<char>)
    ensures
        r@ == trim_start_char(v@, c),
{
    let mut i: usize = 0;
    assert(v@.skip(0) =~= v@);
    while i < v.len() && v[i] == c
        invariant
            i <= v@.len(),
            trim_start_char(v@, c) == trim_start_char(v@.skip(i as int), c),
        decreases v.len() - i,
    {
        assert(v@.skip(i as int).skip(1) =~= v@.skip(i + 1));
        i += 1;
    }
    assert(v@.skip(i as int) =~= v@.subrange(i as int, v@.len() as int));
    piece(v, i, v.len())
}

/// The characters without the run of `c` at their end.
pub fn trim_chars_end(v: &Vec<char>, c: char) -> (r: Vec<char>)
    ensures
        r@ == trim_end_char(v@, c),
{
    let mut n: usize = v.len();
    assert(v@.take(n as int) =~= v@);
    while n > 0 && v[n - 1] == c
        invariant
            n <= v@.len(),
            trim_end_char(v@, c) == trim_end_char(v@.take(n as int), c),
        decreases n,
    {
        assert(v@.take(n as int).drop_last() =~= v@.take(n - 1));
        n -= 1;
    }
    assert(v@.take(n as int) =~= v@.subrange(0, n as int));
    piece(v, 0, n)
}

/// The characters without the white space at their ends.
pub fn trim_chars_white(v: &Vec<char>) -> (r: Vec<char>)
    ensures
        r@ == trim_white(v@),
{
    let mut i: usize = 0;
    assert(v@.skip(0) =~= v@);
    while i < v.len() && is_white_space(v[i])
        invariant
            i <= v@.len(),
            trim_start_white(v@) == trim_start_white(v@.skip(i as int)),
        decreases v.len() - i,
    {
        assert(v@.skip(i as int).skip(1) =~= v@.skip(i + 1));
        i += 1;
    }
    let ghost front = v@.skip(i as int);
    let mut n: usize = v.len();
    assert(v@.subrange(i as int, n as int) =~= front);
    while n > i && is_white_space(v[n - 1])
        invariant
            i <= n <= v@.len(),
            front == v@.skip(i as int),
            trim_end_white(front) == trim_end_white(v@.subrange(i as int, n as int)),
        decreases n,
    {
        assert(v@.subrange(i as int, n as int).drop_last() =~= v@.subrange(i as int, n - 1));
        n -= 1;
    }
    piece(v, i, n)
}

/// The text without the white space at its ends.
pub fn trim(s: &str) -> (r: String)
    ensures
        r@ == trim_white(s@),
{
    text_of(&trim_chars_white(&chars_of(s)))
}

/// The text without the run of `c` at its end.
pub fn trim_end_of(s: &str, c: char) -> (r: String)
    ensures
        r@ == trim_end_char(s@, c),
{
    text_of(&trim_chars_end(&chars_of(s), c))
}

// ---------------------------------------------------------------------------
// Splitting
// ---------------------------------------------------------------------------

/// The pieces of `s` between the characters `sep`, from position `i` on.
pub open spec fn split_from(s: Seq<char>, sep: char, i: int) -> Seq<Seq<char>>
    decreases s.len() - i,
{
    match find_from(s, sep, i) {
        Some(k) => if i <= k < s.len() {
            seq![s.subrange(i, k)] + split_from(s, sep, k + 1)
        } else {
            seq![]
        },
        None => seq![s.subrange(i, s.len() as int)],
    }
}

/// The pieces of `s` between the characters `sep`.
pub open spec fn split(s: Seq<char>, sep: char) -> Seq<Seq<char>> {
    split_from(s, sep, 0)
}

/// The views of a list of texts given as characters.
pub open spec fn char_views(v: Seq<Vec<char>>) -> Seq<Seq<char>> {
    Seq::new(v.len(), |i: int| v[i]@)
}

/// The pieces of a text between the characters `sep`.
pub fn split_chars(v: &Vec<char>, sep: char) -> (r: Vec<Vec<char>>)
    ensures
        char_views(r@) == split(v@, sep),
{
    let mut out: Vec<Vec<char>> = Vec::new();
    let mut i: usize = 0;
    assert(char_views(out@) =~= seq![]);
    loop
        invariant
            i <= v.len(),
            char_views(out@) + split_from(v@, sep, i as int) == split(v@, sep),
        decreases v@.len() - i,
    {
        let ghost before = char_views(out@);
        match find_char_from(v, sep, i) {
            Some(k) => {
                let p = piece(v, i, k);
                out.push(p);
                assert(char_views(out@) =~= before.push(p@));
                assert(before + (seq![p@] + split_from(v@, sep, k + 1)) =~= before.push(p@)
                    + split_from(v@, sep, k + 1));
                i = k + 1;
            },
            None => {
                let p = piece(v, i, v.len());
                out.push(p);
                assert(char_views(out@) =~= before.push(p@));
                assert(before + seq![p@] =~= before.push(p@));
                return out;
            },
        }
    }
}

/// The position after the run of characters, from `i` on, that are not white
/// space.
pub open spec fn word_end(s: Seq<char>, i: int) -> int
    decreases s.len() - i,
{
    if i < 0 || i >= s.len() || is_white(s[i]) {
        i
    } else {
        word_end(s, i + 1)
    }
}

/// `word_end` lies between its start and the end of the text.
pub proof fn lemma_word_end(s: Seq<char>, i: int)
    requires
        0 <= i <= s.len(),
    ensures
        i <= word_end(s, i) <= s.len(),
        i < s.len() && !is_white(s[i]) ==> i < word_end(s, i),
    decreases s.len() - i,
{
    if i < s.len() && !is_white(s[i]) {
        lemma_word_end(s, i + 1);
    }
}

/// The words of `s` from position `i` on: the longest runs of characters that
/// are not white space.
pub open spec fn words_from(s: Seq<char>, i: int) -> Seq<Seq<char>>
    decreases s.len() - i,
{
    if i < 0 || i >= s.len() {
        seq![]
    } else if is_white(s[i]) {
        words_from(s, i + 1)
    } else {
        let e = word_end(s, i);
        if i < e <= s.len() {
            seq![s.subrange(i, e)] + words_from(s, e)
        } else {
            seq![]
        }
    }
}

/// The words of `s`: the longest runs of characters that are not white space.
pub open spec fn words(s: Seq<char>) -> Seq<Seq<char>> {
    words_from(s, 0)
}

/// The words of a text.
pub fn split_words(v: &Vec<char>) -> (r: Vec<Vec<char>>)
    ensures
        char_views(r@) == words(v@),
{
    let mut out: Vec<Vec<char>> = Vec::new();
    let mut i: usize = 0;
    assert(char_views(out@) =~= seq![]);
    while i < v.len()
        invariant
            i <= v@.len(),
            char_views(out@) + words_from(v@, i as int) == words(v@),
        decreases v@.len() - i,
    {
        if is_white_space(v[i]) {
            i += 1;
        } else {
            let start = i;
            proof {
                lemma_word_end(v@, start as int);
            }
            while i < v.len() && !is_white_space(v[i])
                invariant
                    start <= i <= v@.len(),
                    word_end(v@, start as int) == word_end(v@, i as int),
                decreases v@.len() - i,
            {
                i += 1;
            }
            let ghost before = char_views(out@);
            let p = piece(v, start, i);
            out.push(p);
            assert(char_views(out@) =~= before.push(p@));
            assert(before + (seq![p@] + words_from(v@, i as int)) =~= before.push(p@) + words_from(
                v@,
                i as int,
            ));
        }
    }
    assert(char_views(out@) + words_from(v@, i as int) =~= char_views(out@));
    out
}

/// Whether `c` stands nowhere in `s`.
pub open spec fn free_of(s: Seq<char>, c: char) -> bool {
    forall|i: int| 0 <= i < s.len() ==> #[trigger] s[i] != c
}

/// A text that has a separator and one more piece at its end splits into its
/// pieces and that one.
pub proof fn lemma_split_append(a: Seq<char>, sep: char, b: Seq<char>)
    requires
        free_of(b, sep),
    ensures
        split(a + seq![sep] + b, sep) == split(a, sep).push(b),
{
    lemma_split_append_from(a, sep, b, 0);
}

/// `lemma_split_append` from a position on.
proof fn lemma_split_append_from(a: Seq<char>, sep: char, b: Seq<char>, i: int)
    requires
        free_of(b, sep),
        0 <= i <= a.len(),
    ensures
        split_from(a + seq![sep] + b, sep, i) == split_from(a, sep, i).push(b),
    decreases a.len() - i,
{
    let full = a + seq![sep] + b;
    lemma_find_from(a, sep, i);
    match find_from(a, sep, i) {
        Some(k) => {
            lemma_find_is(full, sep, i, k);
            lemma_split_append_from(a, sep, b, k + 1);
            assert(full.subrange(i, k) =~= a.subrange(i, k));
            assert(split_from(full, sep, i) =~= split_from(a, sep, i).push(b));
        },
        None => {
            let n = a.len() as int;
            lemma_find_is(full, sep, i, n);
            lemma_find_from(full, sep, n + 1);
            assert(find_from(full, sep, n + 1) is None);
            assert(full.subrange(i, n) =~= a.subrange(i, n));
            assert(full.subrange(n + 1, full.len() as int) =~= b);
            assert(split_from(full, sep, n + 1) =~= seq![b]);
            assert(split_from(full, sep, i) =~= split_from(a, sep, i).push(b));
        },
    }
}

/// Whether a text is one word.
pub open spec fn is_word(w: Seq<char>) -> bool {
    w.len() > 0 && forall|i: int| 0 <= i < w.len() ==> !is_white(#[trigger] w[i])
}

/// `word_end` of a text whose rest is one word.
proof fn lemma_word_end_last(s: Seq<char>, i: int)
    requires
        0 <= i <= s.len(),
        forall|j: int| i <= j < s.len() ==> !is_white(#[trigger] s[j]),
    ensures
        word_end(s, i) == s.len(),
    decreases s.len() - i,
{
    if i < s.len() {
        lemma_word_end_last(s, i + 1);
    }
}

/// `word_end` is not moved by what follows a space.
proof fn lemma_word_end_append(a: Seq<char>, w: Seq<char>, i: int)
    requires
        0 <= i <= a.len(),
    ensures
        word_end(a + seq![' '] + w, i) == word_end(a, i),
    decreases a.len() - i,
{
    if i < a.len() && !is_white(a[i]) {
        lemma_word_end_append(a, w, i + 1);
    }
}

/// One word is split into itself.
pub proof fn lemma_one_word(w: Seq<char>)
    requires
        is_word(w),
    ensures
        words(w) == seq![w],
{
    lemma_word_end_last(w, 0);
    assert(w.subrange(0, w.len() as int) =~= w);
    assert(words_from(w, w.len() as int) =~= seq![]);
    assert(words(w) =~= seq![w]);
}

/// A text that has a space and one more word at its end splits into its words
/// and that one.
pub proof fn lemma_words_append(a: Seq<char>, w: Seq<char>)
    requires
        is_word(w),
    ensures
        words(a + seq![' '] + w) == words(a).push(w),
{
    lemma_words_append_from(a, w, 0);
}

/// `lemma_words_append` from a position on.
proof fn lemma_words_append_from(a: Seq<char>, w: Seq<char>, i: int)
    requires
        is_word(w),
        0 <= i <= a.len(),
    ensures
        words_from(a + seq![' '] + w, i) == words_from(a, i).push(w),
    decreases a.len() - i,
{
    let full = a + seq![' '] + w;
    let n = a.len() as int;
    if i == n {
        assert(is_white(full[n]));
        assert forall|j: int| n + 1 <= j < full.len() implies !is_white(#[trigger] full[j]) by {
            assert(full[j] == w[j - n - 1]);
        }
        lemma_word_end_last(full, n + 1);
        assert(full.subrange(n + 1, full.len() as int) =~= w);
        assert(full[n + 1] == w[0]);
        assert(words_from(full, full.len() as int) =~= seq![]);
        assert(words_from(full, n + 1) =~= seq![w]);
        assert(words_from(a, n) =~= seq![]);
        assert(words_from(full, n) =~= words_from(a, n).push(w));
    } else if is_white(a[i]) {
        lemma_words_append_from(a, w, i + 1);
    } else {
        lemma_word_end(a, i);
        lemma_word_end_append(a, w, i);
        let e = word_end(a, i);
        lemma_words_append_from(a, w, e);
        assert(full.subrange(i, e) =~= a.subrange(i, e));
        assert(words_from(full, i) =~= words_from(a, i).push(w));
    }
}

/// A text without the quotes around it.
pub proof fn lemma_unquote(s: Seq<char>)
    requires
        s.len() > 0,
        s[0] != '"',
        s.last() != '"',
    ensures
        trim_char(s, '"') == s,
        trim_char(seq!['"'] + s + seq!['"'], '"') == s,
{
    let q = seq!['"'] + s + seq!['"'];
    assert(q.skip(1) =~= s + seq!['"']);
    assert((s + seq!['"']).drop_last() =~= s);
    assert(trim_start_char(q.skip(1), '"') == q.skip(1));
    assert(trim_end_char(s, '"') == s);
}

// ---------------------------------------------------------------------------
// Decimal numbers
// ---------------------------------------------------------------------------

/// The character of a digit.
pub open spec fn digit_char(d: nat) -> char {
    (48 + d) as char
}

/// A number in decimal, without leading zeros.
pub open spec fn decimal(n: nat) -> Seq<char>
    decreases n,
{
    if n < 10 {
        seq![digit_char(n)]
    } else {
        decimal(n / 10).push(digit_char(n % 10))
    }
}

/// An integer in decimal, with a minus sign where it is negative.
pub open spec fn signed_decimal(n: int) -> Seq<char> {
    if n < 0 {
        seq!['-'] + decimal((-n) as nat)
    } else {
        decimal(n as nat)
    }
}

/// Whether `c` is a decimal digit.
pub open spec fn is_digit(c: char) -> bool {
    '0' <= c <= '9'
}

/// The number that a run of digits writes.
pub open spec fn digits_value(s: Seq<char>) -> nat
    decreases s.len(),
{
    if s.len() == 0 {
        0
    } else {
        digits_value(s.drop_last()) * 10 + (s.last() as nat - 48) as nat
    }
}

/// Whether a text is a non-empty run of digits.
pub open spec fn all_digits(s: Seq<char>) -> bool {
    s.len() > 0 && forall|i: int| 0 <= i < s.len() ==> is_digit(#[trigger] s[i])
}

/// The number that a text writes: digits after an optional plus sign.
pub open spec fn decimal_value(s: Seq<char>) -> Option<nat> {
    let t = if s.len() > 0 && s[0] == '+' {
        s.skip(1)
    } else {
        s
    };
    if all_digits(t) {
        Some(digits_value(t))
    } else {
        None
    }
}

/// The integer that a text writes: digits after an optional sign.
pub open spec fn signed_decimal_value(s: Seq<char>) -> Option<int> {
    if s.len() > 0 && s[0] == '-' {
        if all_digits(s.skip(1)) {
            Some(-(digits_value(s.skip(1)) as int))
        } else {
            None
        }
    } else {
        match decimal_value(s) {
            Some(n) => Some(n as int),
            None => None,
        }
    }
}

/// A number in decimal is digits only, and reads back as that number.
pub proof fn lemma_decimal(n: nat)
    ensures
        all_digits(decimal(n)),
        digits_value(decimal(n)) == n,
        decimal_value(decimal(n)) == Some(n),
    decreases n,
{
    if n < 10 {
        assert(decimal(n).drop_last() =~= seq![]);
        assert(digits_value(seq![]) == 0);
    } else {
        lemma_decimal(n / 10);
        assert(decimal(n).drop_last() =~= decimal(n / 10));
    }
    assert(is_digit(decimal(n)[0]));
}

/// A signed number in decimal reads back as that number.
pub proof fn lemma_signed_decimal(n: int)
    ensures
        signed_decimal_value(signed_decimal(n)) == Some(n),
        signed_decimal(n).len() > 0,
        forall|i: int|
            0 <= i < signed_decimal(n).len() ==> #[trigger] signed_decimal(n)[i] == '-'
                || is_digit(signed_decimal(n)[i]),
{
    if n < 0 {
        lemma_decimal((-n) as nat);
        assert(signed_decimal(n).skip(1) =~= decimal((-n) as nat));
    } else {
        lemma_decimal(n as nat);
        assert(is_digit(decimal(n as nat)[0]));
    }
}

/// The character of a digit.
fn digit(d: u8) -> (c: char)
    requires
        d < 10,
    ensures
        c == digit_char(d as nat),
{
    (48u8 + d) as char
}

/// A number in decimal.
pub fn decimal_chars(n: u128) -> (r: Vec<char>)
    ensures
        r@ == decimal(n as nat),
    decreases n,
{
    if n < 10 {
        let mut out: Vec<char> = Vec::new();
        out.push(digit(n as u8));
        assert(out@ =~= decimal(n as nat));
        out
    } else {
        let mut out = decimal_chars(n / 10);
        out.push(digit((n % 10) as u8));
        out
    }
}

/// A number in decimal.
pub fn decimal_text(n: u128) -> (r: String)
    ensures
        r@ == decimal(n as nat),
{
    text_of(&decimal_chars(n))
}

/// An integer in decimal.
pub fn signed_decimal_text(n: i64) -> (r: String)
    ensures
        r@ == signed_decimal(n as int),
{
    if n < 0 {
        let mut out = String::new();
        out.push('-');
        let magnitude = (-(n as i128)) as u128;
        let rest = decimal_text(magnitude);
        out.append(rest.as_str());
        assert(out@ =~= signed_decimal(n as int));
        out
    } else {
        decimal_text(n as u128)
    }
}

/// A prefix of a run of digits writes no greater a number.
proof fn lemma_digits_grow(s: Seq<char>, i: int)
    requires
        0 <= i <= s.len(),
        forall|j: int| 0 <= j < s.len() ==> is_digit(#[trigger] s[j]),
    ensures
        digits_value(s.take(i)) <= digits_value(s),
    decreases s.len() - i,
{
    if i < s.len() {
        lemma_digits_grow(s, i + 1);
        assert(s.take(i + 1).drop_last() =~= s.take(i));
        assert(is_digit(s[i]));
    } else {
        assert(s.take(i) =~= s);
    }
}

/// The number that the digits of `v` from `from` on write, where it is no
/// greater than `max`.
fn digits_from(v: &Vec<char>, from: usize, max: u128) -> (r: Option<u128>)
    requires
        from <= v@.len(),
    ensures
        r == (if all_digits(v@.skip(from as int)) && digits_value(v@.skip(from as int)) <= max {
            Some(digits_value(v@.skip(from as int)) as u128)
        } else {
            None::<u128>
        }),
{
    let ghost s = v@.skip(from as int);
    if from == v.len() {
        return None;
    }
    let mut i: usize = from;
    let mut n: u128 = 0;
    assert(s.take(0) =~= seq![]);
    while i < v.len()
        invariant
            from <= i <= v@.len(),
            s == v@.skip(from as int),
            n == digits_value(s.take(i - from)),
            n <= max,
            forall|j: int| 0 <= j < i - from ==> is_digit(#[trigger] s[j]),
        decreases v.len() - i,
    {
        let c = v[i];
        assert(s[i - from] == c);
        if !('0' <= c && c <= '9') {
            return None;
        }
        let d: u128 = (c as u32 - 48) as u128;
        assert(s.take(i - from + 1).drop_last() =~= s.take(i - from));
        let ghost next = digits_value(s.take(i - from + 1));
        assert(next == n * 10 + d);
        if n > max / 10 || d > max - n * 10 {
            proof {
                assert(next > max) by {
                    if n > max / 10 {
                        assert(n * 10 > max);
                    }
                }
                if all_digits(s) {
                    lemma_digits_grow(s, i - from + 1);
                }
            }
            return None;
        }
        n = n * 10 + d;
        i += 1;
    }
    assert(s.take(s.len() as int) =~= s);
    Some(n)
}

/// The number that a text writes, where it is no greater than `max`.
pub fn parse_decimal(s: &str, max: u128) -> (r: Option<u128>)
    ensures
        r == (match decimal_value(s@) {
            Some(n) => if n <= max {
                Some(n as u128)
            } else {
                None
            },
            None => None::<u128>,
        }),
{
    let v = chars_of(s);
    if v.len() > 0 && v[0] == '+' {
        digits_from(&v, 1, max)
    } else {
        assert(s@.skip(0) =~= s@);
        digits_from(&v, 0, max)
    }
}

/// The 64-bit integer that a text writes.
pub fn parse_signed(s: &str) -> (r: Option<i64>)
    ensures
        r == (match signed_decimal_value(s@) {
            Some(n) => if i64::MIN <= n <= i64::MAX {
                Some(n as i64)
            } else {
                None
            },
            None => None::<i64>,
        }),
{
    let v = chars_of(s);
    if v.len() > 0 && v[0] == '-' {
        match digits_from(&v, 1, 0x8000_0000_0000_0000) {
            Some(n) => Some((-(n as i128)) as i64),
            None => None,
        }
    } else {
        match parse_decimal(s, 0x7fff_ffff_ffff_ffff) {
            Some(n) => Some(n as i64),
            None => None,
        }
    }
}

// ---------------------------------------------------------------------------
// Laws
// ---------------------------------------------------------------------------

/// Lower and upper case leave the length of an ASCII text and everything but
/// its letters; each letter keeps its place in the alphabet.
pub proof fn law_case_of_letters(s: Seq<char>, i: int)
    requires
        is_ascii_chars(s),
        0 <= i < s.len(),
    ensures
        lowercase(s).len() == s.len(),
        uppercase(s).len() == s.len(),
        !('A' <= lowercase(s)[i] <= 'Z'),
        !('a' <= uppercase(s)[i] <= 'z'),
        'A' <= s[i] <= 'Z' ==> lowercase(s)[i] as int - 'a' as int == s[i] as int - 'A' as int,
        'a' <= s[i] <= 'z' ==> uppercase(s)[i] as int - 'A' as int == s[i] as int - 'a' as int,
        !('A' <= s[i] <= 'Z') ==> lowercase(s)[i] == s[i],
        !('a' <= s[i] <= 'z') ==> uppercase(s)[i] == s[i],
{
}

/// What follows a prefix and what precedes a suffix is the rest of the text:
/// it is found behind every prefix, and put back it gives the text.
pub proof fn law_prefix_and_rest(s: Seq<char>, p: Seq<char>, t: Seq<char>)
    ensures
        after_prefix(s, p) == Some(t) <==> s == p + t,
        before_suffix(s, p) == Some(t) <==> s == t + p,
{
    assert((p + t).subrange(0, p.len() as int) =~= p);
    assert((p + t).skip(p.len() as int) =~= t);
    assert((t + p).subrange(t.len() as int, (t + p).len() as int) =~= p);
    assert((t + p).take(t.len() as int) =~= t);
    if after_prefix(s, p) == Some(t) {
        assert(p + t =~= s);
    }
    if before_suffix(s, p) == Some(t) {
        assert(t + p =~= s);
    }
}

/// A text occurs in another where something may precede it and something may
/// follow it, and nowhere else.
pub proof fn law_occurs(s: Seq<char>, p: Seq<char>, a: Seq<char>, b: Seq<char>)
    ensures
        occurs(a + p + b, p),
        occurs(s, p) ==> exists|c: Seq<char>, d: Seq<char>| s == #[trigger] (c + p + d),
{
    let whole = a + p + b;
    assert(whole.subrange(a.len() as int, (a.len() + p.len()) as int) =~= p);
    assert(stands_at(whole, p, a.len() as int));
    if occurs(s, p) {
        let at = choose|at: int| #[trigger] stands_at(s, p, at);
        let c = s.take(at);
        let d = s.skip(at + p.len());
        assert(s =~= c + p + d) by {
            assert forall|i: int| 0 <= i < s.len() implies s[i] == (c + p + d)[i] by {
                if at <= i < at + p.len() {
                    assert(s.subrange(at, at + p.len())[i - at] == p[i - at]);
                }
            }
        }
    }
}

/// Trimming takes a run off the start and keeps the rest.
pub proof fn law_trim_start(s: Seq<char>, c: char) -> (n: int)
    ensures
        0 <= n <= s.len(),
        trim_start_char(s, c) == s.skip(n),
        forall|i: int| 0 <= i < n ==> #[trigger] s[i] == c,
        n < s.len() ==> s[n] != c,
    decreases s.len(),
{
    if s.len() > 0 && s[0] == c {
        let n = law_trim_start(s.skip(1), c);
        assert(s.skip(1).skip(n) =~= s.skip(n + 1));
        assert forall|i: int| 0 <= i < n + 1 implies #[trigger] s[i] == c by {
            if i > 0 {
                assert(s.skip(1)[i - 1] == c);
            }
        }
        n + 1
    } else {
        assert(s.skip(0) =~= s);
        0
    }
}

/// Trimming takes a run off the end and keeps the rest.
pub proof fn law_trim_end(s: Seq<char>, c: char) -> (n: int)
    ensures
        0 <= n <= s.len(),
        trim_end_char(s, c) == s.take(n),
        forall|i: int| n <= i < s.len() ==> #[trigger] s[i] == c,
        n > 0 ==> s[n - 1] != c,
    decreases s.len(),
{
    if s.len() > 0 && s.last() == c {
        let n = law_trim_end(s.drop_last(), c);
        assert(s.drop_last().take(n) =~= s.take(n));
        assert forall|i: int| n <= i < s.len() implies #[trigger] s[i] == c by {
            if i < s.len() - 1 {
                assert(s.drop_last()[i] == c);
            }
        }
        if n > 0 {
            assert(s.drop_last()[n - 1] != c);
        }
        n
    } else {
        assert(s.take(s.len() as int) =~= s);
        s.len() as int
    }
}

/// `law_trim_start` for white space.
proof fn lemma_trim_start_white(s: Seq<char>) -> (n: int)
    ensures
        0 <= n <= s.len(),
        trim_start_white(s) == s.skip(n),
        forall|i: int| 0 <= i < n ==> is_white(#[trigger] s[i]),
        n < s.len() ==> !is_white(s[n]),
    decreases s.len(),
{
    if s.len() > 0 && is_white(s[0]) {
        let n = lemma_trim_start_white(s.skip(1));
        assert(s.skip(1).skip(n) =~= s.skip(n + 1));
        assert forall|i: int| 0 <= i < n + 1 implies is_white(#[trigger] s[i]) by {
            if i > 0 {
                assert(is_white(s.skip(1)[i - 1]));
            }
        }
        n + 1
    } else {
        assert(s.skip(0) =~= s);
        0
    }
}

/// `law_trim_end` for white space.
proof fn lemma_trim_end_white(s: Seq<char>) -> (n: int)
    ensures
        0 <= n <= s.len(),
        trim_end_white(s) == s.take(n),
        forall|i: int| n <= i < s.len() ==> is_white(#[trigger] s[i]),
        n > 0 ==> !is_white(s[n - 1]),
    decreases s.len(),
{
    if s.len() > 0 && is_white(s.last()) {
        let n = lemma_trim_end_white(s.drop_last());
        assert(s.drop_last().take(n) =~= s.take(n));
        assert forall|i: int| n <= i < s.len() implies is_white(#[trigger] s[i]) by {
            if i < s.len() - 1 {
                assert(is_white(s.drop_last()[i]));
            }
        }
        if n > 0 {
            assert(!is_white(s.drop_last()[n - 1]));
        }
        n
    } else {
        assert(s.take(s.len() as int) =~= s);
        s.len() as int
    }
}

/// Trimming white space keeps the middle of a text as it is: only white space
/// is left out on either side, and neither end of the middle is white space.
pub proof fn law_trim_white(s: Seq<char>) -> (r: (int, int))
    ensures
        0 <= r.0 <= r.1 <= s.len(),
        trim_white(s) == s.subrange(r.0, r.1),
        forall|i: int| 0 <= i < s.len() && !(r.0 <= i < r.1) ==> is_white(#[trigger] s[i]),
        r.0 < r.1 ==> !is_white(s[r.0]) && !is_white(s[r.1 - 1]),
{
    let a = lemma_trim_start_white(s);
    let t = s.skip(a);
    let n = lemma_trim_end_white(t);
    assert(t.take(n) =~= s.subrange(a, a + n));
    assert forall|i: int| 0 <= i < s.len() && !(a <= i < a + n) implies is_white(#[trigger] s[i]) by {
        if i >= a {
            assert(is_white(t[i - a]));
        }
    }
    if n > 0 {
        assert(!is_white(t[n - 1]));
        assert(!is_white(s[a]));
    }
    (a, a + n)
}

/// A text without the separator is one piece; together with
/// `lemma_split_append` this says what the pieces of every text are.
pub proof fn law_one_piece(s: Seq<char>, sep: char)
    requires
        free_of(s, sep),
    ensures
        split(s, sep) == seq![s],
{
    lemma_find_from(s, sep, 0);
    assert(s.subrange(0, s.len() as int) =~= s);
}

/// White space at the end of a text adds no word, whichever it is.
pub proof fn law_white_space_is_no_word(s: Seq<char>, c: char)
    requires
        is_white(c),
    ensures
        words(s.push(c)) == words(s),
{
    lemma_no_word_from(s, c, 0);
}

/// `law_white_space_is_no_word` from a position on.
proof fn lemma_no_word_from(s: Seq<char>, c: char, i: int)
    requires
        is_white(c),
        0 <= i <= s.len(),
    ensures
        words_from(s.push(c), i) == words_from(s, i),
    decreases s.len() - i,
{
    let full = s.push(c);
    if i == s.len() {
        assert(words_from(full, i + 1) =~= seq![]);
    } else if is_white(s[i]) {
        lemma_no_word_from(s, c, i + 1);
    } else {
        lemma_word_end(s, i);
        lemma_word_end_push(s, c, i);
        let e = word_end(s, i);
        lemma_no_word_from(s, c, e);
        assert(full.subrange(i, e) =~= s.subrange(i, e));
    }
}

/// `word_end` is not moved by white space behind the text.
proof fn lemma_word_end_push(s: Seq<char>, c: char, i: int)
    requires
        is_white(c),
        0 <= i <= s.len(),
    ensures
        word_end(s.push(c), i) == word_end(s, i),
    decreases s.len() - i,
{
    if i < s.len() && !is_white(s[i]) {
        lemma_word_end_push(s, c, i + 1);
    }
}

/// The white space of ASCII: tab, line feed, vertical tab, form feed, carriage
/// return and space; no digit, no letter and no mark is white space.
pub proof fn law_ascii_white_space(c: char)
    requires
        (c as u32) < 128,
    ensures
        is_white(c) <==> (9 <= c as u32 <= 13 || c as u32 == 32),
{
}

/// A digit at the end of a number counts once, and everything before it ten
/// times.
pub proof fn law_places_of_digits(s: Seq<char>, c: char)
    requires
        is_digit(c),
    ensures
        digits_value(s.push(c)) == 10 * digits_value(s) + (c as int - '0' as int),
        digits_value(seq![c]) == c as int - '0' as int,
        all_digits(s) ==> decimal_value(s.push(c)) == Some(digits_value(s.push(c))),
        all_digits(s) ==> decimal_value(seq!['+'] + s) == Some(digits_value(s)),
        all_digits(s) ==> signed_decimal_value(seq!['-'] + s) == Some(-(digits_value(s) as int)),
        all_digits(s) ==> signed_decimal_value(s) == Some(digits_value(s) as int),
{
    assert(s.push(c).drop_last() =~= s);
    assert(seq![c].drop_last() =~= Seq::<char>::empty());
    assert(digits_value(Seq::<char>::empty()) == 0);
    assert((seq!['+'] + s).skip(1) =~= s);
    assert((seq!['-'] + s).skip(1) =~= s);
    if all_digits(s) {
        assert(is_digit(s[0]));
        assert(s.push(c)[0] == s[0]);
        assert forall|i: int| 0 <= i < s.push(c).len() implies is_digit(#[trigger] s.push(c)[i]) by {
            if i < s.len() {
                assert(is_digit(s[i]));
            }
        }
    }
}

/// A number has no leading zero, but for zero itself.
pub proof fn law_no_leading_zero(n: nat)
    ensures
        decimal(n).len() > 0,
        n > 0 ==> decimal(n)[0] != '0',
        n == 0 ==> decimal(n) == seq!['0'],
    decreases n,
{
    if n >= 10 {
        law_no_leading_zero(n / 10);
    }
}

/// Whatever is no run of digits behind a sign is no number.
pub proof fn law_no_number(s: Seq<char>, i: int)
    requires
        0 <= i < s.len(),
        !is_digit(s[i]),
    ensures
        i > 0 || s[0] != '+' ==> decimal_value(s) is None,
        i > 0 || (s[0] != '+' && s[0] != '-') ==> signed_decimal_value(s) is None,
        decimal_value(Seq::empty()) is None,
        signed_decimal_value(Seq::empty()) is None,
        decimal_value(seq!['+']) is None,
        signed_decimal_value(seq!['-']) is None,
{
    if i > 0 {
        assert(s.skip(1)[i - 1] == s[i]);
    }
    assert(seq!['+'].skip(1).len() == 0);
    assert(seq!['-'].skip(1).len() == 0);
}

} // verus!
