use vstd::prelude::*;
use vstd::string::StringExecFns;

verus! {

// ───────────────────────── character classes ─────────────────────────

pub open spec fn is_ascii_upper(c: char) -> bool {
    'A' <= c && c <= 'Z'
}

pub open spec fn is_ascii_lower(c: char) -> bool {
    'a' <= c && c <= 'z'
}

pub open spec fn is_ascii_alpha(c: char) -> bool {
    is_ascii_upper(c) || is_ascii_lower(c)
}

pub open spec fn is_ascii_digit(c: char) -> bool {
    '0' <= c && c <= '9'
}

pub open spec fn is_ascii_alnum(c: char) -> bool {
    is_ascii_alpha(c) || is_ascii_digit(c)
}

/// The Unicode `White_Space` property, the set that `char::is_whitespace`
/// and `str::trim` use.
pub open spec fn is_ws(c: char) -> bool {
    ||| ('\u{9}' <= c && c <= '\u{d}')
    ||| c == ' '
    ||| c == '\u{85}'
    ||| c == '\u{a0}'
    ||| c == '\u{1680}'
    ||| ('\u{2000}' <= c && c <= '\u{200a}')
    ||| c == '\u{2028}'
    ||| c == '\u{2029}'
    ||| c == '\u{202f}'
    ||| c == '\u{205f}'
    ||| c == '\u{3000}'
}

pub fn ascii_alpha(c: char) -> (r: bool)
    ensures
        r == is_ascii_alpha(c),
{
    ('A' <= c && c <= 'Z') || ('a' <= c && c <= 'z')
}

pub fn ascii_digit(c: char) -> (r: bool)
    ensures
        r == is_ascii_digit(c),
{
    '0' <= c && c <= '9'
}

pub fn ascii_alnum(c: char) -> (r: bool)
    ensures
        r == is_ascii_alnum(c),
{
    ascii_alpha(c) || ascii_digit(c)
}

pub fn whitespace(c: char) -> (r: bool)
    ensures
        r == is_ws(c),
{
    ('\u{9}' <= c && c <= '\u{d}') || c == ' ' || c == '\u{85}' || c == '\u{a0}' || c
        == '\u{1680}' || ('\u{2000}' <= c && c <= '\u{200a}') || c == '\u{2028}' || c
        == '\u{2029}' || c == '\u{202f}' || c == '\u{205f}' || c == '\u{3000}'
}

/// `c` is one of the characters of `set`.
pub open spec fn one_of(c: char, set: Seq<char>) -> bool {
    set.contains(c)
}

pub fn in_set(c: char, set: &str) -> (r: bool)
    ensures
        r == one_of(c, set@),
{
    let v = chars_of(set);
    let mut i: usize = 0;
    while i < v.len()
        invariant
            v@ == set@,
            i <= v.len(),
            forall|j: int| 0 <= j < i ==> v@[j] != c,
        decreases v.len() - i,
    {
        if v[i] == c {
            assert(set@[i as int] == c);
            return true;
        }
        i += 1;
    }
    false
}

// ───────────────────────── sequence predicates ─────────────────────────

/// Every character of `s` satisfies `p`.
pub open spec fn all_chars(s: Seq<char>, p: spec_fn(char) -> bool) -> bool {
    forall|i: int| 0 <= i < s.len() ==> #[trigger] p(s[i])
}

/// `pat` occurs in `s` starting at position `i`.
pub open spec fn occurs_at(s: Seq<char>, pat: Seq<char>, i: int) -> bool {
    0 <= i && i + pat.len() <= s.len() && s.subrange(i, i + pat.len()) == pat
}

/// `pat` occurs somewhere in `s`.
pub open spec fn has_sub(s: Seq<char>, pat: Seq<char>) -> bool {
    exists|i: int| occurs_at(s, pat, i)
}

pub open spec fn starts_with(s: Seq<char>, pat: Seq<char>) -> bool {
    occurs_at(s, pat, 0)
}

pub open spec fn ends_with(s: Seq<char>, pat: Seq<char>) -> bool {
    pat.len() <= s.len() && occurs_at(s, pat, s.len() - pat.len())
}

/// The characters of `s` that satisfy `p`, in order.
pub open spec fn keep(s: Seq<char>, p: spec_fn(char) -> bool) -> Seq<char>
    decreases s.len(),
{
    if s.len() == 0 {
        Seq::empty()
    } else if p(s.last()) {
        keep(s.drop_last(), p).push(s.last())
    } else {
        keep(s.drop_last(), p)
    }
}

/// The first `n` characters of `s`, or all of them when there are fewer.
pub open spec fn prefix_upto(s: Seq<char>, n: nat) -> Seq<char> {
    if s.len() <= n {
        s
    } else {
        s.take(n as int)
    }
}

pub open spec fn trim_start(s: Seq<char>) -> Seq<char>
    decreases s.len(),
{
    if s.len() > 0 && is_ws(s[0]) {
        trim_start(s.drop_first())
    } else {
        s
    }
}

pub open spec fn trim_end(s: Seq<char>) -> Seq<char>
    decreases s.len(),
{
    if s.len() > 0 && is_ws(s.last()) {
        trim_end(s.drop_last())
    } else {
        s
    }
}

/// What `str::trim` gives back.
pub open spec fn trim(s: Seq<char>) -> Seq<char> {
    trim_end(trim_start(s))
}

/// Replaces every leftmost, non-overlapping occurrence of `pat` by `rep`,
/// as `str::replace` does.
pub open spec fn replace_all(s: Seq<char>, pat: Seq<char>, rep: Seq<char>) -> Seq<char>
    recommends
        pat.len() > 0,
    decreases s.len(),
{
    if s.len() == 0 || pat.len() == 0 {
        s
    } else if starts_with(s, pat) {
        rep + replace_all(s.skip(pat.len() as int), pat, rep)
    } else {
        seq![s[0]] + replace_all(s.drop_first(), pat, rep)
    }
}

/// Replaces every occurrence of the character `c` by `rep`.
pub open spec fn replace_char(s: Seq<char>, c: char, rep: Seq<char>) -> Seq<char>
    decreases s.len(),
{
    if s.len() == 0 {
        Seq::empty()
    } else if s.last() == c {
        replace_char(s.drop_last(), c, rep) + rep
    } else {
        replace_char(s.drop_last(), c, rep).push(s.last())
    }
}

/// Length in bytes of the UTF-8 encoding, what `str::len` reports.
pub open spec fn byte_len(s: Seq<char>) -> nat {
    vstd::utf8::encode_utf8(s).len()
}

/// Every character is ASCII.
pub open spec fn ascii_only(s: Seq<char>) -> bool {
    vstd::utf8::is_ascii_chars(s)
}

// ───────────────────────── lemmas ─────────────────────────

/// An ASCII string takes one byte per character.
pub proof fn lemma_ascii_byte_len(s: Seq<char>)
    requires
        ascii_only(s),
    ensures
        byte_len(s) == s.len(),
{
    vstd::utf8::is_ascii_chars_encode_utf8(s);
}

pub proof fn lemma_keep_all(s: Seq<char>, p: spec_fn(char) -> bool)
    ensures
        all_chars(keep(s, p), p),
        keep(s, p).len() <= s.len(),
    decreases s.len(),
{
    if s.len() > 0 {
        lemma_keep_all(s.drop_last(), p);
    }
}

pub proof fn lemma_trim_start_ws(s: Seq<char>)
    ensures
        trim_start(s).len() > 0 ==> !is_ws(trim_start(s)[0]),
        exists|k: int| 0 <= k <= s.len() && trim_start(s) == s.skip(k),
    decreases s.len(),
{
    if s.len() > 0 && is_ws(s[0]) {
        lemma_trim_start_ws(s.drop_first());
        let k = choose|k: int| 0 <= k <= s.drop_first().len() && trim_start(s.drop_first()) == s.drop_first().skip(k);
        assert(s.drop_first().skip(k) =~= s.skip(k + 1));
    } else {
        assert(s.skip(0) =~= s);
    }
}

pub proof fn lemma_trim_end_ws(s: Seq<char>)
    ensures
        exists|k: int| 0 <= k <= s.len() && trim_end(s) == s.take(k),
    decreases s.len(),
{
    if s.len() > 0 && is_ws(s.last()) {
        lemma_trim_end_ws(s.drop_last());
        let k = choose|k: int| 0 <= k <= s.drop_last().len() && trim_end(s.drop_last()) == s.drop_last().take(k);
        assert(s.drop_last().take(k) =~= s.take(k));
    } else {
        assert(s.take(s.len() as int) =~= s);
    }
}

/// After trimming the end, the last character (if any) is not whitespace.
pub proof fn lemma_trim_end_last(s: Seq<char>)
    ensures
        trim_end(s).len() > 0 ==> !is_ws(trim_end(s).last()),
    decreases s.len(),
{
    if s.len() > 0 && is_ws(s.last()) {
        lemma_trim_end_last(s.drop_last());
    }
}

/// Trimming twice is trimming once.
pub proof fn lemma_trim_idem(s: Seq<char>)
    ensures
        trim(trim(s)) == trim(s),
{
    let a = trim_start(s);
    lemma_trim_start_ws(s);
    lemma_trim_end_ws(a);
    lemma_trim_end_last(a);
    let t = trim_end(a);
    let k = choose|k: int| 0 <= k <= a.len() && trim_end(a) == a.take(k);
    if t.len() > 0 {
        assert(t[0] == a[0]);
    }
    assert(trim_start(t) == t);
}

/// A text that occurs in the last part of `s` occurs in `s`.
pub proof fn lemma_has_sub_in_suffix(s: Seq<char>, l: Seq<char>, t: Seq<char>)
    requires
        l.len() <= s.len(),
        s.subrange(s.len() - l.len(), s.len() as int) == l,
        has_sub(l, t),
    ensures
        has_sub(s, t),
{
    let i = choose|i: int| occurs_at(l, t, i);
    let o = s.len() - l.len();
    assert(s.subrange(o + i, o + i + t.len()) =~= l.subrange(i, i + t.len()));
    assert(occurs_at(s, t, o + i));
}

/// A text that occurs in the first part of `s` occurs in `s`.
pub proof fn lemma_has_sub_in_prefix(s: Seq<char>, l: Seq<char>, t: Seq<char>)
    requires
        l.len() <= s.len(),
        s.subrange(0, l.len() as int) == l,
        has_sub(l, t),
    ensures
        has_sub(s, t),
{
    let i = choose|i: int| occurs_at(l, t, i);
    assert(s.subrange(i, i + t.len()) =~= l.subrange(i, i + t.len()));
    assert(occurs_at(s, t, i));
}

/// Trimming only removes characters.
pub proof fn lemma_trim_sub(s: Seq<char>)
    ensures
        forall|c: char| #[trigger] trim(s).contains(c) ==> s.contains(c),
{
    lemma_trim_start_ws(s);
    let k = choose|k: int| 0 <= k <= s.len() && trim_start(s) == s.skip(k);
    lemma_trim_end_ws(trim_start(s));
    let m = choose|m: int| 0 <= m <= trim_start(s).len() && trim_end(trim_start(s)) == trim_start(s).take(m);
    assert forall|c: char| #[trigger] trim(s).contains(c) implies s.contains(c) by {
        let i = choose|i: int| 0 <= i < trim(s).len() && trim(s)[i] == c;
        assert(trim(s)[i] == s[k + i]);
    }
}

// ───────────────────────── conversions ─────────────────────────

/// Copies the characters of `s` into a vector.
pub fn chars_of(s: &str) -> (v: Vec<char>)
    ensures
        v@ == s@,
{
    let mut v: Vec<char> = Vec::new();
    for c in it: s.chars()
        invariant
            v@ == it.seq().take(it.index() as int),
            it.seq() == s@,
    {
        v.push(c);
    }
    v
}

/// Appends one character (`String::push`).
#[verifier::external_body]
pub(crate) fn push_char(s: &mut String, c: char)
    ensures
        final(s)@ == old(s)@.push(c),
{
    s.push(c);
}

/// Appends a string slice.
pub(crate) fn push_str(s: &mut String, t: &str)
    ensures
        final(s)@ == old(s)@ + t@,
{
    s.append(t);
}

/// Builds a `String` from characters.
pub fn string_of(v: &Vec<char>) -> (s: String)
    ensures
        s@ == v@,
{
    let mut s = String::new();
    let mut i: usize = 0;
    while i < v.len()
        invariant
            i <= v.len(),
            s@ == v@.take(i as int),
        decreases v.len() - i,
    {
        push_char(&mut s, v[i]);
        assert(v@.take(i + 1) =~= v@.take(i as int).push(v@[i as int]));
        i += 1;
    }
    assert(v@.take(v.len() as int) =~= v@);
    s
}

/// Builds a `String` from the characters `v[lo..hi]`.
pub fn string_of_range(v: &Vec<char>, lo: usize, hi: usize) -> (s: String)
    requires
        lo <= hi <= v.len(),
    ensures
        s@ == v@.subrange(lo as int, hi as int),
{
    let mut s = String::new();
    let mut i: usize = lo;
    while i < hi
        invariant
            lo <= i <= hi <= v.len(),
            s@ == v@.subrange(lo as int, i as int),
        decreases hi - i,
    {
        push_char(&mut s, v[i]);
        assert(v@.subrange(lo as int, i + 1) =~= v@.subrange(lo as int, i as int).push(
            v@[i as int],
        ));
        i += 1;
    }
    s
}

/// Copies a string slice into an owned `String`.
pub fn owned(t: &str) -> (s: String)
    ensures
        s@ == t@,
{
    let mut s = String::new();
    push_str(&mut s, t);
    assert(s@ =~= t@);
    s
}

// ───────────────────────── searching ─────────────────────────

/// Whether `pat` occurs in `s` at position `i`.
pub fn matches_at(s: &Vec<char>, i: usize, pat: &Vec<char>) -> (r: bool)
    ensures
        r == occurs_at(s@, pat@, i as int),
{
    if i > s.len() || pat.len() > s.len() - i {
        return false;
    }
    let mut j: usize = 0;
    while j < pat.len()
        invariant
            i + pat.len() <= s.len(),
            j <= pat.len(),
            forall|k: int| 0 <= k < j ==> s@[i + k] == pat@[k],
        decreases pat.len() - j,
    {
        if s[i + j] != pat[j] {
            assert(s@.subrange(i as int, i + pat.len())[j as int] != pat@[j as int]);
            return false;
        }
        j += 1;
    }
    assert(s@.subrange(i as int, i + pat.len()) =~= pat@);
    true
}

/// Whether `pat` occurs anywhere in `s`.
pub fn contains_seq(s: &Vec<char>, pat: &Vec<char>) -> (r: bool)
    ensures
        r == has_sub(s@, pat@),
{
    let mut i: usize = 0;
    loop
        invariant
            i <= s.len(),
            forall|k: int| 0 <= k < i ==> !occurs_at(s@, pat@, k),
        decreases s.len() - i,
    {
        if matches_at(s, i, pat) {
            return true;
        }
        if i == s.len() {
            assert forall|k: int| !occurs_at(s@, pat@, k) by {
                if 0 <= k < i {
                }
            }
            return false;
        }
        i += 1;
    }
}

/// Whether the character `c` occurs in `s`.
pub fn contains_char(s: &Vec<char>, c: char) -> (r: bool)
    ensures
        r == s@.contains(c),
{
    let mut i: usize = 0;
    while i < s.len()
        invariant
            i <= s.len(),
            forall|k: int| 0 <= k < i ==> s@[k] != c,
        decreases s.len() - i,
    {
        if s[i] == c {
            return true;
        }
        i += 1;
    }
    false
}

/// Whether two strings are equal.
pub fn str_eq(a: &str, b: &str) -> (r: bool)
    ensures
        r == (a@ == b@),
{
    let x = chars_of(a);
    let y = chars_of(b);
    if x.len() != y.len() {
        return false;
    }
    let mut i: usize = 0;
    while i < x.len()
        invariant
            x.len() == y.len(),
            x@ == a@,
            y@ == b@,
            i <= x.len(),
            forall|k: int| 0 <= k < i ==> x@[k] == y@[k],
        decreases x.len() - i,
    {
        if x[i] != y[i] {
            assert(a@[i as int] != b@[i as int]);
            return false;
        }
        i += 1;
    }
    assert(x@ =~= y@);
    true
}

/// Index of the first character after leading whitespace.
pub fn trim_start_index(s: &Vec<char>) -> (i: usize)
    ensures
        i <= s.len(),
        trim_start(s@) == s@.skip(i as int),
{
    let mut i: usize = 0;
    assert(s@.skip(0) =~= s@);
    while i < s.len() && whitespace(s[i])
        invariant
            i <= s.len(),
            trim_start(s@) == trim_start(s@.skip(i as int)),
        decreases s.len() - i,
    {
        assert(s@.skip(i as int).drop_first() =~= s@.skip(i + 1));
        i += 1;
    }
    assert(trim_start(s@.skip(i as int)) == s@.skip(i as int));
    i
}

/// Index just past the last non-whitespace character of `s[lo..]`.
pub fn trim_end_index(s: &Vec<char>, lo: usize) -> (j: usize)
    requires
        lo <= s.len(),
    ensures
        lo <= j <= s.len(),
        trim_end(s@.subrange(lo as int, s.len() as int)) == s@.subrange(lo as int, j as int),
{
    let mut j: usize = s.len();
    while j > lo && whitespace(s[j - 1])
        invariant
            lo <= j <= s.len(),
            trim_end(s@.subrange(lo as int, s.len() as int)) == trim_end(
                s@.subrange(lo as int, j as int),
            ),
        decreases j,
    {
        assert(s@.subrange(lo as int, j as int).drop_last() =~= s@.subrange(lo as int, j - 1));
        j -= 1;
    }
    j
}

/// `str::trim` on a character vector.
pub fn trim_vec(s: &Vec<char>) -> (r: String)
    ensures
        r@ == trim(s@),
{
    let i = trim_start_index(s);
    let j = trim_end_index(s, i);
    assert(s@.skip(i as int) =~= s@.subrange(i as int, s.len() as int));
    string_of_range(s, i, j)
}

/// `str::len`: the length in bytes of the UTF-8 encoding, which fits in a
/// `usize` since the string is held in memory.
#[verifier::external_body]
pub(crate) fn byte_length(s: &str) -> (n: usize)
    ensures
        n == byte_len(s@),
{
    s.len()
}

/// `str::trim`.
pub fn trim_str(s: &str) -> (r: String)
    ensures
        r@ == trim(s@),
{
    let v = chars_of(s);
    trim_vec(&v)
}

} // verus!
