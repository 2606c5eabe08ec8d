//! Text handling on sequences of `char`: the views that contracts speak of,
//! and verified loops that compute them.

use vstd::prelude::*;
use vstd::string::*;

verus! {

broadcast use vstd::string::group_string_axioms;

// ---------------------------------------------------------------------------
// Conversions between `str`/`String` and `Vec<char>`
// ---------------------------------------------------------------------------

/// The characters of `s`, in order.
pub fn to_chars(s: &str) -> (v: Vec<char>)
    ensures
        v@ == s@,
{
    let mut v: Vec<char> = Vec::new();
    for c in it: s.chars()
        invariant
            v@ == it.seq().take(it.index() as int),
            it.seq() == s@,
    {
        v.push(c);
    }
    v
}

/// Appends one character to a `String` (`String::push`).
#[verifier::external_body]
pub(crate) fn push_char(s: &mut String, c: char)
    ensures
        final(s)@ == old(s)@.push(c),
{
    s.push(c);
}

/// Appends every character of `v` to `s`.
pub fn push_chars(s: &mut String, v: &Vec<char>)
    ensures
        final(s)@ == old(s)@ + v@,
{
    let mut i: usize = 0;
    while i < v.len()
        invariant
            i <= v.len(),
            s@ == old(s)@ + v@.take(i as int),
        decreases v.len() - i,
    {
        push_char(s, v[i]);
        assert(v@.take(i + 1) =~= v@.take(i as int).push(v@[i as int]));
        i += 1;
    }
    assert(v@.take(v.len() as int) =~= v@);
}

/// A `String` holding exactly the characters of `v`.
pub fn from_chars(v: &Vec<char>) -> (s: String)
    ensures
        s@ == v@,
{
    let mut s = String::new();
    push_chars(&mut s, v);
    s
}

/// The characters `v[lo..hi]` as a new vector.
pub fn sub_chars(v: &Vec<char>, lo: usize, hi: usize) -> (r: Vec<char>)
    requires
        lo <= hi <= v.len(),
    ensures
        r@ == v@.subrange(lo as int, hi as int),
{
    let mut r: Vec<char> = Vec::new();
    let mut i: usize = lo;
    while i < hi
        invariant
            lo <= i <= hi <= v.len(),
            r@ == v@.subrange(lo as int, i as int),
        decreases hi - i,
    {
        r.push(v[i]);
        assert(v@.subrange(lo as int, i + 1) =~= v@.subrange(lo as int, i as int).push(v@[i as int]));
        i += 1;
    }
    r
}

// ---------------------------------------------------------------------------
// Character classes
// ---------------------------------------------------------------------------

/// The Unicode `White_Space` property, which `char::is_whitespace` decides.
pub open spec fn is_ws(c: char) -> bool {
    let n = c as u32;
    ||| 0x09 <= n <= 0x0D
    ||| n == 0x20
    ||| n == 0x85
    ||| n == 0xA0
    ||| n == 0x1680
    ||| 0x2000 <= n <= 0x200A
    ||| n == 0x2028
    ||| n == 0x2029
    ||| n == 0x202F
    ||| n == 0x205F
    ||| n == 0x3000
}

/// Whether `c` is white space in the sense of `char::is_whitespace`.
pub fn is_whitespace(c: char) -> (r: bool)
    ensures
        r == is_ws(c),
{
    let n = c as u32;
    (0x09 <= n && n <= 0x0D) || n == 0x20 || n == 0x85 || n == 0xA0 || n == 0x1680 || (0x2000
        <= n && n <= 0x200A) || n == 0x2028 || n == 0x2029 || n == 0x202F || n == 0x205F || n
        == 0x3000
}

/// A set of characters that a trimming or splitting operation skips over.
pub enum CharClass {
    Whitespace,
    Exactly(char),
}

/// The predicate of a character class.
pub open spec fn class_has(k: CharClass, c: char) -> bool {
    match k {
        CharClass::Whitespace => is_ws(c),
        CharClass::Exactly(x) => c == x,
    }
}

/// Whether `c` belongs to class `k`.
pub fn in_class(k: &CharClass, c: char) -> (r: bool)
    ensures
        r == class_has(*k, c),
{
    match k {
        CharClass::Whitespace => is_whitespace(c),
        CharClass::Exactly(x) => c == *x,
    }
}

// ---------------------------------------------------------------------------
// Leading and trailing runs, trimming
// ---------------------------------------------------------------------------

/// Number of leading characters of `s` in class `k`.
pub open spec fn lead(s: Seq<char>, k: CharClass) -> nat
    decreases s.len(),
{
    if s.len() > 0 && class_has(k, s[0]) {
        1 + lead(s.drop_first(), k)
    } else {
        0
    }
}

/// Number of trailing characters of `s` in class `k`.
pub open spec fn trail(s: Seq<char>, k: CharClass) -> nat
    decreases s.len(),
{
    if s.len() > 0 && class_has(k, s.last()) {
        1 + trail(s.drop_last(), k)
    } else {
        0
    }
}

/// `s` without its leading run of class `k` (`trim_start_matches`).
pub open spec fn trim_start_class(s: Seq<char>, k: CharClass) -> Seq<char> {
    s.skip(lead(s, k) as int)
}

/// `s` without its trailing run of class `k` (`trim_end_matches`).
pub open spec fn trim_end_class(s: Seq<char>, k: CharClass) -> Seq<char> {
    s.take(s.len() - trail(s, k))
}

/// `s` without leading and trailing characters of class `k` (`trim_matches`).
pub open spec fn trim_class(s: Seq<char>, k: CharClass) -> Seq<char> {
    trim_end_class(trim_start_class(s, k), k)
}

/// `s` without leading and trailing white space (`str::trim`).
pub open spec fn trim_ws(s: Seq<char>) -> Seq<char> {
    trim_class(s, CharClass::Whitespace)
}

/// Text whose last character is not white space keeps some text when trimmed.
pub proof fn lemma_trim_ws_nonempty(s: Seq<char>)
    requires
        s.len() > 0,
        !is_ws(s.last()),
    ensures
        trim_ws(s).len() > 0,
{
    let k = CharClass::Whitespace;
    lemma_lead_bound(s, k);
    if lead(s, k) == s.len() {
        assert(class_has(k, s[s.len() - 1]));
    }
    let t = trim_start_class(s, k);
    assert(t.len() > 0);
    assert(t.last() == s.last());
    assert(trail(t, k) == 0);
}

pub proof fn lemma_lead_bound(s: Seq<char>, k: CharClass)
    ensures
        lead(s, k) <= s.len(),
        forall|j: int| 0 <= j < lead(s, k) ==> class_has(k, #[trigger] s[j]),
        lead(s, k) < s.len() ==> !class_has(k, s[lead(s, k) as int]),
    decreases s.len(),
{
    if s.len() > 0 && class_has(k, s[0]) {
        lemma_lead_bound(s.drop_first(), k);
        assert forall|j: int| 0 <= j < lead(s, k) implies class_has(k, #[trigger] s[j]) by {
            if j > 0 {
                assert(s[j] == s.drop_first()[j - 1]);
            }
        }
    }
}

/// `lead` is determined by the first character outside the class.
pub proof fn lemma_lead_at(s: Seq<char>, k: CharClass, i: int)
    requires
        0 <= i <= s.len(),
        forall|j: int| 0 <= j < i ==> class_has(k, #[trigger] s[j]),
        i == s.len() || !class_has(k, s[i]),
    ensures
        lead(s, k) == i,
    decreases i,
{
    if i > 0 {
        assert(class_has(k, s[0]));
        assert forall|j: int| 0 <= j < i - 1 implies class_has(k, #[trigger] s.drop_first()[j]) by {
            assert(s.drop_first()[j] == s[j + 1]);
        }
        if i - 1 < s.len() - 1 {
            assert(s.drop_first()[i - 1] == s[i]);
        }
        lemma_lead_at(s.drop_first(), k, i - 1);
    }
}

/// `trail` is determined by the last character outside the class.
pub proof fn lemma_trail_at(s: Seq<char>, k: CharClass, i: int)
    requires
        0 <= i <= s.len(),
        forall|j: int| i <= j < s.len() ==> class_has(k, #[trigger] s[j]),
        i == 0 || !class_has(k, s[i - 1]),
    ensures
        trail(s, k) == s.len() - i,
    decreases s.len() - i,
{
    if i < s.len() {
        assert(class_has(k, s[s.len() - 1]));
        assert forall|j: int| i <= j < s.len() - 1 implies class_has(
            k,
            #[trigger] s.drop_last()[j],
        ) by {
            assert(s.drop_last()[j] == s[j]);
        }
        if i > 0 {
            assert(s.drop_last()[i - 1] == s[i - 1]);
        }
        lemma_trail_at(s.drop_last(), k, i);
    }
}

/// Index of the first character of `v[lo..]` outside class `k` (or `v.len()`).
fn skip_class_forward(v: &Vec<char>, lo: usize, k: &CharClass) -> (i: usize)
    requires
        lo <= v.len(),
    ensures
        lo <= i <= v.len(),
        i - lo == lead(v@.skip(lo as int), *k),
{
    let mut i = lo;
    while i < v.len() && in_class(k, v[i])
        invariant
            lo <= i <= v.len(),
            forall|j: int| lo <= j < i ==> class_has(*k, #[trigger] v@[j]),
        decreases v.len() - i,
    {
        i += 1;
    }
    proof {
        let s = v@.skip(lo as int);
        assert forall|j: int| 0 <= j < i - lo implies class_has(*k, #[trigger] s[j]) by {
            assert(s[j] == v@[lo + j]);
        }
        if i < v.len() {
            assert(s[i - lo] == v@[i as int]);
        }
        lemma_lead_at(s, *k, i - lo);
    }
    i
}

/// Index just past the last character of `v[lo..hi]` outside class `k` (or `lo`).
fn skip_class_backward(v: &Vec<char>, lo: usize, hi: usize, k: &CharClass) -> (j: usize)
    requires
        lo <= hi <= v.len(),
    ensures
        lo <= j <= hi,
        hi - j == trail(v@.subrange(lo as int, hi as int), *k),
{
    let mut j = hi;
    while j > lo && in_class(k, v[j - 1])
        invariant
            lo <= j <= hi <= v.len(),
            forall|m: int| j <= m < hi ==> class_has(*k, #[trigger] v@[m]),
        decreases j - lo,
    {
        j -= 1;
    }
    proof {
        let s = v@.subrange(lo as int, hi as int);
        assert forall|m: int| j - lo <= m < s.len() implies class_has(*k, #[trigger] s[m]) by {
            assert(s[m] == v@[lo + m]);
        }
        if j > lo {
            assert(s[j - lo - 1] == v@[j - 1]);
        }
        lemma_trail_at(s, *k, j - lo);
    }
    j
}

/// `v` without leading and trailing characters of class `k`.
pub fn trim_class_chars(v: &Vec<char>, k: &CharClass) -> (r: Vec<char>)
    ensures
        r@ == trim_class(v@, *k),
{
    let i = skip_class_forward(v, 0, k);
    let j = skip_class_backward(v, i, v.len(), k);
    assert(v@.skip(0) =~= v@);
    let r = sub_chars(v, i, j);
    proof {
        let t = trim_start_class(v@, *k);
        assert(t =~= v@.subrange(i as int, v.len() as int));
        assert(trim_end_class(t, *k) =~= v@.subrange(i as int, j as int));
    }
    r
}

/// `v` without its leading run of class `k`.
pub fn trim_start_class_chars(v: &Vec<char>, k: &CharClass) -> (r: Vec<char>)
    ensures
        r@ == trim_start_class(v@, *k),
{
    let i = skip_class_forward(v, 0, k);
    assert(v@.skip(0) =~= v@);
    let r = sub_chars(v, i, v.len());
    assert(r@ =~= trim_start_class(v@, *k));
    r
}

/// `s` without leading and trailing white space (`str::trim`).
pub fn trim(v: &Vec<char>) -> (r: Vec<char>)
    ensures
        r@ == trim_ws(v@),
{
    trim_class_chars(v, &CharClass::Whitespace)
}


// ---------------------------------------------------------------------------
// Prefixes and substrings
// ---------------------------------------------------------------------------

/// Whether `s` begins with `p`.
pub open spec fn has_prefix(s: Seq<char>, p: Seq<char>) -> bool {
    p.len() <= s.len() && s.take(p.len() as int) == p
}

/// Whether `s` holds `needle` as a contiguous part (`str::contains`).
pub open spec fn has_infix(s: Seq<char>, needle: Seq<char>) -> bool {
    exists|i: int| 0 <= i <= s.len() - needle.len() && #[trigger] s.subrange(i, i + needle.len()) == needle
}

/// Whether `v[at..]` begins with `p`.
fn matches_at(v: &Vec<char>, at: usize, p: &Vec<char>) -> (r: bool)
    requires
        at <= v.len(),
    ensures
        r == (p.len() <= v.len() - at && v@.subrange(at as int, at + p.len()) == p@),
{
    if p.len() > v.len() - at {
        return false;
    }
    let mut i: usize = 0;
    while i < p.len()
        invariant
            p.len() <= v.len() - at,
            i <= p.len(),
            forall|j: int| 0 <= j < i ==> v@[at + j] == p@[j],
        decreases p.len() - i,
    {
        if v[at + i] != p[i] {
            assert(v@.subrange(at as int, at + p.len())[i as int] != p@[i as int]);
            return false;
        }
        i += 1;
    }
    assert(v@.subrange(at as int, at + p.len()) =~= p@);
    true
}

/// Whether `v` begins with `p` (`str::starts_with`).
pub fn starts_with(v: &Vec<char>, p: &Vec<char>) -> (r: bool)
    ensures
        r == has_prefix(v@, p@),
{
    let r = matches_at(v, 0, p);
    assert(v@.take(p@.len() as int) =~= v@.subrange(0, p@.len() as int));
    r
}

/// `v` without the prefix `p`, if it begins with it (`str::strip_prefix`).
pub fn strip_prefix(v: &Vec<char>, p: &Vec<char>) -> (r: Option<Vec<char>>)
    ensures
        r is Some <==> has_prefix(v@, p@),
        r matches Some(rest) ==> rest@ == v@.skip(p@.len() as int),
{
    if starts_with(v, p) {
        let rest = sub_chars(v, p.len(), v.len());
        assert(rest@ =~= v@.skip(p@.len() as int));
        Some(rest)
    } else {
        None
    }
}

/// Whether `needle` occurs in `v` (`str::contains`).
pub fn contains(v: &Vec<char>, needle: &Vec<char>) -> (r: bool)
    ensures
        r == has_infix(v@, needle@),
{
    if needle.len() > v.len() {
        return false;
    }
    let limit = v.len() - needle.len();
    let mut i: usize = 0;
    loop
        invariant
            needle.len() <= v.len(),
            limit == v.len() - needle.len(),
            i <= limit,
            forall|j: int| 0 <= j < i ==> #[trigger] v@.subrange(j, j + needle.len()) != needle@,
        decreases limit - i,
    {
        if matches_at(v, i, needle) {
            return true;
        }
        if i == limit {
            return false;
        }
        i += 1;
    }
}

// ---------------------------------------------------------------------------
// Lines (`str::lines`)
// ---------------------------------------------------------------------------

/// Index of the first `c` in `s`, or `s.len()` when there is none.
pub open spec fn index_or_len(s: Seq<char>, c: char) -> nat
    decreases s.len(),
{
    if s.len() == 0 {
        0
    } else if s[0] == c {
        0
    } else {
        1 + index_or_len(s.drop_first(), c)
    }
}

pub proof fn lemma_index_or_len(s: Seq<char>, c: char, k: int)
    requires
        0 <= k <= s.len(),
        forall|j: int| 0 <= j < k ==> #[trigger] s[j] != c,
        k == s.len() || s[k] == c,
    ensures
        index_or_len(s, c) == k,
    decreases k,
{
    if k > 0 {
        assert(s[0] != c);
        assert forall|j: int| 0 <= j < k - 1 implies #[trigger] s.drop_first()[j] != c by {
            assert(s.drop_first()[j] == s[j + 1]);
        }
        if k < s.len() {
            assert(s.drop_first()[k - 1] == s[k]);
        }
        lemma_index_or_len(s.drop_first(), c, k - 1);
    }
}

pub proof fn lemma_index_or_len_bound(s: Seq<char>, c: char)
    ensures
        index_or_len(s, c) <= s.len(),
    decreases s.len(),
{
    if s.len() > 0 && s[0] != c {
        lemma_index_or_len_bound(s.drop_first(), c);
    }
}

/// A line that ended in a newline loses one carriage return before it.
pub open spec fn strip_cr(l: Seq<char>) -> Seq<char> {
    if l.len() > 0 && l.last() == '\r' {
        l.drop_last()
    } else {
        l
    }
}

/// The lines of `s`, as `str::lines` splits them: at `\n` or `\r\n`, with no
/// empty line after a final line ending.
pub open spec fn lines_of(s: Seq<char>) -> Seq<Seq<char>>
    decreases s.len(),
{
    if s.len() == 0 {
        seq![]
    } else {
        let k = index_or_len(s, '\n');
        if k >= s.len() {
            seq![s]
        } else {
            seq![strip_cr(s.take(k as int))] + lines_of(s.skip(k as int + 1))
        }
    }
}

/// The views of a sequence of character vectors.
pub open spec fn views(v: Seq<Vec<char>>) -> Seq<Seq<char>> {
    v.map_values(|l: Vec<char>| l@)
}

/// Removes one trailing `\r`, if any.
fn strip_cr_chars(v: Vec<char>) -> (r: Vec<char>)
    ensures
        r@ == strip_cr(v@),
{
    let mut v = v;
    if v.len() > 0 && v[v.len() - 1] == '\r' {
        v.pop();
    }
    v
}

/// The lines of `v` (`str::lines`).
pub fn lines(v: &Vec<char>) -> (r: Vec<Vec<char>>)
    ensures
        views(r@) == lines_of(v@),
{
    let mut out: Vec<Vec<char>> = Vec::new();
    let mut pos: usize = 0;
    assert(v@.skip(0) =~= v@);
    assert(views(out@) + lines_of(v@) =~= lines_of(v@));
    while pos < v.len()
        invariant
            pos <= v.len(),
            lines_of(v@) == views(out@) + lines_of(v@.skip(pos as int)),
        decreases v.len() - pos,
    {
        let ghost rest = v@.skip(pos as int);
        let mut j = pos;
        while j < v.len() && v[j] != '\n'
            invariant
                pos <= j <= v.len(),
                forall|m: int| pos <= m < j ==> v@[m] != '\n',
            decreases v.len() - j,
        {
            j += 1;
        }
        proof {
            assert forall|m: int| 0 <= m < j - pos implies #[trigger] rest[m] != '\n' by {
                assert(rest[m] == v@[pos + m]);
            }
            if j < v.len() {
                assert(rest[j - pos] == v@[j as int]);
            }
            lemma_index_or_len(rest, '\n', j - pos);
        }
        let line = sub_chars(v, pos, j);
        if j < v.len() {
            let line = strip_cr_chars(line);
            proof {
                assert(rest.take(j - pos) =~= v@.subrange(pos as int, j as int));
                assert(rest.skip(j - pos + 1) =~= v@.skip(j + 1));
                assert(views(out@.push(line)) =~= views(out@).push(line@));
            }
            out.push(line);
            pos = j + 1;
        } else {
            proof {
                assert(rest =~= v@.subrange(pos as int, j as int));
                assert(views(out@.push(line)) =~= views(out@).push(line@));
                assert(v@.skip(j as int) =~= Seq::<char>::empty());
            }
            out.push(line);
            pos = j;
        }
    }
    proof {
        assert(v@.skip(pos as int) =~= Seq::<char>::empty());
        assert(views(out@) + seq![] =~= views(out@));
    }
    out
}

// ---------------------------------------------------------------------------
// Whitespace-separated tokens (`str::split_whitespace`)
// ---------------------------------------------------------------------------

/// The maximal runs of non-white-space characters of `s`, in order.
pub open spec fn tokens_of(s: Seq<char>) -> Seq<Seq<char>>
    decreases s.len(),
{
    let a = lead(s, CharClass::Whitespace);
    if a >= s.len() {
        seq![]
    } else {
        let t = s.skip(a as int);
        let k = word_len(t);
        if 0 < k <= t.len() {
            seq![t.take(k as int)] + tokens_of(t.skip(k as int))
        } else {
            seq![]
        }
    }
}

/// Number of leading characters of `s` that are not white space.
pub open spec fn word_len(s: Seq<char>) -> nat
    decreases s.len(),
{
    if s.len() > 0 && !is_ws(s[0]) {
        1 + word_len(s.drop_first())
    } else {
        0
    }
}

pub proof fn lemma_word_len_at(s: Seq<char>, i: int)
    requires
        0 <= i <= s.len(),
        forall|j: int| 0 <= j < i ==> !is_ws(#[trigger] s[j]),
        i == s.len() || is_ws(s[i]),
    ensures
        word_len(s) == i,
    decreases i,
{
    if i > 0 {
        assert(!is_ws(s[0]));
        assert forall|j: int| 0 <= j < i - 1 implies !is_ws(#[trigger] s.drop_first()[j]) by {
            assert(s.drop_first()[j] == s[j + 1]);
        }
        if i < s.len() {
            assert(s.drop_first()[i - 1] == s[i]);
        }
        lemma_word_len_at(s.drop_first(), i - 1);
    }
}

/// The whitespace-separated tokens of `v` (`str::split_whitespace`).
pub fn split_whitespace(v: &Vec<char>) -> (r: Vec<Vec<char>>)
    ensures
        views(r@) == tokens_of(v@),
{
    let mut out: Vec<Vec<char>> = Vec::new();
    let mut pos: usize = 0;
    assert(v@.skip(0) =~= v@);
    assert(views(out@) + tokens_of(v@) =~= tokens_of(v@));
    while pos < v.len()
        invariant
            pos <= v.len(),
            tokens_of(v@) == views(out@) + tokens_of(v@.skip(pos as int)),
        decreases v.len() - pos,
    {
        let ghost rest = v@.skip(pos as int);
        let start = skip_class_forward(v, pos, &CharClass::Whitespace);
        assert(rest.len() == v.len() - pos);
        if start == v.len() {
            proof {
                assert(tokens_of(rest) =~= Seq::<Seq<char>>::empty());
                assert(v@.skip(v.len() as int) =~= Seq::<char>::empty());
            }
            pos = start;
        } else {
            let mut j = start;
            while j < v.len() && !is_whitespace(v[j])
                invariant
                    start <= j <= v.len(),
                    forall|m: int| start <= m < j ==> !is_ws(#[trigger] v@[m]),
                decreases v.len() - j,
            {
                j += 1;
            }
            proof {
                lemma_lead_bound(rest, CharClass::Whitespace);
                assert(rest[start - pos] == v@[start as int]);
                assert(!class_has(CharClass::Whitespace, rest[start - pos]));
                assert(!is_ws(v@[start as int]));
                let t = rest.skip(start - pos);
                assert(t =~= v@.skip(start as int));
                assert forall|m: int| 0 <= m < j - start implies !is_ws(#[trigger] t[m]) by {
                    assert(t[m] == v@[start + m]);
                }
                if j < v.len() {
                    assert(t[j - start] == v@[j as int]);
                }
                lemma_word_len_at(t, j - start);
                assert(t.take(j - start) =~= v@.subrange(start as int, j as int));
                assert(t.skip(j - start) =~= v@.skip(j as int));
            }
            let word = sub_chars(v, start, j);
            proof {
                assert(views(out@.push(word)) =~= views(out@).push(word@));
            }
            out.push(word);
            pos = j;
        }
    }
    proof {
        assert(v@.skip(pos as int) =~= Seq::<char>::empty());
        assert(views(out@) + seq![] =~= views(out@));
    }
    out
}


// ---------------------------------------------------------------------------
// Decimal numbers
// ---------------------------------------------------------------------------

/// Whether `c` is one of the ASCII digits `0`..`9`.
pub open spec fn is_digit(c: char) -> bool {
    '0' <= c && c <= '9'
}

/// The value of an ASCII digit.
pub open spec fn digit_value(c: char) -> nat {
    (c as u32 - '0' as u32) as nat
}

/// The ASCII digit for `d < 10`.
pub open spec fn digit_char(d: nat) -> char {
    (d + '0' as u32) as char
}

/// The value of a sequence of decimal digits (leading zeros allowed).
pub open spec fn digits_value(s: Seq<char>) -> nat
    decreases s.len(),
{
    if s.len() == 0 {
        0
    } else {
        digits_value(s.drop_last()) * 10 + digit_value(s.last())
    }
}

/// What `u16::from_str` gives: an optional `+`, then one or more ASCII digits
/// whose value is at most 65535.
pub open spec fn parse_u16_spec(s: Seq<char>) -> Option<u16> {
    let d = if s.len() > 0 && s[0] == '+' {
        s.drop_first()
    } else {
        s
    };
    if d.len() > 0 && all_digits(d) && digits_value(d) <= 65535 {
        Some(digits_value(d) as u16)
    } else {
        None
    }
}

/// Whether every character of `d` is an ASCII digit.
pub open spec fn all_digits(d: Seq<char>) -> bool {
    forall|i: int| 0 <= i < d.len() ==> is_digit(#[trigger] d[i])
}

/// The decimal representation of `n`, without leading zeros.
pub open spec fn decimal(n: nat) -> Seq<char>
    decreases n,
{
    if n < 10 {
        seq![digit_char(n)]
    } else {
        decimal(n / 10).push(digit_char(n % 10))
    }
}

pub proof fn lemma_digits_value_monotone(s: Seq<char>, i: int)
    requires
        0 <= i <= s.len(),
        forall|j: int| 0 <= j < s.len() ==> is_digit(#[trigger] s[j]),
    ensures
        digits_value(s.take(i)) <= digits_value(s),
    decreases s.len() - i,
{
    if i < s.len() {
        assert(s.drop_last().take(i) =~= s.take(i));
        assert forall|j: int| 0 <= j < s.drop_last().len() implies is_digit(#[trigger] s.drop_last()[j]) by {
            assert(s.drop_last()[j] == s[j]);
        }
        lemma_digits_value_monotone(s.drop_last(), i);
    } else {
        assert(s.take(i) =~= s);
    }
}

/// Parses a decimal `u16` the way `str::parse::<u16>` does.
pub fn parse_u16(v: &Vec<char>) -> (r: Option<u16>)
    ensures
        r == parse_u16_spec(v@),
{
    let start: usize = if v.len() > 0 && v[0] == '+' { 1 } else { 0 };
    let ghost d = if v@.len() > 0 && v@[0] == '+' { v@.drop_first() } else { v@ };
    assert(d =~= v@.skip(start as int));
    if start >= v.len() {
        return None;
    }
    let mut value: u32 = 0;
    let mut i = start;
    while i < v.len()
        invariant
            start < v.len(),
            start <= i <= v.len(),
            d =~= v@.skip(start as int),
            d == (if v@.len() > 0 && v@[0] == '+' { v@.drop_first() } else { v@ }),
            forall|j: int| start <= j < i ==> is_digit(#[trigger] v@[j]),
            value == digits_value(v@.subrange(start as int, i as int)),
            value <= 65535,
        decreases v.len() - i,
    {
        let c = v[i];
        if !('0' <= c && c <= '9') {
            assert(d[i - start] == v@[i as int]);
            assert(!is_digit(c));
            assert(!all_digits(d));
            assert(parse_u16_spec(v@) is None);
            return None;
        }
        let dv = (c as u32) - ('0' as u32);
        proof {
            let p = v@.subrange(start as int, i + 1);
            assert(p.drop_last() =~= v@.subrange(start as int, i as int));
            assert(p.last() == c);
        }
        let next = value * 10 + dv;
        if next > 65535 {
            proof {
                if all_digits(d) {
                    lemma_digits_value_monotone(d, i + 1 - start);
                    assert(d.take(i + 1 - start) =~= v@.subrange(start as int, i + 1));
                    assert(digits_value(d) > 65535);
                }
            }
            assert(parse_u16_spec(v@) is None);
            return None;
        }
        value = next;
        i += 1;
    }
    proof {
        assert(v@.subrange(start as int, v.len() as int) =~= d);
        assert forall|j: int| 0 <= j < d.len() implies is_digit(#[trigger] d[j]) by {
            assert(d[j] == v@[start + j]);
        }
    }
    Some(value as u16)
}

/// The decimal digits of `n`.
pub fn decimal_chars(n: u64) -> (r: Vec<char>)
    ensures
        r@ == decimal(n as nat),
    decreases n,
{
    let d = ((n % 10) as u32 + ('0' as u32)) as u8 as char;
    assert(d == digit_char((n % 10) as nat)) by {
        assert(((n % 10) as u32 + ('0' as u32)) < 128);
    }
    if n < 10 {
        let mut r: Vec<char> = Vec::new();
        r.push(d);
        assert(r@ =~= seq![digit_char(n as nat)]);
        r
    } else {
        let mut r = decimal_chars(n / 10);
        r.push(d);
        r
    }
}

/// Appends the decimal digits of `n` to `s` (what `{}` formatting writes).
pub fn push_decimal(s: &mut String, n: u64)
    ensures
        final(s)@ == old(s)@ + decimal(n as nat),
{
    let d = decimal_chars(n);
    push_chars(s, &d);
}

// ---------------------------------------------------------------------------
// Replacing characters
// ---------------------------------------------------------------------------

/// `s` with every `c` replaced by `with` (`str::replace` with a `char` pattern).
pub open spec fn replace_char(s: Seq<char>, c: char, with: Seq<char>) -> Seq<char>
    decreases s.len(),
{
    if s.len() == 0 {
        seq![]
    } else {
        replace_char(s.drop_last(), c, with) + (if s.last() == c {
            with
        } else {
            seq![s.last()]
        })
    }
}

/// Replacing distributes over concatenation.
pub proof fn lemma_replace_char_add(x: Seq<char>, y: Seq<char>, c: char, with: Seq<char>)
    ensures
        replace_char(x + y, c, with) == replace_char(x, c, with) + replace_char(y, c, with),
    decreases y.len(),
{
    if y.len() == 0 {
        assert(x + y =~= x);
        assert(replace_char(y, c, with) =~= seq![]);
        assert(replace_char(x, c, with) + replace_char(y, c, with) =~= replace_char(x, c, with));
    } else {
        assert((x + y).drop_last() =~= x + y.drop_last());
        assert((x + y).last() == y.last());
        lemma_replace_char_add(x, y.drop_last(), c, with);
        assert(replace_char(x + y, c, with) =~= replace_char(x, c, with) + replace_char(y, c, with));
    }
}

/// Replacing a character that does not occur changes nothing.
pub proof fn lemma_replace_char_absent(x: Seq<char>, c: char, with: Seq<char>)
    requires
        forall|i: int| 0 <= i < x.len() ==> #[trigger] x[i] != c,
    ensures
        replace_char(x, c, with) == x,
    decreases x.len(),
{
    if x.len() > 0 {
        assert forall|i: int| 0 <= i < x.drop_last().len() implies #[trigger] x.drop_last()[i] != c by {
            assert(x.drop_last()[i] == x[i]);
        }
        lemma_replace_char_absent(x.drop_last(), c, with);
        assert(x[x.len() - 1] != c);
        assert(replace_char(x, c, with) =~= x);
    }
}

/// Appends `v` with every `c` replaced by `with` to `out`.
pub fn push_replacing(out: &mut String, v: &Vec<char>, c: char, with: &str)
    ensures
        final(out)@ == old(out)@ + replace_char(v@, c, with@),
{
    let mut i: usize = 0;
    while i < v.len()
        invariant
            i <= v.len(),
            out@ == old(out)@ + replace_char(v@.take(i as int), c, with@),
        decreases v.len() - i,
    {
        let ghost before = out@;
        assert(v@.take(i + 1).drop_last() =~= v@.take(i as int));
        if v[i] == c {
            out.append(with);
        } else {
            push_char(out, v[i]);
        }
        assert(out@ =~= old(out)@ + replace_char(v@.take(i + 1), c, with@));
        i += 1;
    }
    assert(v@.take(v.len() as int) =~= v@);
}

// ---------------------------------------------------------------------------
// ASCII case-insensitive comparison
// ---------------------------------------------------------------------------

/// The code of `c` after mapping ASCII upper case to lower case.
pub open spec fn ascii_lower(c: char) -> int {
    if 'A' <= c && c <= 'Z' {
        c as u32 + 32
    } else {
        c as u32 as int
    }
}

/// Whether `a` and `b` are equal up to ASCII case (`str::eq_ignore_ascii_case`).
pub open spec fn eq_ascii_ci(a: Seq<char>, b: Seq<char>) -> bool {
    a.len() == b.len() && forall|i: int| 0 <= i < a.len() ==> #[trigger] ascii_lower(a[i]) == ascii_lower(b[i])
}

fn lower_code(c: char) -> (r: u32)
    ensures
        r as int == ascii_lower(c),
{
    if 'A' <= c && c <= 'Z' {
        c as u32 + 32
    } else {
        c as u32
    }
}

/// Whether `a` and `b` are equal up to ASCII case.
pub fn eq_ignore_ascii_case(a: &Vec<char>, b: &Vec<char>) -> (r: bool)
    ensures
        r == eq_ascii_ci(a@, b@),
{
    if a.len() != b.len() {
        return false;
    }
    let mut i: usize = 0;
    while i < a.len()
        invariant
            a.len() == b.len(),
            i <= a.len(),
            forall|j: int| 0 <= j < i ==> #[trigger] ascii_lower(a@[j]) == ascii_lower(b@[j]),
        decreases a.len() - i,
    {
        if lower_code(a[i]) != lower_code(b[i]) {
            return false;
        }
        i += 1;
    }
    true
}

// ---------------------------------------------------------------------------
// Joining
// ---------------------------------------------------------------------------

/// The elements of `parts` with `sep` between each two (`[String]::join`).
pub open spec fn join(parts: Seq<Seq<char>>, sep: Seq<char>) -> Seq<char>
    decreases parts.len(),
{
    if parts.len() == 0 {
        seq![]
    } else if parts.len() == 1 {
        parts[0]
    } else {
        join(parts.drop_last(), sep) + sep + parts.last()
    }
}

/// The views of a sequence of strings.
pub open spec fn string_views(v: Seq<String>) -> Seq<Seq<char>> {
    v.map_values(|s: String| s@)
}

/// The elements of `parts` joined by `sep`.
pub fn join_strings(parts: &Vec<String>, sep: &str) -> (r: String)
    ensures
        r@ == join(string_views(parts@), sep@),
{
    let mut r = String::new();
    let mut i: usize = 0;
    while i < parts.len()
        invariant
            i <= parts.len(),
            r@ == join(string_views(parts@).take(i as int), sep@),
        decreases parts.len() - i,
    {
        let ghost prefix = string_views(parts@).take(i + 1);
        assert(prefix.drop_last() =~= string_views(parts@).take(i as int));
        if i > 0 {
            r.append(sep);
        }
        r.append(parts[i].as_str());
        if i == 0 {
            assert(r@ =~= prefix[0]);
        }
        i += 1;
    }
    assert(string_views(parts@).take(parts.len() as int) =~= string_views(parts@));
    r
}

/// The views of a sequence of string pairs.
pub open spec fn pair_views(v: Seq<(String, String)>) -> Seq<(Seq<char>, Seq<char>)> {
    v.map_values(|p: (String, String)| (p.0@, p.1@))
}

/// Appends a labelled value to a list of pairs.
pub fn push_pair(v: &mut Vec<(String, String)>, key: &str, value: String)
    ensures
        pair_views(final(v)@) == pair_views(old(v)@).push((key@, value@)),
{
    let k = key.to_string();
    v.push((k, value));
    assert(pair_views(v@) =~= pair_views(old(v)@).push((key@, value@)));
}

} // verus!
