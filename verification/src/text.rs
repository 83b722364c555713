//! Character-level text model shared by the log parsers.
//!
//! Strings are viewed as `Seq<char>`. The spec functions below state what the
//! usual `str` operations (trim, find, split, lines, decimal parse) return;
//! the executable helpers compute them on `Vec<char>` buffers and prove it.

use vstd::prelude::*;

verus! {

broadcast use vstd::string::group_string_axioms;

// ---------------------------------------------------------------------------
// Character classes
// ---------------------------------------------------------------------------

/// Unicode `White_Space`, as used by `char::is_whitespace`, `str::trim`
/// and `str::split_whitespace`.
pub open spec fn is_ws(c: char) -> bool {
    let u = c as u32;
    ||| 9 <= u <= 13
    ||| u == 32
    ||| u == 0x85
    ||| u == 0xA0
    ||| u == 0x1680
    ||| 0x2000 <= u <= 0x200A
    ||| u == 0x2028
    ||| u == 0x2029
    ||| u == 0x202F
    ||| u == 0x205F
    ||| u == 0x3000
}

/// `u8::is_ascii_whitespace` on an ASCII character.
pub open spec fn is_ascii_ws(c: char) -> bool {
    c == ' ' || c == '\t' || c == '\n' || c == '\x0C' || c == '\r'
}

pub open spec fn is_digit(c: char) -> bool {
    48 <= (c as u32) <= 57
}

pub open spec fn is_ascii(c: char) -> bool {
    (c as u32) < 128
}

pub open spec fn all_ascii(s: Seq<char>) -> bool {
    forall|i: int| 0 <= i < s.len() ==> is_ascii(#[trigger] s[i])
}

pub open spec fn is_ascii_alnum(c: char) -> bool {
    let u = c as u32;
    (48 <= u <= 57) || (65 <= u <= 90) || (97 <= u <= 122)
}

pub open spec fn ascii_lower(c: char) -> char {
    if 65 <= (c as u32) <= 90 {
        ((c as u32) + 32) as char
    } else {
        c
    }
}

/// `str::to_ascii_lowercase`.
pub open spec fn lower_ascii(s: Seq<char>) -> Seq<char> {
    s.map_values(|c: char| ascii_lower(c))
}

pub fn char_is_ws(c: char) -> (r: bool)
    ensures
        r == is_ws(c),
{
    let u = c as u32;
    (9 <= u && u <= 13) || u == 32 || u == 0x85 || u == 0xA0 || u == 0x1680 || (0x2000 <= u && u
        <= 0x200A) || u == 0x2028 || u == 0x2029 || u == 0x202F || u == 0x205F || u == 0x3000
}

pub fn char_is_digit(c: char) -> (r: bool)
    ensures
        r == is_digit(c),
{
    let u = c as u32;
    48 <= u && u <= 57
}

pub fn char_is_ascii_alnum(c: char) -> (r: bool)
    ensures
        r == is_ascii_alnum(c),
{
    let u = c as u32;
    (48 <= u && u <= 57) || (65 <= u && u <= 90) || (97 <= u && u <= 122)
}

pub fn char_to_ascii_lower(c: char) -> (r: char)
    ensures
        r == ascii_lower(c),
{
    let u = c as u32;
    if 65 <= u && u <= 90 {
        let l: u8 = (u + 32) as u8;
        l as char
    } else {
        c
    }
}

// ---------------------------------------------------------------------------
// Conversions between `str`/`String` and character buffers
// ---------------------------------------------------------------------------

/// The characters of `s`, in order.
pub fn chars_of(s: &str) -> (v: Vec<char>)
    ensures
        v@ == s@,
{
    let mut v: Vec<char> = Vec::new();
    for c in it: s.chars()
        invariant
            v@ == it.seq().take(it.index() as int),
    {
        v.push(c);
    }
    v
}

/// Collects characters into a `String` (std's `FromIterator<char>`).
#[verifier::external_body]
pub(crate) fn string_from(v: &[char]) -> (s: String)
    ensures
        s@ == v@,
{
    v.iter().collect()
}

/// Copy of `s[lo..hi]`.
pub fn slice_of(s: &[char], lo: usize, hi: usize) -> (r: Vec<char>)
    requires
        lo <= hi <= s@.len(),
    ensures
        r@ == s@.subrange(lo as int, hi as int),
{
    let mut r: Vec<char> = Vec::new();
    let mut i = lo;
    while i < hi
        invariant
            lo <= i <= hi <= s@.len(),
            r@ == s@.subrange(lo as int, i as int),
        decreases hi - i,
    {
        r.push(s[i]);
        i += 1;
    }
    r
}

/// Appends all of `b` to `a`.
pub fn push_all(a: &mut Vec<char>, b: &[char])
    ensures
        final(a)@ == old(a)@ + b@,
{
    let mut i: usize = 0;
    while i < b.len()
        invariant
            i <= b@.len(),
            a@ == old(a)@ + b@.take(i as int),
        decreases b.len() - i,
    {
        a.push(b[i]);
        i += 1;
        assert(b@.take(i as int) == b@.take((i - 1) as int).push(b@[i - 1]));
    }
    assert(b@.take(b@.len() as int) == b@);
}

pub fn push_str(a: &mut Vec<char>, b: &str)
    ensures
        final(a)@ == old(a)@ + b@,
{
    let v = chars_of(b);
    push_all(a, &v);
}

pub fn eq_chars(a: &[char], b: &[char]) -> (r: bool)
    ensures
        r == (a@ == b@),
{
    if a.len() != b.len() {
        return false;
    }
    let mut i: usize = 0;
    while i < a.len()
        invariant
            a@.len() == b@.len(),
            i <= a@.len(),
            forall|j: int| 0 <= j < i ==> a@[j] == b@[j],
        decreases a.len() - i,
    {
        if a[i] != b[i] {
            return false;
        }
        i += 1;
    }
    assert(a@ =~= b@);
    true
}

pub fn lower_ascii_vec(s: &[char]) -> (r: Vec<char>)
    ensures
        r@ == lower_ascii(s@),
{
    let mut r: Vec<char> = Vec::new();
    let mut i: usize = 0;
    while i < s.len()
        invariant
            i <= s@.len(),
            r@ == lower_ascii(s@.take(i as int)),
        decreases s.len() - i,
    {
        r.push(char_to_ascii_lower(s[i]));
        i += 1;
        assert(lower_ascii(s@.take(i as int)) =~= lower_ascii(s@.take((i - 1) as int)).push(
            ascii_lower(s@[i - 1]),
        ));
    }
    assert(s@.take(s@.len() as int) == s@);
    r
}

// ---------------------------------------------------------------------------
// Prefixes, occurrences, find
// ---------------------------------------------------------------------------

pub open spec fn starts_with(s: Seq<char>, p: Seq<char>) -> bool {
    p.len() <= s.len() && s.take(p.len() as int) == p
}

pub open spec fn occurs_at(s: Seq<char>, p: Seq<char>, i: int) -> bool {
    0 <= i && i + p.len() <= s.len() && s.subrange(i, i + p.len()) == p
}

/// Index of the first occurrence of `p` in `s` at or after `i`.
pub open spec fn find_from(s: Seq<char>, p: Seq<char>, i: int) -> Option<int>
    decreases s.len() + 1 - i,
{
    if i < 0 || i + p.len() > s.len() {
        None
    } else if s.subrange(i, i + p.len()) == p {
        Some(i)
    } else {
        find_from(s, p, i + 1)
    }
}

/// `str::find`: index of the first occurrence of `p` in `s`.
pub open spec fn find(s: Seq<char>, p: Seq<char>) -> Option<int> {
    find_from(s, p, 0)
}

/// `str::contains`.
pub open spec fn contains(s: Seq<char>, p: Seq<char>) -> bool {
    find(s, p) is Some
}

pub proof fn lemma_find_from_bounds(s: Seq<char>, p: Seq<char>, i: int)
    requires
        0 <= i,
    ensures
        find_from(s, p, i) matches Some(k) ==> {
            &&& i <= k
            &&& occurs_at(s, p, k)
            &&& forall|j: int| i <= j < k ==> !occurs_at(s, p, j)
        },
        find_from(s, p, i) is None ==> forall|j: int| i <= j ==> !occurs_at(s, p, j),
    decreases s.len() + 1 - i,
{
    if i + p.len() > s.len() {
    } else if s.subrange(i, i + p.len()) == p {
    } else {
        lemma_find_from_bounds(s, p, i + 1);
    }
}

pub fn matches_at(s: &[char], p: &[char], i: usize) -> (r: bool)
    requires
        i + p@.len() <= s@.len(),
    ensures
        r == (s@.subrange(i as int, i + p@.len()) == p@),
{
    let n = s.len();
    let mut j: usize = 0;
    while j < p.len()
        invariant
            n == s@.len(),
            i + p@.len() <= s@.len(),
            j <= p@.len(),
            forall|k: int| 0 <= k < j ==> s@[i + k] == p@[k],
        decreases p.len() - j,
    {
        let k = i + j;
        if s[k] != p[j] {
            assert(s@.subrange(i as int, i + p@.len())[j as int] != p@[j as int]);
            return false;
        }
        j += 1;
    }
    assert(s@.subrange(i as int, i + p@.len()) =~= p@);
    true
}

pub fn find_from_exec(s: &[char], p: &[char], start: usize) -> (r: Option<usize>)
    ensures
        r matches Some(k) ==> find_from(s@, p@, start as int) == Some(k as int),
        r is None ==> find_from(s@, p@, start as int) is None,
{
    if p.len() > s.len() {
        return None;
    }
    let last = s.len() - p.len();
    if start > last {
        return None;
    }
    let mut i = start;
    while i < last
        invariant
            start <= i <= last,
            p@.len() <= s@.len(),
            last == s@.len() - p@.len(),
            find_from(s@, p@, start as int) == find_from(s@, p@, i as int),
        decreases last - i,
    {
        if matches_at(s, p, i) {
            return Some(i);
        }
        i += 1;
    }
    if matches_at(s, p, last) {
        Some(last)
    } else {
        assert(find_from(s@, p@, last + 1) is None);
        None
    }
}

pub fn find_exec(s: &[char], p: &[char]) -> (r: Option<usize>)
    ensures
        r matches Some(k) ==> find(s@, p@) == Some(k as int),
        r is None ==> find(s@, p@) is None,
{
    find_from_exec(s, p, 0)
}

pub fn contains_exec(s: &[char], p: &[char]) -> (r: bool)
    ensures
        r == contains(s@, p@),
{
    find_exec(s, p).is_some()
}

pub fn contains_str(s: &[char], p: &str) -> (r: bool)
    ensures
        r == contains(s@, p@),
{
    let pv = chars_of(p);
    contains_exec(s, &pv)
}

pub fn starts_with_exec(s: &[char], p: &[char]) -> (r: bool)
    ensures
        r == starts_with(s@, p@),
{
    if p.len() > s.len() {
        return false;
    }
    let m = matches_at(s, p, 0);
    assert(s@.subrange(0, p@.len() as int) == s@.take(p@.len() as int));
    m
}

pub fn starts_with_str(s: &[char], p: &str) -> (r: bool)
    ensures
        r == starts_with(s@, p@),
{
    let pv = chars_of(p);
    starts_with_exec(s, &pv)
}

// ---------------------------------------------------------------------------
// Whitespace runs and trimming
// ---------------------------------------------------------------------------

/// First index at or after `i` whose character is not whitespace (or `s.len()`).
pub open spec fn skip_ws_from(s: Seq<char>, i: int) -> int
    decreases s.len() - i,
{
    if i < 0 || i >= s.len() {
        s.len() as int
    } else if is_ws(s[i]) {
        skip_ws_from(s, i + 1)
    } else {
        i
    }
}

/// First index at or after `i` whose character is whitespace (or `s.len()`).
pub open spec fn skip_word_from(s: Seq<char>, i: int) -> int
    decreases s.len() - i,
{
    if i < 0 || i >= s.len() {
        s.len() as int
    } else if !is_ws(s[i]) {
        skip_word_from(s, i + 1)
    } else {
        i
    }
}

/// Largest `k <= j` such that `s[k - 1]` is not whitespace (or 0).
pub open spec fn back_ws_from(s: Seq<char>, j: int) -> int
    decreases j,
{
    if j <= 0 || j > s.len() {
        0
    } else if is_ws(s[j - 1]) {
        back_ws_from(s, j - 1)
    } else {
        j
    }
}

/// Largest `k <= j` such that `s[k - 1]` is whitespace (or 0).
pub open spec fn back_word_from(s: Seq<char>, j: int) -> int
    decreases j,
{
    if j <= 0 || j > s.len() {
        0
    } else if !is_ws(s[j - 1]) {
        back_word_from(s, j - 1)
    } else {
        j
    }
}

/// `str::trim_start`.
pub open spec fn trim_start(s: Seq<char>) -> Seq<char> {
    s.skip(skip_ws_from(s, 0))
}

/// `str::trim_end`.
pub open spec fn trim_end(s: Seq<char>) -> Seq<char> {
    s.take(back_ws_from(s, s.len() as int))
}

/// `str::trim`.
pub open spec fn trim(s: Seq<char>) -> Seq<char> {
    trim_end(trim_start(s))
}

/// `split_whitespace().next()`.
pub open spec fn first_word(s: Seq<char>) -> Option<Seq<char>> {
    let a = skip_ws_from(s, 0);
    if a >= s.len() {
        None
    } else {
        Some(s.subrange(a, skip_word_from(s, a)))
    }
}

/// `split_whitespace().last()`.
pub open spec fn last_word(s: Seq<char>) -> Option<Seq<char>> {
    let b = back_ws_from(s, s.len() as int);
    if b <= 0 {
        None
    } else {
        Some(s.subrange(back_word_from(s, b), b))
    }
}

pub proof fn lemma_skip_ws_from_bounds(s: Seq<char>, i: int)
    requires
        0 <= i <= s.len(),
    ensures
        i <= skip_ws_from(s, i) <= s.len(),
        skip_ws_from(s, i) < s.len() ==> !is_ws(s[skip_ws_from(s, i)]),
        forall|k: int| i <= k < skip_ws_from(s, i) ==> is_ws(#[trigger] s[k]),
    decreases s.len() - i,
{
    if i < s.len() && is_ws(s[i]) {
        lemma_skip_ws_from_bounds(s, i + 1);
    }
}

pub proof fn lemma_skip_word_from_bounds(s: Seq<char>, i: int)
    requires
        0 <= i <= s.len(),
    ensures
        i <= skip_word_from(s, i) <= s.len(),
        skip_word_from(s, i) < s.len() ==> is_ws(s[skip_word_from(s, i)]),
        forall|k: int| i <= k < skip_word_from(s, i) ==> !is_ws(#[trigger] s[k]),
    decreases s.len() - i,
{
    if i < s.len() && !is_ws(s[i]) {
        lemma_skip_word_from_bounds(s, i + 1);
    }
}

pub proof fn lemma_back_ws_from_bounds(s: Seq<char>, j: int)
    requires
        0 <= j <= s.len(),
    ensures
        0 <= back_ws_from(s, j) <= j,
        back_ws_from(s, j) > 0 ==> !is_ws(s[back_ws_from(s, j) - 1]),
        forall|k: int| back_ws_from(s, j) <= k < j ==> is_ws(#[trigger] s[k]),
    decreases j,
{
    if j > 0 && is_ws(s[j - 1]) {
        lemma_back_ws_from_bounds(s, j - 1);
    }
}

pub proof fn lemma_back_word_from_bounds(s: Seq<char>, j: int)
    requires
        0 <= j <= s.len(),
    ensures
        0 <= back_word_from(s, j) <= j,
        back_word_from(s, j) > 0 ==> is_ws(s[back_word_from(s, j) - 1]),
        forall|k: int| back_word_from(s, j) <= k < j ==> !is_ws(#[trigger] s[k]),
    decreases j,
{
    if j > 0 && !is_ws(s[j - 1]) {
        lemma_back_word_from_bounds(s, j - 1);
    }
}

pub fn skip_ws_exec(s: &[char], start: usize) -> (r: usize)
    requires
        start <= s@.len(),
    ensures
        r == skip_ws_from(s@, start as int),
        start <= r <= s@.len(),
{
    let mut i = start;
    while i < s.len() && char_is_ws(s[i])
        invariant
            start <= i <= s@.len(),
            skip_ws_from(s@, start as int) == skip_ws_from(s@, i as int),
        decreases s.len() - i,
    {
        i += 1;
    }
    i
}

pub fn skip_word_exec(s: &[char], start: usize) -> (r: usize)
    requires
        start <= s@.len(),
    ensures
        r == skip_word_from(s@, start as int),
        start <= r <= s@.len(),
{
    let mut i = start;
    while i < s.len() && !char_is_ws(s[i])
        invariant
            start <= i <= s@.len(),
            skip_word_from(s@, start as int) == skip_word_from(s@, i as int),
        decreases s.len() - i,
    {
        i += 1;
    }
    i
}

pub fn back_ws_exec(s: &[char], end: usize) -> (r: usize)
    requires
        end <= s@.len(),
    ensures
        r == back_ws_from(s@, end as int),
        r <= end,
{
    let mut j = end;
    while j > 0 && char_is_ws(s[j - 1])
        invariant
            j <= end <= s@.len(),
            back_ws_from(s@, end as int) == back_ws_from(s@, j as int),
        decreases j,
    {
        j -= 1;
    }
    j
}

pub fn back_word_exec(s: &[char], end: usize) -> (r: usize)
    requires
        end <= s@.len(),
    ensures
        r == back_word_from(s@, end as int),
        r <= end,
{
    let mut j = end;
    while j > 0 && !char_is_ws(s[j - 1])
        invariant
            j <= end <= s@.len(),
            back_word_from(s@, end as int) == back_word_from(s@, j as int),
        decreases j,
    {
        j -= 1;
    }
    j
}

pub fn trim_start_exec(s: &[char]) -> (r: Vec<char>)
    ensures
        r@ == trim_start(s@),
{
    let a = skip_ws_exec(s, 0);
    slice_of(s, a, s.len())
}

pub fn trim_end_exec(s: &[char]) -> (r: Vec<char>)
    ensures
        r@ == trim_end(s@),
{
    let b = back_ws_exec(s, s.len());
    slice_of(s, 0, b)
}

pub fn trim_exec(s: &[char]) -> (r: Vec<char>)
    ensures
        r@ == trim(s@),
{
    let t = trim_start_exec(s);
    trim_end_exec(&t)
}

pub fn first_word_exec(s: &[char]) -> (r: Option<Vec<char>>)
    ensures
        r matches Some(w) ==> first_word(s@) == Some(w@),
        r is None ==> first_word(s@) is None,
{
    let a = skip_ws_exec(s, 0);
    if a >= s.len() {
        return None;
    }
    let b = skip_word_exec(s, a);
    Some(slice_of(s, a, b))
}

pub fn last_word_exec(s: &[char]) -> (r: Option<Vec<char>>)
    ensures
        r matches Some(w) ==> last_word(s@) == Some(w@),
        r is None ==> last_word(s@) is None,
{
    let b = back_ws_exec(s, s.len());
    if b == 0 {
        return None;
    }
    proof {
        lemma_back_ws_from_bounds(s@, s@.len() as int);
    }
    let a = back_word_exec(s, b);
    Some(slice_of(s, a, b))
}


// ---------------------------------------------------------------------------
// Splitting on a pattern
// ---------------------------------------------------------------------------

/// `split(p).next()`: the text before the first `p`, or all of `s`.
pub open spec fn before_first(s: Seq<char>, p: Seq<char>) -> Seq<char> {
    match find(s, p) {
        Some(i) => s.take(i),
        None => s,
    }
}

/// `split(p).nth(1)` for a non-empty `p`: the piece between the first and second `p`.
pub open spec fn second_piece(s: Seq<char>, p: Seq<char>) -> Option<Seq<char>> {
    match find(s, p) {
        Some(i) => Some(before_first(s.skip(i + p.len()), p)),
        None => None,
    }
}

/// `split_once(p)`.
pub open spec fn split_once(s: Seq<char>, p: Seq<char>) -> Option<(Seq<char>, Seq<char>)> {
    match find(s, p) {
        Some(i) => Some((s.take(i), s.skip(i + p.len()))),
        None => None,
    }
}

/// `strip_prefix(p)`.
pub open spec fn strip_prefix(s: Seq<char>, p: Seq<char>) -> Option<Seq<char>> {
    if starts_with(s, p) {
        Some(s.skip(p.len() as int))
    } else {
        None
    }
}

pub fn before_first_exec(s: &[char], p: &[char]) -> (r: Vec<char>)
    ensures
        r@ == before_first(s@, p@),
{
    match find_exec(s, p) {
        Some(i) => {
            proof {
                lemma_find_from_bounds(s@, p@, 0);
            }
            slice_of(s, 0, i)
        },
        None => slice_of(s, 0, s.len()),
    }
}

pub fn second_piece_exec(s: &[char], p: &[char]) -> (r: Option<Vec<char>>)
    ensures
        r matches Some(w) ==> second_piece(s@, p@) == Some(w@),
        r is None ==> second_piece(s@, p@) is None,
{
    match find_exec(s, p) {
        Some(i) => {
            proof {
                lemma_find_from_bounds(s@, p@, 0);
            }
            let n = s.len();
            let rest = slice_of(s, i + p.len(), n);
            Some(before_first_exec(&rest, p))
        },
        None => None,
    }
}

pub fn split_once_exec(s: &[char], p: &[char]) -> (r: Option<(Vec<char>, Vec<char>)>)
    ensures
        r matches Some(w) ==> split_once(s@, p@) == Some((w.0@, w.1@)),
        r is None ==> split_once(s@, p@) is None,
{
    match find_exec(s, p) {
        Some(i) => {
            proof {
                lemma_find_from_bounds(s@, p@, 0);
            }
            let n = s.len();
            Some((slice_of(s, 0, i), slice_of(s, i + p.len(), n)))
        },
        None => None,
    }
}

pub fn strip_prefix_exec(s: &[char], p: &[char]) -> (r: Option<Vec<char>>)
    ensures
        r matches Some(w) ==> strip_prefix(s@, p@) == Some(w@),
        r is None ==> strip_prefix(s@, p@) is None,
{
    if starts_with_exec(s, p) {
        Some(slice_of(s, p.len(), s.len()))
    } else {
        None
    }
}

// ---------------------------------------------------------------------------
// Lines
// ---------------------------------------------------------------------------

/// Index of the first `c` at or after `i`, or `s.len()`.
pub open spec fn index_of_from(s: Seq<char>, c: char, i: int) -> int
    decreases s.len() - i,
{
    if i < 0 || i >= s.len() {
        s.len() as int
    } else if s[i] == c {
        i
    } else {
        index_of_from(s, c, i + 1)
    }
}

pub proof fn lemma_index_of_from_bounds(s: Seq<char>, c: char, i: int)
    requires
        0 <= i <= s.len(),
    ensures
        i <= index_of_from(s, c, i) <= s.len(),
        index_of_from(s, c, i) < s.len() ==> s[index_of_from(s, c, i)] == c,
        forall|k: int| i <= k < index_of_from(s, c, i) ==> #[trigger] s[k] != c,
    decreases s.len() - i,
{
    if i < s.len() && s[i] != c {
        lemma_index_of_from_bounds(s, c, i + 1);
    }
}

pub fn index_of_exec(s: &[char], c: char, start: usize) -> (r: usize)
    requires
        start <= s@.len(),
    ensures
        r == index_of_from(s@, c, start as int),
        start <= r <= s@.len(),
{
    let mut i = start;
    while i < s.len() && s[i] != c
        invariant
            start <= i <= s@.len(),
            index_of_from(s@, c, start as int) == index_of_from(s@, c, i as int),
        decreases s.len() - i,
    {
        i += 1;
    }
    i
}

/// Drops one trailing carriage return.
pub open spec fn strip_cr(l: Seq<char>) -> Seq<char> {
    if l.len() > 0 && l.last() == '\r' {
        l.drop_last()
    } else {
        l
    }
}

/// `str::lines` on `s[i..]`: split at `\n`, drop a `\r` before each `\n`,
/// no empty piece after a final `\n`.
pub open spec fn lines_from(s: Seq<char>, i: int) -> Seq<Seq<char>>
    decreases s.len() - i,
{
    if i < 0 || i >= s.len() {
        seq![]
    } else {
        let e = index_of_from(s, '\n', i);
        if e < s.len() {
            proof {
                lemma_index_of_from_bounds(s, '\n', i);
            }
            seq![strip_cr(s.subrange(i, e))] + lines_from(s, e + 1)
        } else {
            seq![s.subrange(i, s.len() as int)]
        }
    }
}

/// `str::lines`.
pub open spec fn lines(s: Seq<char>) -> Seq<Seq<char>> {
    lines_from(s, 0)
}

pub fn strip_cr_exec(l: Vec<char>) -> (r: Vec<char>)
    ensures
        r@ == strip_cr(l@),
{
    let mut l = l;
    if l.len() > 0 && l[l.len() - 1] == '\r' {
        l.pop();
    }
    l
}

pub fn lines_exec(s: &[char]) -> (r: Vec<Vec<char>>)
    ensures
        r.deep_view() == lines(s@),
{
    let mut out: Vec<Vec<char>> = Vec::new();
    let mut i: usize = 0;
    while i < s.len()
        invariant
            i <= s@.len(),
            out.deep_view() + lines_from(s@, i as int) == lines(s@),
        decreases s.len() - i,
    {
        let e = index_of_exec(s, '\n', i);
        let ghost before = out.deep_view();
        if e < s.len() {
            let piece = strip_cr_exec(slice_of(s, i, e));
            let ghost pv = piece@;
            assert(piece.deep_view() =~= pv);
            out.push(piece);
            assert(out.deep_view() =~= before.push(strip_cr(s@.subrange(i as int, e as int))));
            assert(before + lines_from(s@, i as int) =~= out.deep_view() + lines_from(
                s@,
                e + 1,
            ));
            i = e + 1;
        } else {
            let piece = slice_of(s, i, s.len());
            let ghost pv = piece@;
            assert(piece.deep_view() =~= pv);
            out.push(piece);
            assert(out.deep_view() =~= before.push(s@.subrange(i as int, s@.len() as int)));
            assert(lines_from(s@, s@.len() as int) =~= Seq::<Seq<char>>::empty());
            assert(before + lines_from(s@, i as int) =~= out.deep_view() + lines_from(
                s@,
                s@.len() as int,
            ));
            i = s.len();
        }
    }
    assert(lines_from(s@, i as int) =~= Seq::<Seq<char>>::empty());
    assert(out.deep_view() + Seq::<Seq<char>>::empty() =~= out.deep_view());
    out
}

// ---------------------------------------------------------------------------
// Decimal numbers
// ---------------------------------------------------------------------------

pub open spec fn all_digits(s: Seq<char>) -> bool {
    forall|i: int| 0 <= i < s.len() ==> is_digit(#[trigger] s[i])
}

pub open spec fn digit_val(c: char) -> nat {
    ((c as u32) - 48) as nat
}

/// Value of a run of decimal digits.
pub open spec fn dec_value(s: Seq<char>) -> nat
    decreases s.len(),
{
    if s.len() == 0 {
        0
    } else {
        dec_value(s.drop_last()) * 10 + digit_val(s.last())
    }
}

/// Unsigned `from_str`: an optional `+`, then one or more ASCII digits whose
/// value is at most `max`.
pub open spec fn parse_uint(s: Seq<char>, max: nat) -> Option<nat> {
    let d = if s.len() > 0 && s[0] == '+' {
        s.drop_first()
    } else {
        s
    };
    if d.len() > 0 && all_digits(d) && dec_value(d) <= max {
        Some(dec_value(d))
    } else {
        None
    }
}

/// `u32::from_str`.
pub open spec fn parse_u32(s: Seq<char>) -> Option<u32> {
    match parse_uint(s, u32::MAX as nat) {
        Some(v) => Some(v as u32),
        None => None,
    }
}

pub proof fn lemma_dec_value_prefix(s: Seq<char>, k: int)
    requires
        all_digits(s),
        0 <= k <= s.len(),
    ensures
        dec_value(s) >= dec_value(s.take(k)),
    decreases s.len(),
{
    if k < s.len() {
        let t = s.drop_last();
        assert(t.take(k) =~= s.take(k));
        assert(all_digits(t));
        lemma_dec_value_prefix(t, k);
    } else {
        assert(s.take(k) =~= s);
    }
}

fn parse_uint_exec(s: &[char], max: u64) -> (r: Option<u64>)
    requires
        max >= 9,
    ensures
        r matches Some(v) ==> parse_uint(s@, max as nat) == Some(v as nat),
        r is None ==> parse_uint(s@, max as nat) is None,
{
    let n = s.len();
    if n == 0 {
        return None;
    }
    let start: usize = if s[0] == '+' {
        1
    } else {
        0
    };
    let ghost d = if s@.len() > 0 && s@[0] == '+' {
        s@.drop_first()
    } else {
        s@
    };
    assert(d =~= s@.subrange(start as int, n as int));
    if start == n {
        return None;
    }
    let mut acc: u64 = 0;
    let mut i = start;
    while i < n
        invariant
            n == s@.len(),
            start <= i <= n,
            d == s@.subrange(start as int, n as int),
            d == (if s@.len() > 0 && s@[0] == '+' {
                s@.drop_first()
            } else {
                s@
            }),
            max >= 9,
            all_digits(s@.subrange(start as int, i as int)),
            acc as nat == dec_value(s@.subrange(start as int, i as int)),
            acc <= max,
        decreases n - i,
    {
        let c = s[i];
        if !char_is_digit(c) {
            assert(d[i - start] == s@[i as int]);
            assert(!is_digit(d[i - start]));
            return None;
        }
        let cu: u32 = c as u32;
        let dv: u64 = (cu - 48) as u64;
        let ghost pre = s@.subrange(start as int, (i + 1) as int);
        assert(pre.drop_last() =~= s@.subrange(start as int, i as int));
        assert(dec_value(pre) == acc * 10 + dv);
        if acc > (max - dv) / 10 {
            assert(acc * 10 + dv > max) by (nonlinear_arith)
                requires
                    acc > (max - dv) / 10,
                    dv <= 9,
                    dv <= max || acc > 0,
            ;
            proof {
                if all_digits(d) {
                    assert(d.take((i + 1 - start) as int) =~= pre);
                    lemma_dec_value_prefix(d, (i + 1 - start) as int);
                }
            }
            return None;
        }
        assert(acc * 10 + dv <= max) by (nonlinear_arith)
            requires
                acc <= (max - dv) / 10,
                dv <= max,
        ;
        acc = acc * 10 + dv;
        i += 1;
    }
    Some(acc)
}

pub fn parse_u32_exec(s: &[char]) -> (r: Option<u32>)
    ensures
        r == parse_u32(s@),
{
    match parse_uint_exec(s, u32::MAX as u64) {
        Some(v) => Some(v as u32),
        None => None,
    }
}

pub open spec fn digit_char(d: nat) -> char {
    (d + 48) as char
}

/// Decimal rendering of `n` (`format!("{n}")`).
pub open spec fn dec_str(n: nat) -> Seq<char>
    decreases n,
{
    if n < 10 {
        seq![digit_char(n)]
    } else {
        dec_str(n / 10).push(digit_char(n % 10))
    }
}

/// Two-digit zero-padded rendering (`format!("{n:02}")`).
pub open spec fn dec_str2(n: nat) -> Seq<char> {
    if n < 10 {
        seq!['0'] + dec_str(n)
    } else {
        dec_str(n)
    }
}

pub fn push_dec(out: &mut Vec<char>, n: u64)
    ensures
        final(out)@ == old(out)@ + dec_str(n as nat),
    decreases n,
{
    if n >= 10 {
        push_dec(out, n / 10);
    }
    let d: u8 = (n % 10) as u8;
    let c: char = (d + 48) as char;
    assert(c == digit_char((n % 10) as nat));
    out.push(c);
}

pub fn push_dec2(out: &mut Vec<char>, n: u64)
    ensures
        final(out)@ == old(out)@ + dec_str2(n as nat),
{
    if n < 10 {
        out.push('0');
    }
    push_dec(out, n);
}

pub fn dec_chars(n: u64) -> (r: Vec<char>)
    ensures
        r@ == dec_str(n as nat),
{
    let mut out: Vec<char> = Vec::new();
    push_dec(&mut out, n);
    out
}

/// Decimal rendering as a `String`.
pub fn dec_string(n: u64) -> (r: String)
    ensures
        r@ == dec_str(n as nat),
{
    let v = dec_chars(n);
    string_from(&v)
}

// ---------------------------------------------------------------------------
// Joining
// ---------------------------------------------------------------------------

/// `parts.join(sep)`.
pub open spec fn join(parts: Seq<Seq<char>>, sep: Seq<char>) -> Seq<char>
    decreases parts.len(),
{
    if parts.len() == 0 {
        seq![]
    } else if parts.len() == 1 {
        parts[0]
    } else {
        join(parts.drop_last(), sep) + sep + parts.last()
    }
}

pub fn join_exec(parts: &Vec<Vec<char>>, sep: &[char]) -> (r: Vec<char>)
    ensures
        r@ == join(parts.deep_view(), sep@),
{
    let mut out: Vec<char> = Vec::new();
    let mut i: usize = 0;
    while i < parts.len()
        invariant
            i <= parts@.len(),
            out@ == join(parts.deep_view().take(i as int), sep@),
        decreases parts.len() - i,
    {
        let ghost prev = parts.deep_view().take(i as int);
        if i > 0 {
            push_all(&mut out, sep);
        }
        push_all(&mut out, &parts[i]);
        i += 1;
        proof {
            let cur = parts.deep_view().take(i as int);
            assert(cur.drop_last() =~= prev);
            if i == 1 {
                assert(prev =~= Seq::<Seq<char>>::empty());
                assert(out@ =~= cur[0]);
            }
        }
    }
    assert(parts.deep_view().take(parts@.len() as int) =~= parts.deep_view());
    out
}


// ---------------------------------------------------------------------------
// Repeated prefixes and digit runs
// ---------------------------------------------------------------------------

/// `trim_start_matches(p)`: strips every leading repetition of a non-empty `p`.
pub open spec fn trim_start_matches(s: Seq<char>, p: Seq<char>) -> Seq<char>
    decreases s.len(),
{
    if p.len() > 0 && starts_with(s, p) {
        trim_start_matches(s.skip(p.len() as int), p)
    } else {
        s
    }
}

pub fn trim_start_matches_exec(s: &[char], p: &[char]) -> (r: Vec<char>)
    ensures
        r@ == trim_start_matches(s@, p@),
{
    let mut cur = slice_of(s, 0, s.len());
    assert(cur@ =~= s@);
    if p.len() == 0 {
        return cur;
    }
    while starts_with_exec(&cur, p)
        invariant
            p@.len() > 0,
            trim_start_matches(cur@, p@) == trim_start_matches(s@, p@),
        decreases cur@.len(),
    {
        cur = slice_of(&cur, p.len(), cur.len());
    }
    cur
}

/// First index at or after `i` that is not an ASCII digit (or `s.len()`).
pub open spec fn digit_run_from(s: Seq<char>, i: int) -> int
    decreases s.len() - i,
{
    if i < 0 || i >= s.len() {
        s.len() as int
    } else if is_digit(s[i]) {
        digit_run_from(s, i + 1)
    } else {
        i
    }
}

pub proof fn lemma_digit_run_bounds(s: Seq<char>, i: int)
    requires
        0 <= i <= s.len(),
    ensures
        i <= digit_run_from(s, i) <= s.len(),
    decreases s.len() - i,
{
    if i < s.len() && is_digit(s[i]) {
        lemma_digit_run_bounds(s, i + 1);
    }
}

pub fn digit_run_exec(s: &[char], start: usize) -> (r: usize)
    requires
        start <= s@.len(),
    ensures
        r == digit_run_from(s@, start as int),
        start <= r <= s@.len(),
{
    let mut i = start;
    while i < s.len() && char_is_digit(s[i])
        invariant
            start <= i <= s@.len(),
            digit_run_from(s@, start as int) == digit_run_from(s@, i as int),
        decreases s.len() - i,
    {
        i += 1;
    }
    i
}

/// String equality against a literal.
pub fn str_is(s: &str, lit: &str) -> (r: bool)
    ensures
        r == (s@ == lit@),
{
    let a = chars_of(s);
    let b = chars_of(lit);
    eq_chars(&a, &b)
}

/// Pushes one piece onto a list of character buffers.
pub fn push_piece(parts: &mut Vec<Vec<char>>, piece: Vec<char>)
    ensures
        final(parts).deep_view() == old(parts).deep_view().push(piece@),
{
    let ghost pv = piece@;
    assert(piece.deep_view() =~= pv);
    parts.push(piece);
    assert(parts.deep_view() =~= old(parts).deep_view().push(pv));
}


/// Signed decimal rendering (`format!("{n}")` for an `i32`).
pub open spec fn int_str(n: int) -> Seq<char> {
    if n < 0 {
        seq!['-'] + dec_str((-n) as nat)
    } else {
        dec_str(n as nat)
    }
}

pub fn push_i32(out: &mut Vec<char>, n: i32)
    ensures
        final(out)@ == old(out)@ + int_str(n as int),
{
    if n < 0 {
        out.push('-');
        let m: u64 = (-(n as i64)) as u64;
        push_dec(out, m);
        assert(final(out)@ =~= old(out)@ + int_str(n as int));
    } else {
        push_dec(out, n as u64);
    }
}

/// Unicode lower-casing of a text, as std's `str::to_lowercase` computes it
/// from the Unicode case tables; a function of the text alone.
pub uninterp spec fn unicode_lowercase(s: Seq<char>) -> Seq<char>;

/// std `str::to_lowercase`. Claims that the result is the Unicode lowercase
/// of the argument, a function of its characters, and, as std documents for
/// ASCII, that ASCII text lowercases letter by letter (`A`–`Z` to `a`–`z`,
/// everything else kept; so empty text stays empty).
#[verifier::external_body]
pub(crate) fn to_lowercase(s: &str) -> (r: String)
    ensures
        r@ == unicode_lowercase(s@),
        all_ascii(s@) ==> r@ == lower_ascii(s@),
{
    s.to_lowercase()
}

} // verus!
