//! Finished-training library: folder names, entry ids and zip-entry safety.

use vstd::prelude::*;
use vstd::string::StringSliceAdditionalSpecFns;

use crate::error::PipelineError;
use crate::paths::{file_name_chars, file_name_of, join, join_path, path_stem, stem_chars};
use crate::text::{
    ascii_lower, char_is_ascii_alnum, char_to_ascii_lower, chars_of, contains, contains_exec,
    dec_str, digit_char, is_ascii_alnum, push_all, push_dec, push_str, slice_of, str_is,
    string_from,
};

verus! {

broadcast use vstd::string::group_string_axioms;

pub const LIBRARY_FILE: &'static str = "library.json";
pub const META_FILE: &'static str = "meta.json";
pub const POSTER_JPG: &'static str = "poster.jpg";
pub const POSTER_PNG: &'static str = "poster.png";
pub const SCRATCH_DIR: &'static str = ".scratch";

// ---------------------------------------------------------------------------
// Slugs
// ---------------------------------------------------------------------------

/// ASCII letters and digits lower-cased; everything else becomes `-`.
pub open spec fn slug_char(c: char) -> char {
    if is_ascii_alnum(c) {
        ascii_lower(c)
    } else {
        '-'
    }
}

/// Every run of `-` shortened to one `-`.
pub open spec fn collapse_dashes(s: Seq<char>) -> Seq<char>
    decreases s.len(),
{
    if s.len() == 0 {
        s
    } else {
        let p = collapse_dashes(s.drop_last());
        if s.last() == '-' && p.len() > 0 && p.last() == '-' {
            p
        } else {
            p.push(s.last())
        }
    }
}

/// First index at or after `i` that is not `-` (or `s.len()`).
pub open spec fn skip_dash_from(s: Seq<char>, i: int) -> int
    decreases s.len() - i,
{
    if i < 0 || i >= s.len() {
        s.len() as int
    } else if s[i] == '-' {
        skip_dash_from(s, i + 1)
    } else {
        i
    }
}

/// Largest `k <= j` such that `s[k - 1]` is not `-` (or 0).
pub open spec fn back_dash_from(s: Seq<char>, j: int) -> int
    decreases j,
{
    if j <= 0 || j > s.len() {
        0
    } else if s[j - 1] == '-' {
        back_dash_from(s, j - 1)
    } else {
        j
    }
}

/// `trim_matches('-')`.
pub open spec fn trim_dashes(s: Seq<char>) -> Seq<char> {
    let t = s.skip(skip_dash_from(s, 0));
    t.take(back_dash_from(t, t.len() as int))
}

/// Folder-safe slug of a source path: its stem (or "scene") with letters and
/// digits lower-cased, other characters as single dashes, no dash at either
/// end, "scene" when nothing is left, and at most 32 characters.
pub open spec fn slug_text(source: Seq<char>) -> Seq<char> {
    let stem = match path_stem(source) {
        Some(s) => s,
        None => "scene"@,
    };
    let t = trim_dashes(collapse_dashes(stem.map_values(|c: char| slug_char(c))));
    let out = if t.len() == 0 {
        "scene"@
    } else {
        t
    };
    if out.len() > 32 {
        out.take(32)
    } else {
        out
    }
}

pub proof fn lemma_skip_dash_bounds(s: Seq<char>, i: int)
    requires
        0 <= i <= s.len(),
    ensures
        i <= skip_dash_from(s, i) <= s.len(),
        skip_dash_from(s, i) < s.len() ==> s[skip_dash_from(s, i)] != '-',
    decreases s.len() - i,
{
    if i < s.len() && s[i] == '-' {
        lemma_skip_dash_bounds(s, i + 1);
    }
}

pub proof fn lemma_back_dash_bounds(s: Seq<char>, j: int)
    requires
        0 <= j <= s.len(),
    ensures
        0 <= back_dash_from(s, j) <= j,
        back_dash_from(s, j) > 0 ==> s[back_dash_from(s, j) - 1] != '-',
    decreases j,
{
    if j > 0 && s[j - 1] == '-' {
        lemma_back_dash_bounds(s, j - 1);
    }
}

fn collapse_dashes_exec(s: &[char]) -> (r: Vec<char>)
    ensures
        r@ == collapse_dashes(s@),
{
    let mut out: Vec<char> = Vec::new();
    let mut i: usize = 0;
    while i < s.len()
        invariant
            i <= s@.len(),
            out@ == collapse_dashes(s@.take(i as int)),
        decreases s.len() - i,
    {
        let c = s[i];
        assert(s@.take(i + 1).drop_last() =~= s@.take(i as int));
        if !(c == '-' && out.len() > 0 && out[out.len() - 1] == '-') {
            out.push(c);
        }
        i += 1;
    }
    assert(s@.take(s@.len() as int) =~= s@);
    out
}

fn trim_dashes_exec(s: &[char]) -> (r: Vec<char>)
    ensures
        r@ == trim_dashes(s@),
{
    let mut a: usize = 0;
    while a < s.len() && s[a] == '-'
        invariant
            a <= s@.len(),
            skip_dash_from(s@, a as int) == skip_dash_from(s@, 0),
        decreases s.len() - a,
    {
        a += 1;
    }
    let t = slice_of(s, a, s.len());
    assert(t@ =~= s@.skip(a as int));
    let mut b: usize = t.len();
    while b > 0 && t[b - 1] == '-'
        invariant
            b <= t@.len(),
            back_dash_from(t@, b as int) == back_dash_from(t@, t@.len() as int),
        decreases b,
    {
        b -= 1;
    }
    slice_of(&t, 0, b)
}

fn slug_chars(source: &str) -> (r: Vec<char>)
    ensures
        r@ == slug_text(source@),
{
    let sv = chars_of(source);
    let stem: Vec<char> = match file_name_chars(&sv) {
        Some(n) => stem_chars(&n),
        None => chars_of("scene"),
    };
    let mut mapped: Vec<char> = Vec::new();
    let mut i: usize = 0;
    while i < stem.len()
        invariant
            i <= stem@.len(),
            mapped@ == stem@.take(i as int).map_values(|c: char| slug_char(c)),
        decreases stem.len() - i,
    {
        let c = stem[i];
        let m = if char_is_ascii_alnum(c) {
            char_to_ascii_lower(c)
        } else {
            '-'
        };
        mapped.push(m);
        i += 1;
        assert(stem@.take(i as int).map_values(|c: char| slug_char(c)) =~= stem@.take(
            (i - 1) as int,
        ).map_values(|c: char| slug_char(c)).push(slug_char(c)));
    }
    assert(stem@.take(stem@.len() as int) =~= stem@);
    let collapsed = collapse_dashes_exec(&mapped);
    let t = trim_dashes_exec(&collapsed);
    let out = if t.len() == 0 {
        chars_of("scene")
    } else {
        t
    };
    if out.len() > 32 {
        slice_of(&out, 0, 32)
    } else {
        out
    }
}

/// Folder-safe slug of a source path.
pub fn slug(source: &str) -> (r: String)
    ensures
        r@ == slug_text(source@),
{
    let v = slug_chars(source);
    string_from(&v)
}

// ---------------------------------------------------------------------------
// Short hash
// ---------------------------------------------------------------------------

/// 32-bit FNV-1a over bytes.
pub open spec fn fnv1a(bytes: Seq<u8>) -> u32
    decreases bytes.len(),
{
    if bytes.len() == 0 {
        2166136261
    } else {
        vstd::wrapping::u32_specs::wrapping_mul(fnv1a(bytes.drop_last()) ^ (bytes.last() as u32), 16777619)
    }
}

pub open spec fn hex_digit(d: nat) -> char {
    if d < 10 {
        (d + 48) as char
    } else {
        (d - 10 + 97) as char
    }
}

/// Lower-case hexadecimal rendering.
pub open spec fn hex_str(n: nat) -> Seq<char>
    decreases n,
{
    if n < 16 {
        seq![hex_digit(n)]
    } else {
        hex_str(n / 16).push(hex_digit(n % 16))
    }
}

/// `format!("{n:04x}")`: hex, left-padded with zeros to 4 digits.
pub open spec fn hex4(n: nat) -> Seq<char> {
    let h = hex_str(n);
    if h.len() < 4 {
        Seq::new((4 - h.len()) as nat, |i: int| '0') + h
    } else {
        h
    }
}

fn push_hex(out: &mut Vec<char>, n: u32)
    ensures
        final(out)@ == old(out)@ + hex_str(n as nat),
    decreases n,
{
    if n >= 16 {
        push_hex(out, n / 16);
    }
    let d: u8 = (n % 16) as u8;
    let c: char = if d < 10 {
        (d + 48) as char
    } else {
        (d - 10 + 97) as char
    };
    assert(c == hex_digit((n % 16) as nat));
    out.push(c);
}

pub proof fn lemma_hex_len(n: nat)
    ensures
        1 <= hex_str(n).len(),
        n < 16 ==> hex_str(n).len() == 1,
        n < 256 ==> hex_str(n).len() <= 2,
        n < 4096 ==> hex_str(n).len() <= 3,
    decreases n,
{
    if n >= 16 {
        lemma_hex_len(n / 16);
    }
}

/// Four-or-more hex digits of the FNV-1a hash of the text's UTF-8 bytes.
pub fn short_hash(text: &str) -> (r: String)
    ensures
        r@ == hex4(fnv1a(vstd::utf8::encode_utf8(text@)) as nat),
{
    let bytes = text.as_bytes();
    let mut hash: u32 = 2166136261;
    let mut i: usize = 0;
    while i < bytes.len()
        invariant
            i <= bytes@.len(),
            bytes@ == vstd::utf8::encode_utf8(text@),
            hash == fnv1a(bytes@.take(i as int)),
        decreases bytes.len() - i,
    {
        assert(bytes@.take(i + 1).drop_last() =~= bytes@.take(i as int));
        hash = (hash ^ (bytes[i] as u32)).wrapping_mul(16777619);
        i += 1;
    }
    assert(bytes@.take(bytes@.len() as int) =~= bytes@);
    let mut h: Vec<char> = Vec::new();
    push_hex(&mut h, hash);
    let mut out: Vec<char> = Vec::new();
    proof {
        lemma_hex_len(hash as nat);
    }
    while out.len() + h.len() < 4
        invariant
            h@ == hex_str(hash as nat),
            out@ == Seq::new(out@.len(), |k: int| '0'),
            out@.len() + h@.len() <= 4 || out@.len() == 0,
        decreases 4 - out.len() - h.len(),
    {
        out.push('0');
        assert(out@ =~= Seq::new(out@.len(), |k: int| '0'));
    }
    push_all(&mut out, &h);
    assert(out@ =~= hex4(hash as nat));
    string_from(&out)
}

// ---------------------------------------------------------------------------
// Names and ids
// ---------------------------------------------------------------------------

/// Scratch folder name for a source: `{slug}_{hash}`.
pub open spec fn scratch_name_text(source: Seq<char>, source_bytes: Seq<u8>) -> Seq<char> {
    slug_text(source) + "_"@ + hex4(fnv1a(source_bytes) as nat)
}

pub fn scratch_name(source: &str) -> (r: String)
    ensures
        r@ == scratch_name_text(source@, vstd::utf8::encode_utf8(source@)),
{
    let mut out = slug_chars(source);
    push_str(&mut out, "_");
    let h = short_hash(source);
    push_str(&mut out, h.as_str());
    string_from(&out)
}

/// Archive ids are non-empty, free of `..`, `/` and `\`, and made only of
/// ASCII letters, digits, `_` and `-`.
pub open spec fn safe_id(id: Seq<char>) -> bool {
    &&& id.len() > 0
    &&& !contains(id, ".."@)
    &&& !contains(id, "/"@)
    &&& !contains(id, "\\"@)
    &&& forall|i: int| 0 <= i < id.len() ==> is_ascii_alnum(#[trigger] id[i]) || id[i] == '_' || id[i] == '-'
}

pub fn is_safe_id(id: &str) -> (r: bool)
    ensures
        r == safe_id(id@),
{
    let v = chars_of(id);
    if v.len() == 0 {
        return false;
    }
    if contains_exec(&v, &chars_of("..")) || contains_exec(&v, &chars_of("/")) || contains_exec(
        &v,
        &chars_of("\\"),
    ) {
        return false;
    }
    let mut i: usize = 0;
    while i < v.len()
        invariant
            i <= v@.len(),
            v@ == id@,
            forall|k: int| 0 <= k < i ==> is_ascii_alnum(#[trigger] v@[k]) || v@[k] == '_' || v@[k] == '-',
        decreases v.len() - i,
    {
        let c = v[i];
        if !(char_is_ascii_alnum(c) || c == '_' || c == '-') {
            assert(id@[i as int] == c);
            return false;
        }
        i += 1;
    }
    true
}

/// A zip entry name that is absolute or has a `..` component.
pub open spec fn unsafe_entry(name: Seq<char>) -> bool {
    (name.len() > 0 && name[0] == '/') || contains(seq!['/'] + name + seq!['/'], "/../"@)
}

pub open spec fn unsafe_path_message() -> Seq<char> {
    "The .3dgs file contains an unsafe path."@
}

/// A zip entry that is not refused unpacks inside the import folder: its path
/// starts with the folder and ends with the entry's name, which has no `..`
/// component.
pub proof fn law_accepted_entry_stays_under_base(base: Seq<char>, name: Seq<char>)
    requires
        !unsafe_entry(name),
    ensures
        join_path(base, name).take(base.len() as int) == base,
        join_path(base, name).skip(join_path(base, name).len() - name.len()) == name,
        !contains(seq!['/'] + name + seq!['/'], "/../"@),
{
    crate::paths::law_join_keeps_base(base, name);
}

/// Where a zip entry unpacks under `base`; absolute names and `..` components are refused.
pub fn safe_unzip_path(base: &str, name: &str) -> (r: Result<String, PipelineError>)
    ensures
        unsafe_entry(name@) ==> (r matches Err(PipelineError::Message(m)) && m@
            == unsafe_path_message()),
        !unsafe_entry(name@) ==> (r matches Ok(p) && p@ == join_path(base@, name@)),
{
    let n = chars_of(name);
    let mut wrapped: Vec<char> = vec!['/'];
    push_all(&mut wrapped, &n);
    wrapped.push('/');
    assert(wrapped@ =~= seq!['/'] + name@ + seq!['/']);
    if (n.len() > 0 && n[0] == '/') || contains_exec(&wrapped, &chars_of("/../")) {
        return Err(
            PipelineError::Message(string_from(&chars_of("The .3dgs file contains an unsafe path."))),
        );
    }
    Ok(join(base, name))
}

/// Archive title of a source: its file stem, or "Untitled".
pub open spec fn archive_title_text(source: Seq<char>) -> Seq<char> {
    match path_stem(source) {
        Some(s) => s,
        None => "Untitled"@,
    }
}

pub fn title_from_source(source: &str) -> (r: String)
    ensures
        r@ == archive_title_text(source@),
{
    let sv = chars_of(source);
    match file_name_chars(&sv) {
        Some(n) => string_from(&stem_chars(&n)),
        None => string_from(&chars_of("Untitled")),
    }
}

/// Source file name for the archive record, or "unknown".
pub fn file_name(source: &str) -> (r: String)
    ensures
        r@ == match file_name_of(source@) {
            Some(n) => n,
            None => "unknown"@,
        },
{
    let sv = chars_of(source);
    match file_name_chars(&sv) {
        Some(n) => string_from(&n),
        None => string_from(&chars_of("unknown")),
    }
}

// ---------------------------------------------------------------------------
// The library folder
// ---------------------------------------------------------------------------

/// Root folder chosen by the user. Scratch lives beside archived entries.
#[derive(Debug, Clone)]
pub struct ArchiveLibrary {
    root: String,
}

impl ArchiveLibrary {
    pub closed spec fn root_view(&self) -> Seq<char> {
        self.root@
    }

    /// The library rooted at `root` (no disk access).
    pub fn at(root: &str) -> (r: Self)
        ensures
            r.root_view() == root@,
    {
        Self { root: root.to_owned() }
    }

    pub fn root(&self) -> (r: &str)
        ensures
            r@ == self.root_view(),
    {
        self.root.as_str()
    }

    /// Scratch folder for this source, on the same volume as the archive.
    pub fn scratch_dir(&self, source: &str) -> (r: String)
        ensures
            r@ == join_path(
                join_path(self.root_view(), SCRATCH_DIR@),
                scratch_name_text(source@, vstd::utf8::encode_utf8(source@)),
            ),
    {
        let s = join(self.root.as_str(), SCRATCH_DIR);
        let n = scratch_name(source);
        join(s.as_str(), n.as_str())
    }

    pub fn entry_dir(&self, id: &str) -> (r: String)
        ensures
            r@ == join_path(self.root_view(), id@),
    {
        join(self.root.as_str(), id)
    }

    pub fn index_path(&self) -> (r: String)
        ensures
            r@ == join_path(self.root_view(), LIBRARY_FILE@),
    {
        join(self.root.as_str(), LIBRARY_FILE)
    }
}

// ---------------------------------------------------------------------------
// Entry ids
// ---------------------------------------------------------------------------

pub open spec fn is_lower_hex(c: char) -> bool {
    ('0' <= c && c <= '9') || ('a' <= c && c <= 'f')
}

/// Text shaped as chrono writes a date after 1970 with `%Y-%m-%d`: the year
/// in decimal (a leading `+` past year 9999), then `-`, two month digits,
/// `-` and two day digits.
pub open spec fn is_date_text(s: Seq<char>) -> bool {
    &&& s.len() >= 10
    &&& s[s.len() - 6] == '-'
    &&& s[s.len() - 3] == '-'
    &&& forall|i: int|
        s.len() - 6 < i < s.len() && i != s.len() - 3 ==> #[trigger] crate::text::is_digit(s[i])
    &&& forall|i: int|
        0 <= i < s.len() - 6 ==> #[trigger] crate::text::is_digit(s[i]) || (i == 0 && s[i] == '+')
}

/// chrono `Utc::now().format("%Y-%m-%d")`: today's date in UTC. The clock
/// decides which date; the claim is only the shape chrono's formatter writes
/// (`%Y` zero-padded to four digits, signed past 9999; `%m`, `%d` two digits).
/// The day and month values themselves are not claimed.
#[verifier::external_body]
fn utc_date_text() -> (r: String)
    ensures
        is_date_text(r@),
{
    chrono::Utc::now().format("%Y-%m-%d").to_string()
}

/// uuid `Uuid::new_v4().simple()` as text: a random UUID written as 32
/// lowercase hexadecimal digits. Only that shape is claimed.
#[verifier::external_body]
fn random_uuid_hex() -> (r: String)
    ensures
        r@.len() == 32,
        forall|i: int| 0 <= i < 32 ==> is_lower_hex(#[trigger] r@[i]),
{
    uuid::Uuid::new_v4().simple().to_string()
}

/// The `n`-th candidate id on `base`: `base` itself, then `base2`, `base3`, ...
pub open spec fn candidate_id(base: Seq<char>, n: nat) -> Seq<char> {
    if n <= 1 {
        base
    } else {
        base + dec_str(n)
    }
}

pub open spec fn names_of(v: Seq<String>) -> Seq<Seq<char>> {
    v.map_values(|s: String| s@)
}

/// `id` is the first candidate on `base` that `taken` does not hold.
pub open spec fn first_free_id(id: Seq<char>, base: Seq<char>, taken: Seq<Seq<char>>) -> bool {
    exists|n: nat|
        n >= 1 && id == #[trigger] candidate_id(base, n) && !taken.contains(id) && forall|m: nat|
            1 <= m < n ==> taken.contains(#[trigger] candidate_id(base, m))
}

proof fn lemma_dec_str_shape(n: nat)
    ensures
        dec_str(n).len() >= 1,
        n >= 10 ==> dec_str(n).len() >= 2,
    decreases n,
{
    if n >= 10 {
        lemma_dec_str_shape(n / 10);
    }
}

proof fn lemma_digit_char_injective(a: nat, b: nat)
    requires
        a < 10,
        b < 10,
        digit_char(a) == digit_char(b),
    ensures
        a == b,
{
    assert((digit_char(a) as u32) == a + 48);
    assert((digit_char(b) as u32) == b + 48);
}

/// Decimal renderings of different numbers differ.
proof fn lemma_dec_str_injective(a: nat, b: nat)
    requires
        dec_str(a) == dec_str(b),
    ensures
        a == b,
    decreases a,
{
    lemma_dec_str_shape(a);
    lemma_dec_str_shape(b);
    if a < 10 {
        if b < 10 {
            assert(dec_str(a)[0] == digit_char(a));
            assert(dec_str(b)[0] == digit_char(b));
            lemma_digit_char_injective(a, b);
        }
    } else if b >= 10 {
        assert(dec_str(a).drop_last() =~= dec_str(a / 10));
        assert(dec_str(b).drop_last() =~= dec_str(b / 10));
        lemma_dec_str_injective(a / 10, b / 10);
        assert(dec_str(a).last() == digit_char(a % 10));
        assert(dec_str(b).last() == digit_char(b % 10));
        lemma_digit_char_injective(a % 10, b % 10);
    }
}

proof fn lemma_candidates_distinct(base: Seq<char>, m: nat, n: nat)
    requires
        1 <= m < n,
    ensures
        candidate_id(base, m) != candidate_id(base, n),
{
    lemma_dec_str_shape(m);
    lemma_dec_str_shape(n);
    if m >= 2 && candidate_id(base, m) == candidate_id(base, n) {
        assert((base + dec_str(m)).skip(base.len() as int) =~= dec_str(m));
        assert((base + dec_str(n)).skip(base.len() as int) =~= dec_str(n));
        lemma_dec_str_injective(m, n);
    }
}

fn holds_name(taken: &Vec<String>, name: &str) -> (r: bool)
    ensures
        r == names_of(taken@).contains(name@),
{
    let mut j: usize = 0;
    while j < taken.len()
        invariant
            j <= taken@.len(),
            forall|k: int| 0 <= k < j ==> taken@[k]@ != name@,
        decreases taken.len() - j,
    {
        if str_is(taken[j].as_str(), name) {
            assert(names_of(taken@)[j as int] == name@);
            return true;
        }
        j += 1;
    }
    proof {
        if names_of(taken@).contains(name@) {
            let k = choose|k: int| 0 <= k < names_of(taken@).len() && names_of(taken@)[k] == name@;
            assert(taken@[k]@ == name@);
        }
    }
    false
}

/// The first of `base`, `base2`, `base3`, ... that `taken` does not hold.
pub fn unique_id_from(base: &str, taken: &Vec<String>) -> (r: String)
    requires
        taken@.len() < usize::MAX,
    ensures
        first_free_id(r@, base@, names_of(taken@)),
{
    let ghost names = names_of(taken@);
    let ghost tset = names.to_set();
    proof {
        broadcast use vstd::seq_lib::seq_to_set_is_finite;
        names.lemma_cardinality_of_set();
    }
    let mut n: usize = 1;
    let mut id: String = base.to_owned();
    let ghost mut seen: Set<Seq<char>> = Set::empty();
    while holds_name(taken, id.as_str())
        invariant
            names == names_of(taken@),
            names.len() < usize::MAX,
            tset == names.to_set(),
            tset.finite(),
            tset.len() <= names.len(),
            1 <= n <= names.len() + 1,
            id@ == candidate_id(base@, n as nat),
            seen.finite(),
            seen.len() == n - 1,
            seen.subset_of(tset),
            forall|x: Seq<char>|
                seen.contains(x) ==> exists|m: nat| 1 <= m < n && x == #[trigger] candidate_id(base@, m),
            forall|m: nat| 1 <= m < n ==> names.contains(#[trigger] candidate_id(base@, m)),
        decreases names.len() + 1 - n,
    {
        proof {
            if seen.contains(id@) {
                let m = choose|m: nat| 1 <= m < n && id@ == #[trigger] candidate_id(base@, m);
                lemma_candidates_distinct(base@, m, n as nat);
            }
            assert(tset.contains(id@));
            let grown = seen.insert(id@);
            assert(grown.len() == seen.len() + 1);
            vstd::set_lib::lemma_len_subset(grown, tset);
            assert forall|x: Seq<char>| grown.contains(x) implies exists|m: nat|
                1 <= m < n + 1 && x == #[trigger] candidate_id(base@, m) by {
                if x == id@ {
                    assert(x == candidate_id(base@, n as nat));
                } else {
                    let m = choose|m: nat| 1 <= m < n && x == #[trigger] candidate_id(base@, m);
                    assert(x == candidate_id(base@, m));
                }
            }
            assert forall|m: nat| 1 <= m < n + 1 implies names.contains(
                #[trigger] candidate_id(base@, m),
            ) by {
                if m == n {
                    assert(candidate_id(base@, m) == id@);
                }
            }
            seen = grown;
        }
        n = n + 1;
        let mut next: Vec<char> = chars_of(base);
        push_dec(&mut next, n as u64);
        id = string_from(&next);
    }
    assert(id@ == candidate_id(base@, n as nat));
    id
}

/// A fresh entry id `{date}_{slug}_{tag}`, with a numeric suffix when that
/// is taken: `tag` is four hex digits of a random UUID, `date` today's UTC
/// date. The id is never one of `taken`.
pub fn unique_id(source: &str, taken: &Vec<String>) -> (r: String)
    requires
        taken@.len() < usize::MAX,
    ensures
        exists|date: Seq<char>, tag: Seq<char>|
            is_date_text(date) && tag.len() == 4 && (forall|i: int|
                0 <= i < 4 ==> is_lower_hex(#[trigger] tag[i]))
                && #[trigger] first_free_id(
                r@,
                date + "_"@ + slug_text(source@) + "_"@ + tag,
                names_of(taken@),
            ),
        !names_of(taken@).contains(r@),
{
    let date = utc_date_text();
    let hex = random_uuid_hex();
    let hex_chars = chars_of(hex.as_str());
    let tag = slice_of(&hex_chars, 0, 4);
    let mut base: Vec<char> = chars_of(date.as_str());
    push_str(&mut base, "_");
    push_str(&mut base, slug(source).as_str());
    push_str(&mut base, "_");
    push_all(&mut base, &tag);
    let base = string_from(&base);
    let r = unique_id_from(base.as_str(), taken);
    proof {
        assert(forall|i: int| 0 <= i < 4 ==> is_lower_hex(#[trigger] tag@[i]) && tag@[i] == hex@[i]);
    }
    r
}

// ---------------------------------------------------------------------------
// Laws
// ---------------------------------------------------------------------------

/// Two dashes in a row at `i`.
pub open spec fn double_dash_at(s: Seq<char>, i: int) -> bool {
    s[i] == '-' && s[i + 1] == '-'
}

pub proof fn lemma_collapse_no_double(s: Seq<char>)
    ensures
        forall|i: int| 0 <= i < collapse_dashes(s).len() - 1 ==> !#[trigger] double_dash_at(collapse_dashes(s), i),
        forall|i: int| 0 <= i < collapse_dashes(s).len() ==> exists|j: int| 0 <= j < s.len() && s[j] == #[trigger] collapse_dashes(s)[i],
    decreases s.len(),
{
    if s.len() > 0 {
        let p = collapse_dashes(s.drop_last());
        lemma_collapse_no_double(s.drop_last());
        let c = collapse_dashes(s);
        assert forall|i: int| 0 <= i < c.len() - 1 implies !#[trigger] double_dash_at(c, i) by {
            if i < p.len() - 1 {
                assert(c[i] == p[i]);
                assert(c[i + 1] == p[i + 1]);
                assert(!double_dash_at(p, i));
            }
        }
        assert forall|i: int| 0 <= i < c.len() implies exists|j: int| 0 <= j < s.len() && s[j] == #[trigger] c[i] by {
            if i < p.len() {
                assert(c[i] == p[i]);
                let j = choose|j: int| 0 <= j < s.drop_last().len() && s.drop_last()[j] == p[i];
                assert(s[j] == c[i]);
            } else {
                assert(s[s.len() - 1] == c[i]);
            }
        }
    }
}

/// A slug is a usable folder-name fragment: 1 to 32 characters, only ASCII
/// lower-case letters, digits and single dashes, never starting or ending with a dash.
pub proof fn law_slug_is_clean(source: Seq<char>)
    ensures
        1 <= slug_text(source).len() <= 32,
        slug_text(source)[0] != '-',
        forall|i: int| 0 <= i < slug_text(source).len() ==> #[trigger] slug_text(source)[i] == '-' || is_ascii_alnum(slug_text(source)[i]),
        forall|i: int| 0 <= i < slug_text(source).len() - 1 ==> !#[trigger] double_dash_at(slug_text(source), i),
{
    reveal_strlit("scene");
    let stem = match path_stem(source) {
        Some(s) => s,
        None => "scene"@,
    };
    let m = stem.map_values(|c: char| slug_char(c));
    let c = collapse_dashes(m);
    lemma_collapse_no_double(m);
    let a = skip_dash_from(c, 0);
    lemma_skip_dash_bounds(c, 0);
    let t0 = c.skip(a);
    lemma_back_dash_bounds(t0, t0.len() as int);
    let t = trim_dashes(c);
    assert forall|i: int| 0 <= i < t.len() implies #[trigger] t[i] == '-' || is_ascii_alnum(t[i]) by {
        assert(t[i] == c[a + i]);
        let j = choose|j: int| 0 <= j < m.len() && m[j] == c[a + i];
        assert(m[j] == slug_char(stem[j]));
        if is_ascii_alnum(stem[j]) {
            let u = stem[j] as u32;
            assert(is_ascii_alnum(ascii_lower(stem[j])));
        }
    }
    assert forall|i: int| 0 <= i < t.len() - 1 implies !#[trigger] double_dash_at(t, i) by {
        assert(t[i] == c[a + i]);
        assert(t[i + 1] == c[a + i + 1]);
        assert(!double_dash_at(c, a + i));
    }
    let out = if t.len() == 0 {
        "scene"@
    } else {
        t
    };
    let r = slug_text(source);
    assert forall|i: int| 0 <= i < r.len() implies #[trigger] r[i] == '-' || is_ascii_alnum(r[i]) by {
        assert(r[i] == out[i]);
    }
    assert forall|i: int| 0 <= i < r.len() - 1 implies !#[trigger] double_dash_at(r, i) by {
        assert(r[i] == out[i]);
        assert(r[i + 1] == out[i + 1]);
        if t.len() > 0 {
            assert(!double_dash_at(t, i));
        }
    }
    if t.len() > 0 {
        assert(t[0] == c[a]);
    }
}

} // verus!
