//! Stable, structured identity for findings.
//!
//! A finding's identity is the first 16 hex characters of
//! `SHA-256(normalized_path:line:category)`, never its title.

use vstd::prelude::*;
use vstd::utf8::encode_utf8;
use crate::schema::{Category, category_slug};
use crate::text::{
    chars_of, dec_text, is_white_space, lead_ws, push_chars, push_decimal, push_str, string_of,
    trail_ws, trim, trim_spec,
};
use sha2::{Digest, Sha256};

verus! {

broadcast use vstd::std_specs::vec::group_vec_axioms;

/// Number of hex characters in a finding id.
pub const FINDING_ID_HEX_LEN: usize = 16;

// ---------------------------------------------------------------------------
// Path normalization
// ---------------------------------------------------------------------------

/// Every `\` becomes `/`.
pub open spec fn backslash_to_slash(s: Seq<char>) -> Seq<char> {
    s.map_values(|c: char| if c == '\\' { '/' } else { c })
}

/// Leading `./` prefixes removed, as many as there are.
pub open spec fn strip_dot_slash(s: Seq<char>) -> Seq<char>
    decreases s.len(),
{
    if s.len() >= 2 && s[0] == '.' && s[1] == '/' {
        strip_dot_slash(s.subrange(2, s.len() as int))
    } else {
        s
    }
}

/// Every run of consecutive `/` reduced to one.
pub open spec fn collapse_slashes(s: Seq<char>) -> Seq<char>
    decreases s.len(),
{
    if s.len() == 0 {
        s
    } else {
        let p = collapse_slashes(s.drop_last());
        if s.last() == '/' && p.len() > 0 && p.last() == '/' {
            p
        } else {
            p.push(s.last())
        }
    }
}

/// The canonical form of a path: `\` → `/`, leading `./` stripped, `//` collapsed.
pub open spec fn normalized_path(s: Seq<char>) -> Seq<char> {
    collapse_slashes(strip_dot_slash(backslash_to_slash(s)))
}

/// Canonicalizes a path for stable identity: `\` → `/`, strip leading `./`
/// (repeatedly), collapse runs of `/`. A pure string transform, independent
/// of the host's separator.
pub fn normalize_path(path: &str) -> (r: String)
    ensures
        r@ == normalized_path(path@),
{
    let src = chars_of(path);
    let mut mapped: Vec<char> = Vec::new();
    let mut i: usize = 0;
    while i < src.len()
        invariant
            i <= src.len(),
            mapped@ =~= backslash_to_slash(src@.take(i as int)),
        decreases src.len() - i,
    {
        let c = src[i];
        mapped.push(if c == '\\' { '/' } else { c });
        i = i + 1;
    }
    assert(src@.take(src.len() as int) =~= src@);
    let ghost m = mapped@;
    let mut start: usize = 0;
    assert(m.subrange(0, m.len() as int) =~= m);
    while mapped.len() - start >= 2 && mapped[start] == '.' && mapped[start + 1] == '/'
        invariant
            start <= mapped.len(),
            m == mapped@,
            strip_dot_slash(m) == strip_dot_slash(m.subrange(start as int, m.len() as int)),
        decreases mapped.len() - start,
    {
        let ghost t = m.subrange(start as int, m.len() as int);
        assert(t.subrange(2, t.len() as int) =~= m.subrange(start + 2, m.len() as int));
        start = start + 2;
    }
    let ghost stripped = m.subrange(start as int, m.len() as int);
    assert(strip_dot_slash(stripped) == stripped);
    let mut out: Vec<char> = Vec::new();
    let mut k: usize = start;
    assert(stripped.take(0) =~= Seq::<char>::empty());
    while k < mapped.len()
        invariant
            start <= k <= mapped.len(),
            m == mapped@,
            stripped == m.subrange(start as int, m.len() as int),
            out@ == collapse_slashes(stripped.take(k - start)),
        decreases mapped.len() - k,
    {
        let c = mapped[k];
        let ghost t = stripped.take(k - start + 1);
        assert(t.drop_last() =~= stripped.take(k - start));
        assert(t.last() == c);
        if !(c == '/' && out.len() > 0 && out[out.len() - 1] == '/') {
            out.push(c);
        }
        k = k + 1;
    }
    assert(stripped.take(stripped.len() as int) =~= stripped);
    string_of(&out)
}

/// No two consecutive slashes.
pub open spec fn no_double_slash(s: Seq<char>) -> bool {
    forall|i: int| 0 <= i < s.len() - 1 ==> !(s[i] == '/' && #[trigger] s[i + 1] == '/')
}

proof fn lemma_collapse_no_double(s: Seq<char>)
    ensures
        no_double_slash(collapse_slashes(s)),
    decreases s.len(),
{
    if s.len() > 0 {
        lemma_collapse_no_double(s.drop_last());
        let p = collapse_slashes(s.drop_last());
        let r = collapse_slashes(s);
        if !(s.last() == '/' && p.len() > 0 && p.last() == '/') {
            assert forall|i: int| 0 <= i < r.len() - 1 implies !(r[i] == '/' && #[trigger] r[i
                + 1] == '/') by {
                if i < p.len() - 1 {
                    assert(r[i] == p[i] && r[i + 1] == p[i + 1]);
                }
            }
        }
    }
}

proof fn lemma_collapse_identity(s: Seq<char>)
    requires
        no_double_slash(s),
    ensures
        collapse_slashes(s) == s,
    decreases s.len(),
{
    if s.len() > 0 {
        let d = s.drop_last();
        assert(no_double_slash(d)) by {
            assert forall|i: int| 0 <= i < d.len() - 1 implies !(d[i] == '/' && #[trigger] d[i
                + 1] == '/') by {
                assert(d[i] == s[i] && d[i + 1] == s[i + 1]);
            }
        }
        lemma_collapse_identity(d);
        if d.len() > 0 {
            let i = d.len() - 1;
            assert(s[i] == d.last());
            assert(!(s[i] == '/' && s[i + 1] == '/'));
        }
        assert(d.push(s.last()) =~= s);
    }
}

proof fn lemma_collapse_prefix(s: Seq<char>)
    requires
        s.len() >= 2,
        s[1] != '/',
    ensures
        collapse_slashes(s).len() >= 2,
        collapse_slashes(s)[0] == s[0],
        collapse_slashes(s)[1] == s[1],
    decreases s.len(),
{
    if s.len() > 2 {
        lemma_collapse_prefix(s.drop_last());
    } else {
        let d = s.drop_last();
        assert(d.drop_last().len() == 0);
        assert(collapse_slashes(d.drop_last()).len() == 0);
        assert(collapse_slashes(d) =~= seq![s[0]]);
    }
}

proof fn lemma_collapse_first(s: Seq<char>)
    requires
        s.len() >= 1,
    ensures
        collapse_slashes(s).len() >= 1,
        collapse_slashes(s)[0] == s[0],
    decreases s.len(),
{
    if s.len() > 1 {
        lemma_collapse_first(s.drop_last());
    } else {
        assert(s.drop_last().len() == 0);
        assert(collapse_slashes(s.drop_last()).len() == 0);
        assert(collapse_slashes(s) =~= seq![s[0]]);
    }
}

proof fn lemma_strip_result(s: Seq<char>)
    ensures
        !(strip_dot_slash(s).len() >= 2 && strip_dot_slash(s)[0] == '.' && strip_dot_slash(s)[1]
            == '/'),
        forall|c: char| strip_dot_slash(s).contains(c) ==> s.contains(c),
    decreases s.len(),
{
    if s.len() >= 2 && s[0] == '.' && s[1] == '/' {
        let t = s.subrange(2, s.len() as int);
        lemma_strip_result(t);
        assert forall|c: char| t.contains(c) implies s.contains(c) by {
            let j = choose|j: int| 0 <= j < t.len() && t[j] == c;
            assert(s[j + 2] == c);
        }
    }
}

proof fn lemma_collapse_subset(s: Seq<char>, c: char)
    requires
        collapse_slashes(s).contains(c),
    ensures
        s.contains(c),
    decreases s.len(),
{
    let p = collapse_slashes(s.drop_last());
    if s.len() > 0 {
        if p.contains(c) {
            lemma_collapse_subset(s.drop_last(), c);
            let j = choose|j: int| 0 <= j < s.drop_last().len() && s.drop_last()[j] == c;
            assert(s[j] == c);
        } else {
            assert(s[s.len() - 1] == c);
        }
    }
}

/// A normalized path is clean: it holds no `\`, no two consecutive `/`, and
/// does not start with `./`.
pub proof fn law_normalized_path_is_clean(p: Seq<char>)
    ensures
        !normalized_path(p).contains('\\'),
        no_double_slash(normalized_path(p)),
        !(normalized_path(p).len() >= 2 && normalized_path(p)[0] == '.' && normalized_path(p)[1]
            == '/'),
{
    let b = backslash_to_slash(p);
    let s = strip_dot_slash(b);
    let n = collapse_slashes(s);
    lemma_strip_result(b);
    lemma_collapse_no_double(s);
    if n.contains('\\') {
        lemma_collapse_subset(s, '\\');
        assert(b.contains('\\'));
        let j = choose|j: int| 0 <= j < b.len() && b[j] == '\\';
        assert(b[j] == (if p[j] == '\\' { '/' } else { p[j] }));
    }
    if n.len() >= 2 && n[0] == '.' && n[1] == '/' {
        if s.len() >= 2 && s[1] != '/' {
            lemma_collapse_prefix(s);
        } else if s.len() >= 2 {
            lemma_collapse_first(s);
            assert(s[0] == '.');
        } else if s.len() == 1 {
            assert(s.drop_last().len() == 0);
            assert(collapse_slashes(s.drop_last()).len() == 0);
            assert(n =~= seq![s[0]]);
        }
    }
}

/// Normalizing an already-normalized path changes nothing: the canonical form
/// is a fixed point.
pub proof fn law_normalize_path_idempotent(p: Seq<char>)
    ensures
        normalized_path(normalized_path(p)) == normalized_path(p),
{
    let n = normalized_path(p);
    law_normalized_path_is_clean(p);
    assert forall|i: int| 0 <= i < n.len() implies n[i] != '\\' by {
        if n[i] == '\\' {
            assert(n.contains('\\'));
        }
    }
    assert(backslash_to_slash(n) =~= n);
    assert(strip_dot_slash(n) == n);
    lemma_collapse_identity(n);
}

// ---------------------------------------------------------------------------
// Category normalization
// ---------------------------------------------------------------------------

/// What std's `str::to_lowercase` returns for `s` (full Unicode lowercase mapping).
pub uninterp spec fn lowercase_text(s: Seq<char>) -> Seq<char>;

/// Whether every character of `s` is ASCII.
pub open spec fn is_ascii_text(s: Seq<char>) -> bool {
    forall|i: int| 0 <= i < s.len() ==> ((#[trigger] s[i]) as u32) < 128
}

/// ASCII lowercasing: `A`..=`Z` become `a`..=`z`, every other character stays.
pub open spec fn ascii_lower(s: Seq<char>) -> Seq<char> {
    s.map_values(|c: char| if 'A' <= c && c <= 'Z' { ((c as u32) + 32) as char } else { c })
}

/// std's `str::to_lowercase`. Its result is named `lowercase_text`; on ASCII
/// text the Unicode lowercase mapping is the ASCII one, so there it is
/// stated exactly.
#[verifier::external_body]
fn to_lowercase(s: &str) -> (r: String)
    ensures
        r@ == lowercase_text(s@),
        is_ascii_text(s@) ==> r@ == ascii_lower(s@),
{
    s.to_lowercase()
}

/// `_` and space each become `-`.
pub open spec fn dash_separators(s: Seq<char>) -> Seq<char> {
    s.map_values(|c: char| if c == '_' || c == ' ' { '-' } else { c })
}

/// The slug a free-form category string normalizes to: trimmed, lowercased,
/// `_` and space turned into `-`.
pub open spec fn category_key(raw: Seq<char>) -> Seq<char> {
    dash_separators(lowercase_text(trim_spec(raw)))
}

/// The category whose wire name is exactly `slug`, if any.
pub open spec fn category_named(slug: Seq<char>) -> Option<Category> {
    if slug == category_slug(Category::Security) {
        Some(Category::Security)
    } else if slug == category_slug(Category::Injection) {
        Some(Category::Injection)
    } else if slug == category_slug(Category::LogicError) {
        Some(Category::LogicError)
    } else if slug == category_slug(Category::Performance) {
        Some(Category::Performance)
    } else if slug == category_slug(Category::ErrorHandling) {
        Some(Category::ErrorHandling)
    } else if slug == category_slug(Category::Maintainability) {
        Some(Category::Maintainability)
    } else if slug == category_slug(Category::Other) {
        Some(Category::Other)
    } else {
        None
    }
}

/// Whether `r` spells the slug character `s`: itself, an upper-case letter
/// for its lower-case one, or `_` or a space for a `-`.
pub open spec fn spells_slug_char(r: char, s: char) -> bool {
    ||| r == s
    ||| s == '-' && (r == '_' || r == ' ')
    ||| 'a' <= s && s <= 'z' && 'A' <= r && r <= 'Z' && (r as u32) + 32 == (s as u32)
}

/// Whether `raw` spells `slug` character by character (see `spells_slug_char`).
pub open spec fn spells_slug(raw: Seq<char>, slug: Seq<char>) -> bool {
    &&& raw.len() == slug.len()
    &&& forall|i: int| 0 <= i < raw.len() ==> spells_slug_char(#[trigger] raw[i], slug[i])
}

proof fn lemma_slugs_are_named(c: Category)
    ensures
        category_named(category_slug(c)) == Some(c),
        category_slug(c).len() > 0,
        forall|i: int|
            0 <= i < category_slug(c).len() ==> (#[trigger] category_slug(c)[i] == '-' || (
            'a' <= category_slug(c)[i] && category_slug(c)[i] <= 'z')),
        'a' <= category_slug(c)[0] && category_slug(c)[0] <= 'z',
        'a' <= category_slug(c).last() && category_slug(c).last() <= 'z',
{
    reveal_strlit("security");
    reveal_strlit("injection");
    reveal_strlit("logic-error");
    reveal_strlit("performance");
    reveal_strlit("error-handling");
    reveal_strlit("maintainability");
    reveal_strlit("other");
    let sec = "security"@;
    let inj = "injection"@;
    let log = "logic-error"@;
    let per = "performance"@;
    let err = "error-handling"@;
    let mai = "maintainability"@;
    let oth = "other"@;
    assert(sec.len() == 8 && inj.len() == 9 && log.len() == 11 && per.len() == 11);
    assert(err.len() == 14 && mai.len() == 15 && oth.len() == 5);
    assert(log[0] != per[0]);
    assert(log != per);
    assert(sec != inj && sec != log && sec != per && sec != err && sec != mai && sec != oth);
    assert(inj != log && inj != per && inj != err && inj != mai && inj != oth);
    assert(log != err && log != mai && log != oth);
    assert(per != err && per != mai && per != oth);
    assert(err != mai && err != oth && mai != oth);
}

/// Every spelling of a category's slug names that category: any letter in
/// either case, and each `-` written as `-`, `_` or a space (so
/// `logic error`, `Logic_Error` and `LOGIC-ERROR` all name `LogicError`).
pub proof fn law_category_spellings_are_recognised(c: Category, raw: Seq<char>)
    requires
        spells_slug(raw, category_slug(c)),
    ensures
        trim_spec(raw) == raw,
        is_ascii_text(raw),
        dash_separators(ascii_lower(raw)) == category_slug(c),
        category_named(dash_separators(ascii_lower(trim_spec(raw)))) == Some(c),
{
    let slug = category_slug(c);
    lemma_slugs_are_named(c);
    assert(spells_slug_char(raw[0], slug[0]));
    assert(spells_slug_char(raw[raw.len() - 1], slug[slug.len() - 1]));
    assert(!is_white_space(raw[0]));
    assert(!is_white_space(raw.last()));
    assert(lead_ws(raw) == 0);
    let rest = raw.subrange(0, raw.len() as int);
    assert(rest =~= raw);
    assert(trail_ws(rest) == 0);
    assert(trim_spec(raw) =~= raw);
    assert forall|i: int| 0 <= i < raw.len() implies ((#[trigger] raw[i]) as u32) < 128 by {
        assert(spells_slug_char(raw[i], slug[i]));
        assert(slug[i] == '-' || ('a' <= slug[i] && slug[i] <= 'z'));
    }
    assert forall|i: int| 0 <= i < raw.len() implies #[trigger] dash_separators(ascii_lower(raw))[i]
        == slug[i] by {
        let r = raw[i];
        let sc = slug[i];
        assert(spells_slug_char(r, sc));
        assert(sc == '-' || ('a' <= sc && sc <= 'z'));
        let lo = if 'A' <= r && r <= 'Z' {
            ((r as u32) + 32) as char
        } else {
            r
        };
        assert(ascii_lower(raw)[i] == lo);
        if 'A' <= r && r <= 'Z' {
            assert((r as u32) + 32 == (sc as u32));
            assert(lo == sc);
        } else {
            assert(lo == r);
        }
        assert(dash_separators(ascii_lower(raw))[i] == (if lo == '_' || lo == ' ' {
            '-'
        } else {
            lo
        }));
        if r == sc {
            assert(!('A' <= r && r <= 'Z'));
            assert(lo == sc);
            assert(sc != '_' && sc != ' ');
        } else if sc == '-' && (r == '_' || r == ' ') {
            assert(lo == r);
        } else {
            assert('A' <= r && r <= 'Z');
            assert(lo == sc);
            assert(sc != '_' && sc != ' ');
        }
    }
    assert(dash_separators(ascii_lower(raw)) =~= slug);
}

fn slug_is(v: &Vec<char>, c: Category) -> (b: bool)
    ensures
        b == (v@ == category_slug(c)),
{
    let s = chars_of(c.slug());
    crate::text::chars_eq(v, &s)
}

/// Maps a free-form string to a known category, else `Category::Other`.
/// Normalizes: trim, lowercase, `_`/space → `-`.
pub fn normalize_category(value: Option<&str>) -> (r: Category)
    ensures
        r == match value {
            None => Category::Other,
            Some(raw) => match category_named(category_key(raw@)) {
                Some(c) => c,
                None => Category::Other,
            },
        },
        match value {
            Some(raw) => is_ascii_text(trim_spec(raw@)) ==> r == match category_named(
                dash_separators(ascii_lower(trim_spec(raw@))),
            ) {
                Some(c) => c,
                None => Category::Other,
            },
            None => true,
        },
        forall|c: Category|
            #![trigger category_slug(c)]
            match value {
                Some(raw) => spells_slug(raw@, category_slug(c)) ==> r == c,
                None => true,
            },
{
    let raw = match value {
        None => {
            return Category::Other;
        },
        Some(raw) => raw,
    };
    proof {
        assert forall|c: Category| #[trigger]
            spells_slug(raw@, category_slug(c)) implies is_ascii_text(trim_spec(raw@))
            && category_named(dash_separators(ascii_lower(trim_spec(raw@)))) == Some(c) by {
            law_category_spellings_are_recognised(c, raw@);
        }
    }
    let t = trim(&chars_of(raw));
    let lowered = to_lowercase(string_of(&t).as_str());
    let lc = chars_of(lowered.as_str());
    let mut slug: Vec<char> = Vec::new();
    let mut i: usize = 0;
    while i < lc.len()
        invariant
            i <= lc.len(),
            slug@ =~= dash_separators(lc@.take(i as int)),
        decreases lc.len() - i,
    {
        let c = lc[i];
        slug.push(if c == '_' || c == ' ' { '-' } else { c });
        i = i + 1;
    }
    assert(lc@.take(lc.len() as int) =~= lc@);
    if slug_is(&slug, Category::Security) {
        Category::Security
    } else if slug_is(&slug, Category::Injection) {
        Category::Injection
    } else if slug_is(&slug, Category::LogicError) {
        Category::LogicError
    } else if slug_is(&slug, Category::Performance) {
        Category::Performance
    } else if slug_is(&slug, Category::ErrorHandling) {
        Category::ErrorHandling
    } else if slug_is(&slug, Category::Maintainability) {
        Category::Maintainability
    } else {
        Category::Other
    }
}

// ---------------------------------------------------------------------------
// Finding id
// ---------------------------------------------------------------------------

/// What SHA-256 (the `sha2` crate's `Sha256::digest`) yields for `data`.
pub uninterp spec fn sha256_digest(data: Seq<u8>) -> Seq<u8>;

/// `Sha256::digest` of `sha2`: the 32-byte SHA-256 digest of `data`.
#[verifier::external_body]
fn sha256(data: &[u8]) -> (r: Vec<u8>)
    ensures
        r@ == sha256_digest(data@),
        r@.len() == 32,
{
    Sha256::digest(data).to_vec()
}

/// A lowercase hex digit.
pub open spec fn hex_digit(d: int) -> char {
    if d < 10 {
        ((48 + d) as u8) as char
    } else {
        ((87 + d) as u8) as char
    }
}

/// Two lowercase hex digits per byte, in order.
pub open spec fn hex_lower(bytes: Seq<u8>) -> Seq<char>
    decreases bytes.len(),
{
    if bytes.len() == 0 {
        Seq::<char>::empty()
    } else {
        hex_lower(bytes.drop_last()) + seq![
            hex_digit(bytes.last() as int / 16),
            hex_digit(bytes.last() as int % 16),
        ]
    }
}

/// The text that is hashed: `normalized_path:line:category-slug`.
pub open spec fn finding_payload(file: Seq<char>, line: u32, category: Category) -> Seq<char> {
    normalized_path(file) + seq![':'] + dec_text(line as nat) + seq![':'] + category_slug(category)
}

/// The id of a finding located at `file:line` with `category`.
pub open spec fn finding_id_spec(file: Seq<char>, line: u32, category: Category) -> Seq<char> {
    hex_lower(sha256_digest(encode_utf8(finding_payload(file, line, category))).take(8))
}

/// Whether every character is a lowercase hex digit.
pub open spec fn is_lower_hex(s: Seq<char>) -> bool {
    forall|i: int|
        0 <= i < s.len() ==> ('0' <= #[trigger] s[i] <= '9' || 'a' <= s[i] <= 'f')
}

fn hex_char(d: u8) -> (c: char)
    requires
        d < 16,
    ensures
        c == hex_digit(d as int),
{
    if d < 10 {
        (48u8 + d) as char
    } else {
        (87u8 + d) as char
    }
}

proof fn lemma_hex_shape(bytes: Seq<u8>)
    ensures
        hex_lower(bytes).len() == 2 * bytes.len(),
        is_lower_hex(hex_lower(bytes)),
    decreases bytes.len(),
{
    if bytes.len() > 0 {
        lemma_hex_shape(bytes.drop_last());
        let p = hex_lower(bytes.drop_last());
        let r = hex_lower(bytes);
        assert forall|i: int| 0 <= i < r.len() implies ('0' <= #[trigger] r[i] <= '9' || 'a'
            <= r[i] <= 'f') by {
            if i < p.len() {
                assert(r[i] == p[i]);
            }
        }
    }
}

/// `SHA-256(normalize_path(file):line:category-slug)`, first 8 bytes as 16
/// lowercase hex characters. Independent of the title, so stable across runs
/// even when the model rewords it.
pub fn generate_finding_id(file: &str, line: u32, category: Category) -> (r: String)
    ensures
        r@ == finding_id_spec(file@, line, category),
        r@.len() == 16,
        is_lower_hex(r@),
{
    let norm = normalize_path(file);
    let mut payload: Vec<char> = chars_of(norm.as_str());
    payload.push(':');
    push_decimal(&mut payload, line as u64);
    payload.push(':');
    push_str(&mut payload, category.slug());
    assert(payload@ =~= finding_payload(file@, line, category));
    let text = string_of(&payload);
    let digest = sha256(text.as_str().as_bytes());
    let ghost head = digest@.take(8);
    let mut hex: Vec<char> = Vec::new();
    let mut i: usize = 0;
    while i < 8
        invariant
            i <= 8,
            digest@.len() == 32,
            head == digest@.take(8),
            hex@ == hex_lower(head.take(i as int)),
        decreases 8 - i,
    {
        let b = digest[i];
        let ghost t = head.take(i + 1);
        assert(t.drop_last() =~= head.take(i as int));
        assert(t.last() == b);
        hex.push(hex_char(b / 16));
        hex.push(hex_char(b % 16));
        assert(hex@ =~= hex_lower(t));
        i = i + 1;
    }
    assert(head.take(8) =~= head);
    proof {
        lemma_hex_shape(head);
    }
    string_of(&hex)
}

/// Two paths with the same canonical form give the same id: the id sees the
/// path only through `normalize_path`.
pub proof fn law_finding_id_respects_path_equivalence(
    a: Seq<char>,
    b: Seq<char>,
    line: u32,
    category: Category,
)
    requires
        normalized_path(a) == normalized_path(b),
    ensures
        finding_id_spec(a, line, category) == finding_id_spec(b, line, category),
{
}

/// A path and its canonical form give the same id.
pub proof fn law_finding_id_of_normalized_path(p: Seq<char>, line: u32, category: Category)
    ensures
        finding_id_spec(normalized_path(p), line, category) == finding_id_spec(p, line, category),
{
    law_normalize_path_idempotent(p);
}

} // verus!
