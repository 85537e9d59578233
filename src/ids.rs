use vstd::prelude::*;

use crate::placement::string_views;

verus! {

/// A typed catalog identifier: a 128-bit catalog key tagged with what it names.
#[derive(PartialEq, Eq, Structural, Clone, Copy, Debug)]
pub enum CatalogId {
    Track(u128),
    Collection(u128),
}

/// Which kind of identifier the input lines are expected to carry.
#[derive(PartialEq, Eq, Structural, Clone, Copy, Debug)]
pub enum Mode {
    Tracks,
    Collections,
}

/// What one input line yields.
#[derive(PartialEq, Eq, Structural, Clone, Copy, Debug)]
pub enum LineKind {
    /// A comment line, dropped without a warning.
    Comment,
    /// A line that carries an identifier.
    Parsed(CatalogId),
    /// A line that matches no accepted pattern.
    NoPattern,
    /// A line whose embedded token is not a valid base-62 key.
    BadToken,
}

pub open spec fn is_alnum(c: char) -> bool {
    ('0' <= c && c <= '9') || ('a' <= c && c <= 'z') || ('A' <= c && c <= 'Z')
}

/// Value of one base-62 digit (`0-9`, then `a-z`, then `A-Z`); 0 for other characters.
pub open spec fn base62_digit(c: char) -> int {
    if '0' <= c && c <= '9' {
        c as int - '0' as int
    } else if 'a' <= c && c <= 'z' {
        c as int - 'a' as int + 10
    } else if 'A' <= c && c <= 'Z' {
        c as int - 'A' as int + 36
    } else {
        0
    }
}

/// Big-endian base-62 value of a digit string.
pub open spec fn base62_value(s: Seq<char>) -> int
    decreases s.len(),
{
    if s.len() == 0 {
        0
    } else {
        base62_value(s.drop_last()) * 62 + base62_digit(s.last())
    }
}

/// Number of base-62 digits in a catalog key.
pub const KEY_DIGITS: usize = 22;

/// A key token decodes when it has exactly 22 base-62 digits and its value
/// fits in 128 bits.
pub open spec fn decode_spec(s: Seq<char>) -> Option<u128> {
    if s.len() == KEY_DIGITS && (forall|i: int| 0 <= i < s.len() ==> is_alnum(#[trigger] s[i]))
        && base62_value(s) <= u128::MAX {
        Some(base62_value(s) as u128)
    } else {
        None
    }
}

/// `prefix` occurs at `i` and is followed by at least one alphanumeric character.
pub open spec fn matches_at(line: Seq<char>, prefix: Seq<char>, i: int) -> bool {
    &&& 0 <= i
    &&& i + prefix.len() < line.len()
    &&& line.subrange(i, i + prefix.len()) == prefix
    &&& is_alnum(line[i + prefix.len()])
}

/// The leftmost position at or after `i` where `prefix` matches.
pub open spec fn first_match(line: Seq<char>, prefix: Seq<char>, i: int) -> Option<int>
    decreases line.len() - i,
{
    if i < 0 || i >= line.len() {
        None
    } else if matches_at(line, prefix, i) {
        Some(i)
    } else {
        first_match(line, prefix, i + 1)
    }
}

/// End of the run of alphanumeric characters that starts at `k`.
pub open spec fn run_end(line: Seq<char>, k: int) -> int
    decreases line.len() - k,
{
    if 0 <= k < line.len() && is_alnum(line[k]) {
        run_end(line, k + 1)
    } else {
        k
    }
}

/// The longest alphanumeric token after the leftmost match of `prefix`.
pub open spec fn token_after(line: Seq<char>, prefix: Seq<char>) -> Option<Seq<char>> {
    match first_match(line, prefix, 0) {
        Some(i) => Some(line.subrange(i + prefix.len(), run_end(line, i + prefix.len()))),
        None => None,
    }
}

pub open spec fn track_uri_prefix() -> Seq<char> {
    "spotify:track:"@
}

pub open spec fn track_link_prefix() -> Seq<char> {
    "open.spotify.com/track/"@
}

pub open spec fn collection_link_prefix() -> Seq<char> {
    "open.spotify.com/playlist/"@
}

/// The token a line carries in the given mode: a track line may use the
/// short reference form or the web-link form (tried in that order); a
/// collection line uses the collection web-link form.
pub open spec fn token_in(line: Seq<char>, mode: Mode) -> Option<Seq<char>> {
    match mode {
        Mode::Tracks => match token_after(line, track_uri_prefix()) {
            Some(t) => Some(t),
            None => token_after(line, track_link_prefix()),
        },
        Mode::Collections => token_after(line, collection_link_prefix()),
    }
}

pub open spec fn make_id(mode: Mode, key: u128) -> CatalogId {
    match mode {
        Mode::Tracks => CatalogId::Track(key),
        Mode::Collections => CatalogId::Collection(key),
    }
}

pub open spec fn is_comment(line: Seq<char>) -> bool {
    line.len() > 0 && line[0] == '#'
}

/// Classification of one input line.
pub open spec fn line_spec(line: Seq<char>, mode: Mode) -> LineKind {
    if is_comment(line) {
        LineKind::Comment
    } else {
        match token_in(line, mode) {
            None => LineKind::NoPattern,
            Some(t) => match decode_spec(t) {
                Some(k) => LineKind::Parsed(make_id(mode, k)),
                None => LineKind::BadToken,
            },
        }
    }
}

pub fn is_alnum_char(c: char) -> (r: bool)
    ensures
        r == is_alnum(c),
{
    ('0' <= c && c <= '9') || ('a' <= c && c <= 'z') || ('A' <= c && c <= 'Z')
}

/// Relies on librespot-core's `SpotifyId::from_base62`: it accepts exactly
/// 22 bytes, each a digit of `0-9a-zA-Z`, accumulates them big-endian with
/// checked 128-bit arithmetic, and fails on anything else.
#[verifier::external_body]
fn from_base62(token: &str) -> (r: Option<u128>)
    ensures
        r == decode_spec(token@),
{
    librespot_core::SpotifyId::from_base62(token).ok().map(|id| id.id)
}

/// Tests whether `prefix` matches at position `i` of `line`.
fn matches_at_exec(line: &str, n: usize, prefix: &str, m: usize, i: usize) -> (r: bool)
    requires
        n == line@.len(),
        m == prefix@.len(),
        i < n,
    ensures
        r == matches_at(line@, prefix@, i as int),
{
    if m >= n - i {
        return false;
    }
    let mut k: usize = 0;
    while k < m
        invariant
            n == line@.len(),
            m == prefix@.len(),
            i + m < n,
            k <= m,
            forall|j: int| 0 <= j < k ==> line@[i + j] == prefix@[j],
        decreases m - k,
    {
        if line.get_char(i + k) != prefix.get_char(k) {
            assert(line@.subrange(i as int, i + m)[k as int] != prefix@[k as int]);
            return false;
        }
        k += 1;
    }
    assert(line@.subrange(i as int, i + m) == prefix@);
    is_alnum_char(line.get_char(i + m))
}

/// End of the alphanumeric run that starts at `k`.
fn run_end_exec(line: &str, n: usize, k: usize) -> (r: usize)
    requires
        n == line@.len(),
        k <= n,
    ensures
        r as int == run_end(line@, k as int),
        k <= r <= n,
{
    let mut j: usize = k;
    while j < n && is_alnum_char(line.get_char(j))
        invariant
            n == line@.len(),
            k <= j <= n,
            run_end(line@, k as int) == run_end(line@, j as int),
        decreases n - j,
    {
        j += 1;
    }
    j
}

/// Finds the token that follows the leftmost match of `prefix`, as a
/// character range of `line`.
fn find_token(line: &str, n: usize, prefix: &str) -> (r: Option<(usize, usize)>)
    requires
        n == line@.len(),
    ensures
        match r {
            Some((a, b)) => a <= b <= n && token_after(line@, prefix@) == Some(
                line@.subrange(a as int, b as int),
            ),
            None => token_after(line@, prefix@) is None,
        },
{
    let m = prefix.unicode_len();
    let mut i: usize = 0;
    while i < n
        invariant
            n == line@.len(),
            m == prefix@.len(),
            i <= n,
            first_match(line@, prefix@, 0) == first_match(line@, prefix@, i as int),
        decreases n - i,
    {
        if matches_at_exec(line, n, prefix, m, i) {
            let e = run_end_exec(line, n, i + m);
            return Some((i + m, e));
        }
        i += 1;
    }
    None
}

/// The token a line carries in `mode`, as a character range.
fn find_token_in(line: &str, n: usize, mode: Mode) -> (r: Option<(usize, usize)>)
    requires
        n == line@.len(),
    ensures
        match r {
            Some((a, b)) => a <= b <= n && token_in(line@, mode) == Some(
                line@.subrange(a as int, b as int),
            ),
            None => token_in(line@, mode) is None,
        },
{
    match mode {
        Mode::Tracks => {
            let short = find_token(line, n, "spotify:track:");
            if short.is_some() {
                short
            } else {
                find_token(line, n, "open.spotify.com/track/")
            }
        },
        Mode::Collections => find_token(line, n, "open.spotify.com/playlist/"),
    }
}

/// Classifies one input line: a comment, an identifier, or a line to warn
/// about and drop.
pub fn parse_line(line: &str, mode: Mode) -> (r: LineKind)
    ensures
        r == line_spec(line@, mode),
{
    let n = line.unicode_len();
    if n > 0 && line.get_char(0) == '#' {
        return LineKind::Comment;
    }
    match find_token_in(line, n, mode) {
        None => LineKind::NoPattern,
        Some((a, b)) => {
            let token = line.substring_char(a, b);
            match from_base62(token) {
                Some(k) => match mode {
                    Mode::Tracks => LineKind::Parsed(CatalogId::Track(k)),
                    Mode::Collections => LineKind::Parsed(CatalogId::Collection(k)),
                },
                None => LineKind::BadToken,
            }
        },
    }
}

/// Identifiers that a sequence of lines yields, in line order.
pub open spec fn extracted(lines: Seq<Seq<char>>, mode: Mode) -> Seq<CatalogId>
    decreases lines.len(),
{
    if lines.len() == 0 {
        Seq::empty()
    } else {
        let prev = extracted(lines.drop_last(), mode);
        match line_spec(lines.last(), mode) {
            LineKind::Parsed(id) => prev.push(id),
            _ => prev,
        }
    }
}

/// Positions of the lines that are warned about and dropped: neither a
/// comment nor a line that yields an identifier.
pub open spec fn rejected(lines: Seq<Seq<char>>, mode: Mode) -> Seq<int>
    decreases lines.len(),
{
    if lines.len() == 0 {
        Seq::empty()
    } else {
        let prev = rejected(lines.drop_last(), mode);
        match line_spec(lines.last(), mode) {
            LineKind::NoPattern | LineKind::BadToken => prev.push(lines.len() - 1),
            _ => prev,
        }
    }
}

/// The identifiers of a batch of lines, and the positions of the lines
/// that were dropped with a warning.
#[derive(Clone, Debug)]
pub struct Extraction {
    pub ids: Vec<CatalogId>,
    pub rejected: Vec<usize>,
}

/// Extracts identifiers from input lines; lines that carry none are
/// skipped and reported, never fatal.
pub fn extract_ids(lines: &Vec<String>, mode: Mode) -> (r: Extraction)
    ensures
        r.ids@ == extracted(string_views(lines@), mode),
        r.rejected@.map_values(|i: usize| i as int) == rejected(string_views(lines@), mode),
{
    let mut ids: Vec<CatalogId> = Vec::new();
    let mut bad: Vec<usize> = Vec::new();
    let mut k: usize = 0;
    while k < lines.len()
        invariant
            k <= lines@.len(),
            ids@ == extracted(string_views(lines@).take(k as int), mode),
            bad@.map_values(|i: usize| i as int) == rejected(string_views(lines@).take(k as int), mode),
        decreases lines.len() - k,
    {
        let ghost before = string_views(lines@).take(k as int);
        let kind = parse_line(lines[k].as_str(), mode);
        proof {
            let after = string_views(lines@).take(k + 1);
            assert(after.drop_last() == before);
            assert(after.last() == lines@[k as int]@);
        }
        match kind {
            LineKind::Parsed(id) => {
                ids.push(id);
            },
            LineKind::NoPattern | LineKind::BadToken => {
                bad.push(k);
                assert(bad@.map_values(|i: usize| i as int) == rejected(before, mode).push(k as int));
            },
            LineKind::Comment => {},
        }
        k += 1;
    }
    assert(string_views(lines@).take(lines@.len() as int) == string_views(lines@));
    Extraction { ids, rejected: bad }
}

proof fn lemma_extracted_concat(a: Seq<Seq<char>>, b: Seq<Seq<char>>, mode: Mode)
    ensures
        extracted(a + b, mode) == extracted(a, mode) + extracted(b, mode),
    decreases b.len(),
{
    if b.len() == 0 {
        assert(a + b == a);
    } else {
        lemma_extracted_concat(a, b.drop_last(), mode);
        assert((a + b).drop_last() == a + b.drop_last());
        assert((a + b).last() == b.last());
    }
}

/// A line that matches no accepted pattern is dropped: it contributes no
/// identifier, the lines around it yield exactly what they yield on their
/// own, and it is reported among the rejected lines.
pub proof fn lemma_unmatched_line_is_skipped(
    before: Seq<Seq<char>>,
    line: Seq<char>,
    after: Seq<Seq<char>>,
    mode: Mode,
)
    requires
        !is_comment(line),
        token_in(line, mode) is None,
    ensures
        extracted(before + seq![line] + after, mode) == extracted(before, mode) + extracted(
            after,
            mode,
        ),
        rejected(before + seq![line], mode).last() == before.len(),
{
    lemma_extracted_concat(before + seq![line], after, mode);
    lemma_extracted_concat(before, seq![line], mode);
    let one = seq![line];
    assert(one.drop_last() == Seq::<Seq<char>>::empty());
    assert(one.last() == line);
    assert(line_spec(line, mode) == LineKind::NoPattern);
    assert(extracted(Seq::<Seq<char>>::empty(), mode) == Seq::<CatalogId>::empty());
    assert(extracted(one, mode) == Seq::<CatalogId>::empty());
    let bl = before + seq![line];
    assert(bl.drop_last() == before);
    assert(extracted(before, mode) + Seq::<CatalogId>::empty() == extracted(before, mode));
}

} // verus!
