use vstd::prelude::*;

verus! {

/// `s` with every path separator replaced by a dash.
pub open spec fn sanitized(s: Seq<char>) -> Seq<char> {
    s.map_values(|c: char| if c == '/' { '-' } else { c })
}

/// The items of `names` with `sep` between neighbours.
pub open spec fn joined(names: Seq<Seq<char>>, sep: Seq<char>) -> Seq<char>
    decreases names.len(),
{
    if names.len() == 0 {
        Seq::empty()
    } else if names.len() == 1 {
        names[0]
    } else {
        joined(names.drop_last(), sep) + sep + names.last()
    }
}

/// File name stem: the artists joined by ", ", then " - " and the title,
/// with path separators replaced.
pub open spec fn stem_spec(artists: Seq<Seq<char>>, title: Seq<char>) -> Seq<char> {
    sanitized(joined(artists, ", "@) + " - "@ + title)
}

/// Destination directory: the root, or the collection's directory under it.
pub open spec fn dir_spec(root: Seq<char>, collection: Seq<char>) -> Seq<char> {
    if collection.len() == 0 {
        root
    } else {
        root + "/"@ + collection
    }
}

pub open spec fn media_path_spec(
    root: Seq<char>,
    collection: Seq<char>,
    artists: Seq<Seq<char>>,
    title: Seq<char>,
) -> Seq<char> {
    dir_spec(root, collection) + "/"@ + stem_spec(artists, title) + ".ogg"@
}

pub open spec fn final_path_spec(
    root: Seq<char>,
    collection: Seq<char>,
    artists: Seq<Seq<char>>,
    title: Seq<char>,
) -> Seq<char> {
    dir_spec(root, collection) + "/"@ + stem_spec(artists, title) + ".mp3"@
}

pub open spec fn string_views(v: Seq<String>) -> Seq<Seq<char>> {
    v.map_values(|s: String| s@)
}

/// Where a track's files go.
#[derive(Clone, Debug)]
pub struct OutputPaths {
    /// Directory that holds both files.
    pub dir: String,
    /// The decoded download, before conversion.
    pub media: String,
    /// The converted, tagged file.
    pub final_path: String,
    /// The sanitized artist string.
    pub artist: String,
    /// The sanitized title.
    pub title: String,
}

/// Replaces every path separator of `s` by a dash.
pub fn sanitize(s: &str) -> (r: String)
    ensures
        r@ == sanitized(s@),
{
    let n = s.unicode_len();
    let mut out = String::new();
    let mut i: usize = 0;
    while i < n
        invariant
            n == s@.len(),
            i <= n,
            out@ == sanitized(s@.take(i as int)),
        decreases n - i,
    {
        let c = s.get_char(i);
        if c == '/' {
            out.append("-");
            proof {
                reveal_strlit("-");
            }
        } else {
            out.append(s.substring_char(i, i + 1));
        }
        assert(sanitized(s@.take(i + 1)) == sanitized(s@.take(i as int)) + seq![
            if c == '/' { '-' } else { c },
        ]);
        i += 1;
    }
    assert(s@.take(n as int) == s@);
    out
}

/// Joins names with `sep` between neighbours.
pub fn join(names: &Vec<String>, sep: &str) -> (r: String)
    ensures
        r@ == joined(string_views(names@), sep@),
{
    let mut out = String::new();
    let mut k: usize = 0;
    while k < names.len()
        invariant
            k <= names@.len(),
            out@ == joined(string_views(names@).take(k as int), sep@),
        decreases names.len() - k,
    {
        let ghost before = string_views(names@).take(k as int);
        proof {
            let after = string_views(names@).take(k + 1);
            assert(after.drop_last() == before);
            assert(after.last() == names@[k as int]@);
        }
        if k > 0 {
            out.append(sep);
        }
        out.append(names[k].as_str());
        k += 1;
    }
    assert(string_views(names@).take(names@.len() as int) == string_views(names@));
    out
}

/// Computes a track's destination from the output root, the enclosing
/// collection's name (empty for a single track), the artist names and the
/// title.
pub fn place(root: &str, collection: &str, artists: &Vec<String>, title: &str) -> (r: OutputPaths)
    ensures
        r.dir@ == dir_spec(root@, collection@),
        r.media@ == media_path_spec(root@, collection@, string_views(artists@), title@),
        r.final_path@ == final_path_spec(root@, collection@, string_views(artists@), title@),
        r.artist@ == sanitized(joined(string_views(artists@), ", "@)),
        r.title@ == sanitized(title@),
{
    let names = join(artists, ", ");
    let mut raw_stem = names.clone();
    raw_stem.append(" - ");
    raw_stem.append(title);
    let stem = sanitize(raw_stem.as_str());
    let mut dir = String::from_str(root);
    if collection.unicode_len() > 0 {
        dir.append("/");
        dir.append(collection);
    }
    let mut media = dir.clone();
    media.append("/");
    media.append(stem.as_str());
    let mut final_path = media.clone();
    media.append(".ogg");
    final_path.append(".mp3");
    let artist = sanitize(names.as_str());
    let t = sanitize(title);
    OutputPaths { dir, media, final_path, artist, title: t }
}

/// Number of path separators in `s`.
pub open spec fn separators(s: Seq<char>) -> nat
    decreases s.len(),
{
    if s.len() == 0 {
        0
    } else {
        separators(s.drop_last()) + if s.last() == '/' {
            1nat
        } else {
            0nat
        }
    }
}

proof fn lemma_separators_add(a: Seq<char>, b: Seq<char>)
    ensures
        separators(a + b) == separators(a) + separators(b),
    decreases b.len(),
{
    if b.len() == 0 {
        assert(a + b == a);
    } else {
        lemma_separators_add(a, b.drop_last());
        assert((a + b).drop_last() == a + b.drop_last());
    }
}

proof fn lemma_no_separators(s: Seq<char>)
    requires
        forall|i: int| 0 <= i < s.len() ==> s[i] != '/',
    ensures
        separators(s) == 0,
    decreases s.len(),
{
    if s.len() > 0 {
        lemma_no_separators(s.drop_last());
    }
}

/// A sanitized string holds no path separator, whatever the input held.
pub proof fn lemma_sanitized_has_no_separator(s: Seq<char>)
    ensures
        forall|i: int| 0 <= i < sanitized(s).len() ==> sanitized(s)[i] != '/',
        separators(sanitized(s)) == 0,
        sanitized(s).len() == s.len(),
{
    lemma_no_separators(sanitized(s));
}

/// The final path has exactly one separator more than its directory: the
/// artist and title can never add a path segment, whatever they hold.
pub proof fn lemma_final_path_segments(
    root: Seq<char>,
    collection: Seq<char>,
    artists: Seq<Seq<char>>,
    title: Seq<char>,
)
    ensures
        separators(final_path_spec(root, collection, artists, title)) == separators(
            dir_spec(root, collection),
        ) + 1,
        separators(dir_spec(root, collection)) == separators(root) + if collection.len() == 0 {
            0nat
        } else {
            separators(collection) + 1
        },
{
    reveal_strlit("/");
    reveal_strlit(".mp3");
    let d = dir_spec(root, collection);
    let st = stem_spec(artists, title);
    lemma_sanitized_has_no_separator(joined(artists, ", "@) + " - "@ + title);
    lemma_no_separators(".mp3"@);
    assert(separators("/"@) == 1) by {
        assert("/"@.drop_last() == Seq::<char>::empty());
        assert("/"@.last() == '/');
        assert(separators(Seq::<char>::empty()) == 0);
    }
    lemma_separators_add(d, "/"@);
    lemma_separators_add(d + "/"@, st);
    lemma_separators_add(d + "/"@ + st, ".mp3"@);
    if collection.len() > 0 {
        lemma_separators_add(root, "/"@);
        lemma_separators_add(root + "/"@, collection);
    }
}

/// With a root and a collection name that hold no separator, the final path
/// of a collection member is `root/collection/name`: the file name holds no
/// separator, whatever the artists and the title hold, so the path has
/// exactly three segments. A single track's path is `root/name`, two segments.
pub proof fn lemma_final_path_shape(
    root: Seq<char>,
    collection: Seq<char>,
    artists: Seq<Seq<char>>,
    title: Seq<char>,
)
    requires
        forall|i: int| 0 <= i < root.len() ==> root[i] != '/',
        forall|i: int| 0 <= i < collection.len() ==> collection[i] != '/',
    ensures
        ({
            let name = stem_spec(artists, title) + ".mp3"@;
            let p = final_path_spec(root, collection, artists, title);
            &&& forall|i: int| 0 <= i < name.len() ==> name[i] != '/'
            &&& collection.len() > 0 ==> p == root + "/"@ + collection + "/"@ + name
                && separators(p) == 2
            &&& collection.len() == 0 ==> p == root + "/"@ + name && separators(p) == 1
        }),
{
    reveal_strlit(".mp3");
    let name = stem_spec(artists, title) + ".mp3"@;
    let st = stem_spec(artists, title);
    lemma_sanitized_has_no_separator(joined(artists, ", "@) + " - "@ + title);
    assert forall|i: int| 0 <= i < name.len() implies name[i] != '/' by {
        if i >= st.len() {
            assert(name[i] == ".mp3"@[i - st.len()]);
        }
    }
    lemma_no_separators(root);
    lemma_no_separators(collection);
    lemma_final_path_segments(root, collection, artists, title);
    let d = dir_spec(root, collection);
    assert(d + "/"@ + st + ".mp3"@ == d + "/"@ + name);
    if collection.len() > 0 {
        assert(root + "/"@ + collection + "/"@ + name == d + "/"@ + name);
    }
}

/// What a run does for a track whose destination has been computed.
#[derive(PartialEq, Eq, Structural, Clone, Copy, Debug)]
pub enum Plan {
    /// The final file exists and no refresh was asked for: do nothing.
    Skip,
    /// The final file exists and a refresh was asked for: rewrite its tags only.
    Retag,
    /// The final file is missing: fetch, convert, then tag.
    Fetch,
}

pub open spec fn plan_spec(final_exists: bool, force_refresh: bool) -> Plan {
    if !final_exists {
        Plan::Fetch
    } else if force_refresh {
        Plan::Retag
    } else {
        Plan::Skip
    }
}

/// Decides how much work a track needs.
pub fn plan(final_exists: bool, force_refresh: bool) -> (r: Plan)
    ensures
        r == plan_spec(final_exists, force_refresh),
{
    if !final_exists {
        Plan::Fetch
    } else if force_refresh {
        Plan::Retag
    } else {
        Plan::Skip
    }
}

impl Plan {
    /// The plan runs the transfer and the conversion.
    pub open spec fn transfers(self) -> bool {
        self == Plan::Fetch
    }

    /// The plan writes tags (after a successful transfer, for `Fetch`).
    pub open spec fn writes_tags(self) -> bool {
        self != Plan::Skip
    }
}

/// Whether the final file exists after a run that followed `p` and whose
/// transfer and conversion, if any, succeeded (`completed`).
pub open spec fn exists_after(final_exists: bool, p: Plan, completed: bool) -> bool {
    final_exists || (p.transfers() && completed)
}

/// Running twice without a refresh transfers and converts at most once, and
/// exactly once when the file was missing; the second run touches neither
/// the file nor its tags.
pub proof fn lemma_rerun_is_idempotent(final_exists: bool)
    ensures
        ({
            let first = plan_spec(final_exists, false);
            let second = plan_spec(exists_after(final_exists, first, true), false);
            &&& second == Plan::Skip
            &&& !second.transfers() && !second.writes_tags()
            &&& first.transfers() == !final_exists
        }),
{
}

/// With a refresh, a run against an existing final file rewrites its tags
/// and neither transfers nor converts again.
pub proof fn lemma_refresh_retags_only(final_exists: bool, completed: bool)
    ensures
        ({
            let first = plan_spec(final_exists, true);
            let second = plan_spec(exists_after(final_exists, first, completed), true);
            exists_after(final_exists, first, completed) ==> second == Plan::Retag
                && second.writes_tags() && !second.transfers()
        }),
{
}

} // verus!
