use chrono::{Datelike, Timelike};
use vstd::prelude::*;

use crate::format::{Bitrate, FileKey};
use crate::placement::{join, joined, string_views};

verus! {

/// A calendar date and wall-clock time, to the second.
#[derive(PartialEq, Eq, Structural, Clone, Copy, Debug)]
pub struct Stamp {
    pub year: i32,
    pub month: u8,
    pub day: u8,
    pub hour: u8,
    pub minute: u8,
    pub second: u8,
}

impl Stamp {
    pub open spec fn wf(&self) -> bool {
        &&& 1 <= self.month <= 12
        &&& 1 <= self.day <= 31
        &&& self.hour < 24
        &&& self.minute < 60
        &&& self.second < 60
    }
}

/// Relies on chrono's `From<SystemTime> for DateTime<Local>` and the
/// `Datelike` / `Timelike` accessors, whose documented ranges are month 1-12,
/// day 1-31, hour 0-23, minute and second 0-59. The conversion takes a clock
/// that reads before 1970 as negative seconds rather than failing, and uses
/// the system's zone data, falling back to UTC when none can be loaded. The
/// value depends on the clock.
#[verifier::external_body]
fn local_now() -> (r: Stamp)
    ensures
        r.wf(),
{
    let now = chrono::DateTime::<chrono::Local>::from(std::time::SystemTime::now());
    Stamp {
        year: now.year(),
        month: now.month() as u8,
        day: now.day() as u8,
        hour: now.hour() as u8,
        minute: now.minute() as u8,
        second: now.second() as u8,
    }
}

/// The catalog's size classes for cover images.
#[derive(PartialEq, Eq, Structural, Clone, Copy, Debug)]
pub enum ImageSize {
    Small,
    Default,
    Large,
    XLarge,
}

/// Position of a size class in pixel order, smallest first.
pub open spec fn size_rank(s: ImageSize) -> int {
    match s {
        ImageSize::Small => 0,
        ImageSize::Default => 1,
        ImageSize::Large => 2,
        ImageSize::XLarge => 3,
    }
}

fn rank(s: ImageSize) -> (r: u8)
    ensures
        r as int == size_rank(s),
{
    match s {
        ImageSize::Small => 0,
        ImageSize::Default => 1,
        ImageSize::Large => 2,
        ImageSize::XLarge => 3,
    }
}

/// One cover image that an album lists.
#[derive(Clone, Copy, Debug)]
pub struct CoverImage {
    pub file: FileKey,
    pub size: ImageSize,
}

/// `i` is the cover that a stable ascending sort by size puts first: of the
/// smallest size class, and the earliest listed among those.
pub open spec fn is_first_smallest(covers: Seq<CoverImage>, i: int) -> bool {
    &&& 0 <= i < covers.len()
    &&& forall|j: int| 0 <= j < covers.len() ==> size_rank(covers[i].size) <= size_rank(#[trigger] covers[j].size)
    &&& forall|j: int| 0 <= j < i ==> size_rank(covers[i].size) < size_rank(#[trigger] covers[j].size)
}

/// Picks the cover to embed: the first of the smallest size class, or none
/// when the album lists no cover.
pub fn select_cover(covers: &Vec<CoverImage>) -> (r: Option<usize>)
    ensures
        match r {
            Some(i) => is_first_smallest(covers@, i as int),
            None => covers@.len() == 0,
        },
{
    if covers.len() == 0 {
        return None;
    }
    let mut best: usize = 0;
    let mut k: usize = 1;
    while k < covers.len()
        invariant
            1 <= k <= covers@.len(),
            best < k,
            forall|j: int| 0 <= j < k ==> size_rank(covers@[best as int].size) <= size_rank(#[trigger] covers@[j].size),
            forall|j: int| 0 <= j < best ==> size_rank(covers@[best as int].size) < size_rank(#[trigger] covers@[j].size),
        decreases covers.len() - k,
    {
        if rank(covers[k].size) < rank(covers[best].size) {
            best = k;
        }
        k += 1;
    }
    Some(best)
}

pub open spec fn hex_digit(d: int) -> char {
    "0123456789abcdef"@[d]
}

/// Lower-case hexadecimal, two digits per byte.
pub open spec fn hex_of(b: Seq<u8>) -> Seq<char>
    decreases b.len(),
{
    if b.len() == 0 {
        Seq::empty()
    } else {
        hex_of(b.drop_last()) + seq![hex_digit(b.last() as int / 16), hex_digit(b.last() as int % 16)]
    }
}

pub open spec fn cover_url_spec(file: Seq<u8>) -> Seq<char> {
    "https://i.scdn.co/image/"@ + hex_of(file)
}

/// The address an image is fetched from.
pub fn cover_url(file: &FileKey) -> (r: String)
    ensures
        r@ == cover_url_spec(file@),
{
    let digits = "0123456789abcdef";
    proof {
        reveal_strlit("0123456789abcdef");
    }
    let mut out = String::from_str("https://i.scdn.co/image/");
    let mut k: usize = 0;
    while k < 20
        invariant
            k <= 20,
            file@.len() == 20,
            digits@ == "0123456789abcdef"@,
            digits@.len() == 16,
            out@ == "https://i.scdn.co/image/"@ + hex_of(file@.take(k as int)),
        decreases 20 - k,
    {
        let b = file[k];
        let hi = (b / 16) as usize;
        let lo = (b % 16) as usize;
        out.append(digits.substring_char(hi, hi + 1));
        out.append(digits.substring_char(lo, lo + 1));
        proof {
            let t = file@.take(k + 1);
            assert(t.drop_last() == file@.take(k as int));
            assert(t.last() == b);
            assert(digits@.subrange(hi as int, hi + 1) == seq![hex_digit(b as int / 16)]);
            assert(digits@.subrange(lo as int, lo + 1) == seq![hex_digit(b as int % 16)]);
        }
        k += 1;
    }
    assert(file@.take(20) == file@);
    out
}

/// The URL to fetch for an album's artwork, or none when it lists no cover.
pub fn artwork_request(covers: &Vec<CoverImage>) -> (r: Option<String>)
    ensures
        match r {
            Some(u) => exists|i: int| is_first_smallest(covers@, i) && u@ == cover_url_spec(
                covers@[i].file@,
            ),
            None => covers@.len() == 0,
        },
{
    match select_cover(covers) {
        Some(i) => Some(cover_url(&covers[i].file)),
        None => None,
    }
}

/// Embedded artwork: a front cover in JPEG.
#[derive(Clone, Debug)]
pub struct Picture {
    pub mime_type: String,
    pub description: String,
    pub data: Vec<u8>,
}

/// The catalog facts a tag is built from.
#[derive(Clone, Debug)]
pub struct TrackInfo {
    pub title: String,
    pub album: String,
    pub artists: Vec<String>,
    /// Name of the enclosing collection; empty for a single track.
    pub collection: String,
    /// The album's genres.
    pub genres: Vec<String>,
}

/// An assembled tag.
#[derive(Clone, Debug)]
pub struct TagRecord {
    pub title: String,
    pub album: String,
    pub artist: String,
    /// The name of the collection the track was fetched from; written to
    /// the genre frame.
    pub collection_tag: Option<String>,
    pub released: Stamp,
    pub comments: Vec<String>,
    pub picture: Option<Picture>,
}

pub open spec fn bitrate_label(b: Bitrate) -> Seq<char> {
    match b {
        Bitrate::Kbps320 => "320"@,
        Bitrate::Kbps160 => "160"@,
    }
}

/// The main comment: "Collection: <name>" and "Genres: <g1, g2>", each only
/// when non-empty, separated by ", ".
pub open spec fn info_comment(collection: Seq<char>, genres: Seq<Seq<char>>) -> Seq<char> {
    let c = "Collection: "@ + collection;
    let g = "Genres: "@ + joined(genres, ", "@);
    if collection.len() > 0 && genres.len() > 0 {
        c + ", "@ + g
    } else if collection.len() > 0 {
        c
    } else {
        g
    }
}

/// The comments of a tag: the main one unless there is nothing to say, then
/// one that names the bitrate when the preferred one was not available.
pub open spec fn comments_spec(
    collection: Seq<char>,
    genres: Seq<Seq<char>>,
    degraded: Option<Bitrate>,
) -> Seq<Seq<char>> {
    let first: Seq<Seq<char>> = if collection.len() > 0 || genres.len() > 0 {
        seq![info_comment(collection, genres)]
    } else {
        Seq::empty()
    };
    match degraded {
        Some(b) => first.push("Bitrate: "@ + bitrate_label(b) + " kbps"@),
        None => first,
    }
}

/// Every field of `r` but the release stamp is what `info`, the degraded
/// bitrate and the fetched artwork give.
pub open spec fn tags_from(
    r: TagRecord,
    info: TrackInfo,
    degraded: Option<Bitrate>,
    artwork: Option<Vec<u8>>,
) -> bool {
    &&& r.title@ == info.title@
    &&& r.album@ == info.album@
    &&& r.artist@ == joined(string_views(info.artists@), ", "@)
    &&& (r.collection_tag is Some) == (info.collection@.len() > 0)
    &&& (r.collection_tag matches Some(g) ==> g@ == info.collection@)
    &&& string_views(r.comments@) == comments_spec(
        info.collection@,
        string_views(info.genres@),
        degraded,
    )
    &&& (r.picture is Some) == (artwork matches Some(d) && d@.len() > 0)
    &&& (r.picture matches Some(p) ==> {
        &&& artwork matches Some(d) && p.data@ == d@
        &&& p.mime_type@ == "image/jpeg"@
        &&& p.description@ == "Cover Image"@
    })
}

/// The main comment's text.
fn info_text(collection: &str, genres: &Vec<String>) -> (r: String)
    ensures
        r@ == info_comment(collection@, string_views(genres@)),
{
    let has_collection = collection.unicode_len() > 0;
    let has_genres = genres.len() > 0;
    let mut text = String::new();
    if has_collection {
        text.append("Collection: ");
        text.append(collection);
        if has_genres {
            text.append(", ");
        }
    }
    if has_genres || !has_collection {
        text.append("Genres: ");
        let g = join(genres, ", ");
        text.append(g.as_str());
    }
    assert(Seq::<char>::empty() + "Collection: "@ == "Collection: "@);
    assert(Seq::<char>::empty() + "Genres: "@ == "Genres: "@);
    text
}

/// Assembles a tag from catalog facts, the moment of tagging, the bitrate
/// reached when the preferred one was missing, and the artwork fetched (none
/// when the fetch failed or the album has no cover; an empty body counts as
/// none).
pub fn build_tags(
    info: &TrackInfo,
    released: Stamp,
    degraded: Option<Bitrate>,
    artwork: Option<Vec<u8>>,
) -> (r: TagRecord)
    ensures
        tags_from(r, *info, degraded, artwork),
        r.released == released,
{
    let has_collection = info.collection.as_str().unicode_len() > 0;
    let mut comments: Vec<String> = Vec::new();
    if has_collection || info.genres.len() > 0 {
        comments.push(info_text(info.collection.as_str(), &info.genres));
    }
    let ghost first = string_views(comments@);
    match degraded {
        Some(b) => {
            let mut text = String::from_str("Bitrate: ");
            match b {
                Bitrate::Kbps320 => text.append("320"),
                Bitrate::Kbps160 => text.append("160"),
            }
            text.append(" kbps");
            comments.push(text);
            assert(string_views(comments@) == first.push(text@));
        },
        None => {},
    }
    let picture = match artwork {
        Some(data) => if data.len() > 0 {
            Some(
                Picture {
                    mime_type: String::from_str("image/jpeg"),
                    description: String::from_str("Cover Image"),
                    data,
                },
            )
        } else {
            None
        },
        None => None,
    };
    let collection_tag = if has_collection {
        Some(info.collection.clone())
    } else {
        None
    };
    assert(string_views(comments@) == comments_spec(
        info.collection@,
        string_views(info.genres@),
        degraded,
    ));
    TagRecord {
        title: info.title.clone(),
        album: info.album.clone(),
        artist: join(&info.artists, ", "),
        collection_tag,
        released,
        comments,
        picture,
    }
}

/// Assembles a tag stamped with the current local time.
pub fn synthesize_tags(info: &TrackInfo, degraded: Option<Bitrate>, artwork: Option<Vec<u8>>) -> (r:
    TagRecord)
    ensures
        tags_from(r, *info, degraded, artwork),
        r.released.wf(),
{
    let now = local_now();
    build_tags(info, now, degraded, artwork)
}

/// No artwork frame is written when the fetch failed or returned an empty
/// body; an album with no cover gives no request at all (`artwork_request`),
/// hence no artwork either.
pub proof fn lemma_artwork_omitted(
    r: TagRecord,
    info: TrackInfo,
    degraded: Option<Bitrate>,
    artwork: Option<Vec<u8>>,
)
    requires
        tags_from(r, info, degraded, artwork),
        artwork is None || (artwork matches Some(d) && d@.len() == 0),
    ensures
        r.picture is None,
{
}

} // verus!
