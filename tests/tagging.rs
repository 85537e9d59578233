use playlist_archiver::format::Bitrate;
use playlist_archiver::tags::{
    artwork_request, build_tags, cover_url, select_cover, synthesize_tags, CoverImage, ImageSize,
    Stamp, TrackInfo,
};

fn info(collection: &str, genres: &[&str]) -> TrackInfo {
    TrackInfo {
        title: "Song".to_string(),
        album: "Album".to_string(),
        artists: vec!["A/B".to_string(), "C".to_string()],
        collection: collection.to_string(),
        genres: genres.iter().map(|g| g.to_string()).collect(),
    }
}

fn stamp() -> Stamp {
    Stamp { year: 2024, month: 5, day: 17, hour: 13, minute: 4, second: 59 }
}

#[test]
fn tag_fields() {
    let t = build_tags(&info("Mix", &["rock", "pop"]), stamp(), None, Some(vec![1, 2]));
    assert_eq!(t.title, "Song");
    assert_eq!(t.album, "Album");
    assert_eq!(t.artist, "A/B, C");
    assert_eq!(t.collection_tag, Some("Mix".to_string()));
    assert_eq!(t.released, stamp());
    assert_eq!(t.comments, vec!["Collection: Mix, Genres: rock, pop".to_string()]);
    let p = t.picture.unwrap();
    assert_eq!(p.data, vec![1, 2]);
    assert_eq!(p.mime_type, "image/jpeg");
    assert_eq!(p.description, "Cover Image");
}

#[test]
fn genre_clause_omitted_without_genres() {
    let t = build_tags(&info("Mix", &[]), stamp(), Some(Bitrate::Kbps160), None);
    assert_eq!(
        t.comments,
        vec!["Collection: Mix".to_string(), "Bitrate: 160 kbps".to_string()]
    );
}

#[test]
fn single_track_has_no_genre() {
    let t = build_tags(&info("", &[]), stamp(), None, None);
    assert_eq!(t.collection_tag, None);
    assert!(t.comments.is_empty());
    let t = build_tags(&info("", &["jazz"]), stamp(), None, None);
    assert_eq!(t.comments, vec!["Genres: jazz".to_string()]);
}

#[test]
fn artwork_omitted_when_fetch_fails_or_is_empty() {
    assert!(build_tags(&info("Mix", &[]), stamp(), None, None).picture.is_none());
    assert!(build_tags(&info("Mix", &[]), stamp(), None, Some(Vec::new())).picture.is_none());
    assert!(artwork_request(&Vec::new()).is_none());
}

#[test]
fn smallest_cover_first() {
    let covers = vec![
        CoverImage { file: [1; 20], size: ImageSize::Large },
        CoverImage { file: [2; 20], size: ImageSize::Small },
        CoverImage { file: [3; 20], size: ImageSize::Small },
        CoverImage { file: [4; 20], size: ImageSize::Default },
    ];
    assert_eq!(select_cover(&covers), Some(1));
    assert_eq!(select_cover(&Vec::new()), None);
}

#[test]
fn cover_url_is_hex() {
    let mut f = [0u8; 20];
    f[0] = 0xab;
    f[19] = 0x0f;
    assert_eq!(
        cover_url(&f),
        "https://i.scdn.co/image/ab0000000000000000000000000000000000000f"
    );
    let covers = vec![CoverImage { file: [0xff; 20], size: ImageSize::XLarge }];
    assert_eq!(
        artwork_request(&covers),
        Some(format!("https://i.scdn.co/image/{}", "ff".repeat(20)))
    );
}

#[test]
fn current_time_is_in_range() {
    let t = synthesize_tags(&info("Mix", &[]), None, None);
    let r = t.released;
    assert!((1..=12).contains(&r.month) && (1..=31).contains(&r.day));
    assert!(r.hour < 24 && r.minute < 60 && r.second < 60);
    assert!(r.year >= 2020);
}
