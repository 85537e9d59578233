use playlist_archiver::media::{conversion_verdict, decode_media, strip_header, transcode_args, MediaError, HEADER_LEN};
use playlist_archiver::placement::{join, place, plan, sanitize, Plan};
use playlist_archiver::walker::{Outcome, Walk};

#[test]
fn separators_are_replaced() {
    assert_eq!(sanitize("AC/DC"), "AC-DC");
    assert_eq!(sanitize("a//b/"), "a--b-");
    assert_eq!(sanitize("plain"), "plain");
    assert_eq!(sanitize(""), "");
}

#[test]
fn names_are_joined() {
    let names = vec!["A".to_string(), "B".to_string(), "C".to_string()];
    assert_eq!(join(&names, ", "), "A, B, C");
    assert_eq!(join(&Vec::new(), ", "), "");
}

#[test]
fn collection_paths() {
    let artists = vec!["AC/DC".to_string(), "Other".to_string()];
    let p = place("music", "Road Trip", &artists, "Back/In Black");
    assert_eq!(p.dir, "music/Road Trip");
    assert_eq!(p.media, "music/Road Trip/AC-DC, Other - Back-In Black.ogg");
    assert_eq!(p.final_path, "music/Road Trip/AC-DC, Other - Back-In Black.mp3");
    assert_eq!(p.artist, "AC-DC, Other");
    assert_eq!(p.title, "Back-In Black");
    assert_eq!(p.final_path.matches('/').count(), 2);
}

#[test]
fn single_track_paths() {
    let artists = vec!["Solo".to_string()];
    let p = place("music", "", &artists, "Song");
    assert_eq!(p.dir, "music");
    assert_eq!(p.final_path, "music/Solo - Song.mp3");
}

#[test]
fn rerun_skips_and_refresh_retags() {
    assert_eq!(plan(false, false), Plan::Fetch);
    assert_eq!(plan(true, false), Plan::Skip);
    assert_eq!(plan(true, true), Plan::Retag);
    assert_eq!(plan(false, true), Plan::Fetch);
}

#[test]
fn header_is_stripped() {
    let mut data = vec![0u8; HEADER_LEN];
    data.extend_from_slice(&[1, 2, 3]);
    assert_eq!(strip_header(&data), Ok(vec![1, 2, 3]));
    assert_eq!(strip_header(&vec![0u8; HEADER_LEN]), Ok(Vec::new()));
    assert_eq!(strip_header(&vec![0u8; 10]), Err(MediaError::Truncated));
}

#[test]
fn transcode_arguments() {
    let a = transcode_args("in.ogg", "out.mp3");
    assert_eq!(
        a,
        vec![
            "-i", "in.ogg", "-map_metadata", "0:s:0", "-id3v2_version", "3", "-codec:a",
            "libmp3lame", "-qscale:a", "1", "out.mp3"
        ]
    );
    assert_eq!(conversion_verdict(true), Ok(()));
    assert_eq!(conversion_verdict(false), Err(MediaError::ConversionFailed));
}

#[test]
fn failing_member_does_not_stop_walk() {
    let mut w = Walk::new(vec![1, 2, 3]);
    assert_eq!(w.next_member(), Some(1));
    w.record(Outcome::Written);
    assert_eq!(w.next_member(), Some(2));
    w.record(Outcome::Failed);
    assert_eq!(w.next_member(), Some(3));
    w.record(Outcome::Written);
    assert_eq!(w.next_member(), None);
    let t = w.tally();
    assert_eq!((t.written, t.retagged, t.skipped, t.failed), (2, 0, 0, 1));
    assert_eq!(w.outcomes_vec(), vec![Outcome::Written, Outcome::Failed, Outcome::Written]);
}

#[test]
fn media_is_decrypted_then_stripped() {
    let mut raw = vec![0u8; HEADER_LEN];
    raw.extend_from_slice(&[9, 8, 7, 6]);
    assert_eq!(decode_media(None, &raw), Ok(vec![9, 8, 7, 6]));
    let keyed = decode_media(Some([1u8; 16]), &raw).unwrap();
    assert_eq!(keyed.len(), 4);
    assert_ne!(keyed, vec![9, 8, 7, 6]);
    assert_eq!(decode_media(Some([1u8; 16]), &vec![0u8; 5]), Err(MediaError::Truncated));
}

#[test]
fn separators_never_add_segments() {
    let artists = vec!["a/b".to_string(), "/c/".to_string()];
    let p = place("music", "Mix", &artists, "x/y/z");
    assert_eq!(p.final_path, "music/Mix/a-b, -c- - x-y-z.mp3");
    assert_eq!(p.media, "music/Mix/a-b, -c- - x-y-z.ogg");
    assert_eq!(std::path::Path::new(&p.final_path).components().count(), 3);
    let single = place("music", "", &artists, "x/y/z");
    assert_eq!(std::path::Path::new(&single.final_path).components().count(), 2);
}
