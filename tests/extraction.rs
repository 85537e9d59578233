use playlist_archiver::ids::{extract_ids, parse_line, CatalogId, LineKind, Mode};

#[test]
fn unmatched_line_is_skipped() {
    assert_eq!(parse_line("not a spotify url", Mode::Collections), LineKind::NoPattern);
    let lines = vec!["not a spotify url".to_string()];
    let r = extract_ids(&lines, Mode::Collections);
    assert!(r.ids.is_empty());
    assert_eq!(r.rejected, vec![0]);
}

#[test]
fn comment_line_is_ignored_silently() {
    let lines = vec!["# open.spotify.com/playlist/0000000000000000000001".to_string()];
    let r = extract_ids(&lines, Mode::Collections);
    assert!(r.ids.is_empty());
    assert!(r.rejected.is_empty());
}

#[test]
fn collection_link_is_parsed() {
    let line = "https://open.spotify.com/playlist/0000000000000000000010?si=abc";
    assert_eq!(parse_line(line, Mode::Collections), LineKind::Parsed(CatalogId::Collection(62)));
}

#[test]
fn track_forms_are_parsed() {
    assert_eq!(
        parse_line("spotify:track:000000000000000000000z", Mode::Tracks),
        LineKind::Parsed(CatalogId::Track(35))
    );
    assert_eq!(
        parse_line("https://open.spotify.com/track/000000000000000000000Z", Mode::Tracks),
        LineKind::Parsed(CatalogId::Track(61))
    );
}

#[test]
fn link_of_other_kind_is_not_matched() {
    let line = "https://open.spotify.com/track/0000000000000000000001";
    assert_eq!(parse_line(line, Mode::Collections), LineKind::NoPattern);
}

#[test]
fn prefix_without_token_is_not_matched() {
    assert_eq!(parse_line("open.spotify.com/playlist/", Mode::Collections), LineKind::NoPattern);
    assert_eq!(parse_line("open.spotify.com/playlist/?x", Mode::Collections), LineKind::NoPattern);
}

#[test]
fn bad_tokens_are_rejected() {
    // too short
    assert_eq!(
        parse_line("open.spotify.com/playlist/000000000000000000001", Mode::Collections),
        LineKind::BadToken
    );
    // too large for 128 bits
    assert_eq!(
        parse_line("open.spotify.com/playlist/ZZZZZZZZZZZZZZZZZZZZZZ", Mode::Collections),
        LineKind::BadToken
    );
}

fn key_of(token: &str) -> Option<u128> {
    match parse_line(&format!("spotify:track:{}", token), Mode::Tracks) {
        LineKind::Parsed(CatalogId::Track(k)) => Some(k),
        LineKind::BadToken => None,
        other => panic!("unexpected {:?}", other),
    }
}

#[test]
fn base62_values() {
    assert_eq!(key_of("0000000000000000000000"), Some(0));
    assert_eq!(key_of("0000000000000000000100"), Some(3844));
    assert_eq!(key_of("000000000000000000000a"), Some(10));
    assert_eq!(key_of("00000000000000000000000"), None);
    // 2^128 - 1 in base 62, then one more
    assert_eq!(key_of("7N42dgm5tFLK9N8MT7fHC7"), Some(u128::MAX));
    assert_eq!(key_of("7N42dgm5tFLK9N8MT7fHC8"), None);
}

#[test]
fn mixed_batch_keeps_order() {
    let lines = vec![
        "open.spotify.com/playlist/0000000000000000000001".to_string(),
        "garbage".to_string(),
        "#comment".to_string(),
        "x open.spotify.com/playlist/0000000000000000000002 y".to_string(),
        "open.spotify.com/playlist/bad".to_string(),
    ];
    let r = extract_ids(&lines, Mode::Collections);
    assert_eq!(r.ids, vec![CatalogId::Collection(1), CatalogId::Collection(2)]);
    assert_eq!(r.rejected, vec![1, 4]);
}
