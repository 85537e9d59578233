use playlist_archiver::availability::{Resolver, Step};
use playlist_archiver::format::{formats_are_unique, select_format, AudioFormat, Bitrate, FormatEntry};

fn entry(format: AudioFormat, b: u8) -> FormatEntry {
    FormatEntry { format, file: [b; 20] }
}

#[test]
fn high_bitrate_is_preferred() {
    let table = vec![
        entry(AudioFormat::OggVorbis160, 1),
        entry(AudioFormat::Mp3_96, 2),
        entry(AudioFormat::OggVorbis320, 3),
    ];
    let s = select_format(&table).unwrap();
    assert_eq!(s.file, [3; 20]);
    assert_eq!(s.bitrate, Bitrate::Kbps320);
    assert!(!s.degraded);
    assert_eq!(s.bitrate.kbps(), 320);
}

#[test]
fn medium_bitrate_is_degraded() {
    let table = vec![entry(AudioFormat::Aac24, 1), entry(AudioFormat::OggVorbis160, 2)];
    let s = select_format(&table).unwrap();
    assert_eq!(s.file, [2; 20]);
    assert_eq!(s.bitrate, Bitrate::Kbps160);
    assert!(s.degraded);
}

#[test]
fn no_acceptable_format_lists_available() {
    let table = vec![entry(AudioFormat::Mp3_320, 1), entry(AudioFormat::Aac48, 2)];
    let e = select_format(&table).unwrap_err();
    assert_eq!(e.available, vec![AudioFormat::Mp3_320, AudioFormat::Aac48]);
    let empty: Vec<FormatEntry> = Vec::new();
    assert!(select_format(&empty).unwrap_err().available.is_empty());
}

#[test]
fn available_track_is_used_directly() {
    let (_, step) = Resolver::start(false, vec![7, 8]);
    assert_eq!(step, Step::Use);
}

#[test]
fn first_available_alternative_wins() {
    // primary restricted, alternatives [A, B], A available
    let (mut r, step) = Resolver::start(true, vec![10, 11]);
    assert_eq!(step, Step::Fetch(10));
    assert_eq!(r.on_candidate(false), Step::Use);
}

#[test]
fn restricted_alternatives_are_tried_in_order() {
    let (mut r, step) = Resolver::start(true, vec![10, 11, 12]);
    assert_eq!(step, Step::Fetch(10));
    assert_eq!(r.on_candidate(true), Step::Fetch(11));
    assert_eq!(r.on_candidate(false), Step::Use);
}

#[test]
fn no_playable_alternative_gives_up() {
    let (mut r, step) = Resolver::start(true, vec![10]);
    assert_eq!(step, Step::Fetch(10));
    assert_eq!(r.on_candidate(true), Step::GiveUp);
    let (_, step) = Resolver::start(true, Vec::new());
    assert_eq!(step, Step::GiveUp);
}

#[test]
fn duplicate_formats_are_detected() {
    let unique = vec![entry(AudioFormat::OggVorbis160, 1), entry(AudioFormat::OggVorbis320, 2)];
    assert!(formats_are_unique(&unique));
    assert!(formats_are_unique(&Vec::new()));
    let twice = vec![
        entry(AudioFormat::OggVorbis160, 1),
        entry(AudioFormat::Mp3_96, 2),
        entry(AudioFormat::OggVorbis160, 3),
    ];
    assert!(!formats_are_unique(&twice));
}
