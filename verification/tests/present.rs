use cmus_notify::metadata::Metadata;

#[test]
fn test_get_title_no_tags() {
    let meta = Metadata { artist: "".to_string(), title: "".to_string(), ..Default::default() };
    assert_eq!(meta.get_title(), "C* Music Player");
}

#[test]
fn test_get_title_artist_only() {
    let meta = Metadata { artist: "L'artist".to_string(), ..Default::default() };
    assert_eq!(meta.get_title(), "C* Music Player");
}

#[test]
fn test_get_title_title_only() {
    let meta = Metadata { title: "Le Title".to_string(), ..Default::default() };
    assert_eq!(meta.get_title(), "C* Music Player");
}

#[test]
fn test_get_title_both() {
    let meta = Metadata {
        artist: "L'artist".to_string(),
        title: "Le Title".to_string(),
        ..Default::default()
    };
    assert_eq!(meta.get_title(), "L'artist - Le Title");
}

#[test]
fn test_get_message() {
    let meta = Metadata { album: "L'album".to_string(), ..Default::default() };

    assert_eq!(meta.get_message(), "L'album\n".to_string())
}

#[test]
fn test_get_message_full() {
    let meta = Metadata {
        album: "Album".to_string(),
        tracknumber: 2,
        discnumber: 1,
        position: 14,
        duration: 123,
        status: "stopped".to_string(),
        ..Default::default()
    };

    assert_eq!(
        meta.get_message(),
        String::from("Album [Stopped]\ndisc 1, track 2, 00:14 / 02:03")
    )
}

#[test]
fn test_get_message_paused_track() {
    let meta = Metadata {
        album: "L'Album".to_string(),
        status: "paused".to_string(),
        tracknumber: 1,
        ..Default::default()
    };
    assert_eq!(meta.get_message(), "L'Album [Paused]\ntrack 1");
}

#[test]
fn test_get_message_empty_album_with_suffix() {
    let meta = Metadata { status: "paused".to_string(), ..Default::default() };
    assert_eq!(meta.get_message(), " [Paused]\n");
}

#[test]
fn test_get_status_map() {
    let cases = [
        ("playing", ""),
        ("paused", " [Paused]"),
        ("stopped", " [Stopped]"),
        ("", ""),
        ("garbage", ""),
    ];
    for (status, expected) in cases {
        let meta = Metadata { status: status.to_string(), ..Default::default() };
        assert_eq!(meta.get_status(), expected);
    }
}

#[test]
fn test_get_track_cases() {
    let cases: [(u8, u8, &str); 6] = [
        (0, 0, ""),
        (3, 0, ""),
        (0, 1, "track 1"),
        (0, 2, "track 2"),
        (1, 2, "disc 1, track 2"),
        (42, 69, "disc 42, track 69"),
    ];
    for (discnumber, tracknumber, expected) in cases {
        let meta = Metadata { tracknumber, discnumber, ..Default::default() };
        assert_eq!(meta.get_track(), expected);
    }
}

#[test]
fn test_get_duration_absent() {
    let meta = Metadata { duration: 0, position: 58, ..Default::default() };
    assert_eq!(meta.get_duration(), None);
}

#[test]
fn test_get_duration_no_position() {
    let meta = Metadata { duration: 69, position: 0, ..Default::default() };
    assert_eq!(meta.get_duration(), Some("01:09".to_string()));
}

#[test]
fn test_get_duration_with_position() {
    let meta = Metadata { duration: 69, position: 42, ..Default::default() };
    assert_eq!(meta.get_duration(), Some("00:42 / 01:09".to_string()));
}
