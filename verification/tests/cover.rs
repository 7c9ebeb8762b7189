use cmus_notify::metadata::Metadata;

#[test]
fn test_cover_candidates_beside_track() {
    let meta = Metadata { file: "/music/a/song.flac".to_string(), ..Default::default() };
    let (jpg, png) = meta.cover_candidates().unwrap();
    assert_eq!(jpg, "/music/a/cover.jpg");
    assert_eq!(png, "/music/a/cover.png");
}

#[test]
fn test_cover_candidates_no_track() {
    let meta = Metadata::default();
    assert!(meta.cover_candidates().is_none());
}

#[test]
fn test_cover_candidates_no_directory() {
    let meta = Metadata { file: "song.flac".to_string(), ..Default::default() };
    assert!(meta.cover_candidates().is_none());
}

#[test]
fn test_cover_candidates_root_has_no_parent() {
    let meta = Metadata { file: "/".to_string(), ..Default::default() };
    assert!(meta.cover_candidates().is_none());
    assert_eq!(meta.get_cover(true, true), None);
    let meta = Metadata { file: "///".to_string(), ..Default::default() };
    assert!(meta.cover_candidates().is_none());
}

#[test]
fn test_cover_candidates_track_at_root() {
    let meta = Metadata { file: "/song.flac".to_string(), ..Default::default() };
    let (jpg, png) = meta.cover_candidates().unwrap();
    assert_eq!(jpg, "/cover.jpg");
    assert_eq!(png, "/cover.png");
}

#[test]
fn test_cover_candidates_trailing_slash() {
    let meta = Metadata { file: "/music/a/".to_string(), ..Default::default() };
    let (jpg, png) = meta.cover_candidates().unwrap();
    assert_eq!(jpg, "/music/cover.jpg");
    assert_eq!(png, "/music/cover.png");
}

#[test]
fn test_cover_candidates_doubled_separator() {
    let meta = Metadata { file: "/music/a//song.flac".to_string(), ..Default::default() };
    let (jpg, _) = meta.cover_candidates().unwrap();
    assert_eq!(jpg, "/music/a/cover.jpg");
}

#[test]
fn test_get_cover_prefers_jpg() {
    let meta = Metadata { file: "/music/a/song.flac".to_string(), ..Default::default() };
    assert_eq!(meta.get_cover(true, true), Some("/music/a/cover.jpg".to_string()));
    assert_eq!(meta.get_cover(true, false), Some("/music/a/cover.jpg".to_string()));
}

#[test]
fn test_get_cover_falls_back_to_png() {
    let meta = Metadata { file: "/music/a/song.flac".to_string(), ..Default::default() };
    assert_eq!(meta.get_cover(false, true), Some("/music/a/cover.png".to_string()));
}

#[test]
fn test_get_cover_neither_exists() {
    let meta = Metadata { file: "/music/a/song.flac".to_string(), ..Default::default() };
    assert_eq!(meta.get_cover(false, false), None);
}

#[test]
fn test_get_cover_empty_file() {
    let meta = Metadata::default();
    assert_eq!(meta.get_cover(true, true), None);
}
