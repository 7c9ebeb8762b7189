use cmus_notify::metadata::Metadata;
use cmus_notify::parser::{parse, ParseError};

#[test]
fn test_parse() {
    let data = "status stopped
file /music/artist/album/song.flac
duration 258
position 123
tag genre Neo Classical Fusion
tag date 1824
tag albumartist Various Artists
tag artist Metallideth
tag album Rust in Puppets
tag title Orgasmatron
tag tracknumber 69
tag discnumber 42";

    let expected = Metadata {
        file: "/music/artist/album/song.flac".to_string(),
        artist: "Metallideth".to_string(),
        album: "Rust in Puppets".to_string(),
        title: "Orgasmatron".to_string(),
        tracknumber: 69,
        discnumber: 42,
        date: "1824".to_string(),
        duration: 258,
        position: 123,
        status: "stopped".to_string(),
    };

    assert_eq!(parse(data), Ok(expected));
}

#[test]
fn test_parse_empty_input() {
    assert_eq!(parse(""), Ok(Metadata::default()));
}

#[test]
fn test_parse_trailing_blank_lines() {
    let m = parse("file /a/b.flac\n\n").unwrap();
    assert_eq!(m.file, "/a/b.flac");
    assert_eq!(m.status, "");
}

#[test]
fn test_parse_unknown_keyword_ignored() {
    let m = parse("volume 50\nnoise\nstatus playing").unwrap();
    assert_eq!(m.status, "playing");
}

#[test]
fn test_parse_unknown_tag_ignored() {
    let m = parse("tag composer Bach\ntag comment\ntag title T").unwrap();
    assert_eq!(m.title, "T");
    assert_eq!(m.artist, "");
}

#[test]
fn test_parse_keyword_without_value() {
    assert_eq!(parse("status"), Err(ParseError::MissingValue));
}

#[test]
fn test_parse_tag_without_value() {
    assert_eq!(parse("tag title"), Err(ParseError::MissingValue));
}

#[test]
fn test_parse_duration_not_a_number() {
    assert_eq!(parse("duration abc"), Err(ParseError::NotANumber));
    assert_eq!(parse("duration 12x"), Err(ParseError::NotANumber));
    assert_eq!(parse("duration "), Err(ParseError::NotANumber));
}

#[test]
fn test_parse_duration_too_large() {
    assert_eq!(parse("duration 99999999999"), Err(ParseError::NumberTooLarge));
    assert_eq!(parse("duration 4294967296"), Err(ParseError::NumberTooLarge));
    let m = parse("duration 4294967295").unwrap();
    assert_eq!(m.duration, 4294967295);
}

#[test]
fn test_parse_tracknumber_range() {
    assert_eq!(parse("tag tracknumber 256"), Err(ParseError::NumberTooLarge));
    assert_eq!(parse("tag discnumber 1000"), Err(ParseError::NumberTooLarge));
    assert_eq!(parse("tag tracknumber x"), Err(ParseError::NotANumber));
    let m = parse("tag tracknumber 255").unwrap();
    assert_eq!(m.tracknumber, 255);
}

#[test]
fn test_parse_unrecognized_lines_removable() {
    let with_extras = "status playing\ntag genre Rock\nvolume 5\n\ntag title T";
    let without = "status playing\ntag title T";
    assert_eq!(parse(with_extras), parse(without));
}

#[test]
fn test_parse_later_record_wins() {
    let m = parse("status playing\nstatus paused").unwrap();
    assert_eq!(m.status, "paused");
}

#[test]
fn test_parse_value_keeps_spaces() {
    let m = parse("tag album Rust in Puppets").unwrap();
    assert_eq!(m.album, "Rust in Puppets");
}
