use cmus_notify::codec::{accept_chunk, read_step, request, response_complete, ReadOutcome};
use cmus_notify::notification::notify;
use cmus_notify::socket::socket_path_from;

#[test]
fn test_request_payload() {
    assert_eq!(request(), "status\n");
}

#[test]
fn test_response_complete() {
    assert!(!response_complete(""));
    assert!(!response_complete("\n"));
    assert!(response_complete("\n\n"));
    assert!(!response_complete("status playing\n"));
    assert!(response_complete("status playing\n\n"));
    assert!(!response_complete("status playing\n\nx"));
}

#[test]
fn test_accept_chunk_accumulates() {
    let mut resp = String::new();
    assert!(!accept_chunk(&mut resp, "status pla"));
    assert!(!accept_chunk(&mut resp, "ying\n"));
    assert!(accept_chunk(&mut resp, "\n"));
    assert_eq!(resp, "status playing\n\n");
}

#[test]
fn test_read_step_outcomes() {
    let mut resp = String::new();
    assert_eq!(read_step(&mut resp, "status pla"), ReadOutcome::NeedMore);
    assert_eq!(read_step(&mut resp, "ying\n"), ReadOutcome::NeedMore);
    assert_eq!(read_step(&mut resp, "\n"), ReadOutcome::Done);
    assert_eq!(resp, "status playing\n\n");
}

#[test]
fn test_read_step_truncated() {
    let mut resp = String::new();
    assert_eq!(read_step(&mut resp, "status playing\n"), ReadOutcome::NeedMore);
    assert_eq!(read_step(&mut resp, ""), ReadOutcome::Truncated);
}

#[test]
fn test_read_step_empty_chunk_after_done() {
    let mut resp = String::from("status playing\n\n");
    assert_eq!(read_step(&mut resp, ""), ReadOutcome::Done);
}

#[test]
fn test_socket_path_runtime_dir_wins() {
    let p = socket_path_from(Some("/run/user/1000".to_string()), Some("/home/u".to_string()));
    assert_eq!(p, Some("/run/user/1000/cmus-socket".to_string()));
}

#[test]
fn test_socket_path_home_fallback() {
    let p = socket_path_from(None, Some("/home/u".to_string()));
    assert_eq!(p, Some("/home/u/.config/cmus/socket".to_string()));
}

#[test]
fn test_socket_path_unknown() {
    assert_eq!(socket_path_from(None, None), None);
}

#[test]
fn test_notify_uses_cover_icon() {
    let r = notify("T", "M", Some("/music/a/cover.jpg".to_string()));
    assert_eq!(r.summary, "T");
    assert_eq!(r.body, "M");
    assert_eq!(r.icon, "/music/a/cover.jpg");
}

#[test]
fn test_notify_stock_icon() {
    let r = notify("T", "M", None);
    assert_eq!(r.icon, "applications-multimedia");
}
