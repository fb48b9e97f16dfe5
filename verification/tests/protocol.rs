use germinal::protocol::{contains_bytes, detect_gnative_request, gnative_request_prefix_bytes, GNativeAppName, GRequest};

fn request(app: &str) -> Option<GRequest> {
    Some(GRequest::EnterGNative { app: GNativeAppName::new(app) })
}

#[test]
fn detects_a_request() {
    assert_eq!(detect_gnative_request(b"\x1b]777;gnative=demo\x07"), request("demo"));
}

#[test]
fn detects_a_request_inside_other_output() {
    assert_eq!(detect_gnative_request(b"prompt$ \x1b]777;gnative=editor\x07 more"), request("editor"));
}

#[test]
fn the_first_prefix_and_the_first_terminator_after_it_win() {
    assert_eq!(
        detect_gnative_request(b"\x07\x1b]777;gnative=one\x07\x1b]777;gnative=two\x07"),
        request("one")
    );
}

#[test]
fn no_request_without_prefix_terminator_or_name() {
    assert_eq!(detect_gnative_request(b"plain output\x07"), None);
    assert_eq!(detect_gnative_request(b"\x1b]777;gnative=demo"), None);
    assert_eq!(detect_gnative_request(b"\x1b]777;gnative=\x07"), None);
    assert_eq!(detect_gnative_request(b""), None);
}

#[test]
fn no_request_for_a_name_that_is_not_utf8() {
    assert_eq!(detect_gnative_request(b"\x1b]777;gnative=\xff\xfe\x07"), None);
}

#[test]
fn utf8_names_are_decoded() {
    assert_eq!(detect_gnative_request("\x1b]777;gnative=é\x07".as_bytes()), request("é"));
}

#[test]
fn prefix_bytes() {
    assert_eq!(gnative_request_prefix_bytes(), b"\x1b]777;gnative=".to_vec());
}

#[test]
fn app_name_round_trip() {
    assert_eq!(GNativeAppName::new("demo").as_str(), "demo");
}

#[test]
fn contains_bytes_finds_windows() {
    assert!(contains_bytes(b"hello world", b"o w"));
    assert!(contains_bytes(b"abc", b"abc"));
    assert!(!contains_bytes(b"abc", b"abcd"));
    assert!(!contains_bytes(b"", b"a"));
    assert!(!contains_bytes(b"aab", b"ba"));
}

#[test]
fn appended_output_keeps_a_found_request() {
    let b: &[u8] = b"\x1b]777;gnative=demo\x07";
    let c: &[u8] = b"\x07\x1b]777;gnative=other\x07tail";
    assert_eq!(detect_gnative_request(b), request("demo"));
    assert_eq!(detect_gnative_request(&[b, c].concat()), request("demo"));
}

#[test]
fn prepended_output_without_esc_keeps_a_found_request() {
    let a: &[u8] = b"prompt$ ]777;gnative=fake\x07 ";
    let b: &[u8] = b"\x1b]777;gnative=demo\x07";
    assert_eq!(detect_gnative_request(&[a, b].concat()), request("demo"));
    let with_esc: &[u8] = b"\x1b]777;gnative=first\x07";
    assert_eq!(detect_gnative_request(&[with_esc, b].concat()), request("first"));
}
