use latexml_runner::response::LatexmlResponse;
use latexml_runner::text::decimal_string;
use latexml_runner::wire::{
    address, convert_body, find_subsequence, frame_reply, http_request, init_body, settle_reply,
    ReplyFrame,
};

fn record(code: u8, result: &str) -> LatexmlResponse {
    LatexmlResponse {
        status_code: code,
        status: String::new(),
        result: result.to_string(),
        log: String::new(),
    }
}

#[test]
fn decimal_rendering() {
    assert_eq!(decimal_string(0), "0");
    assert_eq!(decimal_string(3), "3");
    assert_eq!(decimal_string(3334), "3334");
    assert_eq!(decimal_string(u64::MAX), "18446744073709551615");
}

#[test]
fn zero_and_sentinel_records() {
    let zero = LatexmlResponse::empty();
    assert_eq!(zero.status_code, 0);
    assert_eq!(zero.status, "");
    assert_eq!(zero.result, "");
    assert_eq!(zero.log, "");
    let fatal = LatexmlResponse::default();
    assert_eq!(fatal.status_code, 3);
    assert_eq!(fatal.status, "Default latexml_runner fatal");
    assert_eq!(fatal.result, "");
    assert_eq!(fatal.log, "Default latexml_runner fatal");
}

#[test]
fn conversion_body_encodes_the_job() {
    assert_eq!(
        convert_body("latexml_runner:42", "\\sqrt{2}"),
        "cache_key=latexml_runner:42&source=literal:%5Csqrt%7B2%7D"
    );
    assert_eq!(convert_body("k", "x+1"), "cache_key=k&source=literal:x%2B1");
    assert_eq!(convert_body("k", "a-b_c.d~e"), "cache_key=k&source=literal:a-b_c.d~e");
    assert_eq!(convert_body("k", "π"), "cache_key=k&source=literal:%CF%80");
    assert_eq!(convert_body("k", ""), "cache_key=k&source=literal:");
}

#[test]
fn init_body_lists_the_options() {
    let options = vec![
        ("whatsin".to_string(), "math".to_string()),
        ("preload".to_string(), "amsmath.sty".to_string()),
        ("preamble".to_string(), "a b".to_string()),
        ("pmml".to_string(), String::new()),
    ];
    assert_eq!(
        init_body("k", &options),
        "cache_key=k&source=literal:1&whatsin=math&preload=amsmath.sty&preamble=a%20b&pmml"
    );
    assert_eq!(init_body("k", &Vec::new()), "cache_key=k&source=literal:1&");
}

#[test]
fn request_text_is_exact() {
    assert_eq!(address(3334), "127.0.0.1:3334");
    assert_eq!(
        http_request(3334, "ab"),
        "POST 127.0.0.1:3334 HTTP/1.0\nHost: 127.0.0.1:3334\nUser-Agent: latexmlc\nContent-Type: application/x-www-form-urlencoded\nContent-Length: 2\n\nab"
    );
    let with_pi = http_request(7, "π");
    assert!(with_pi.ends_with("Content-Length: 2\n\nπ"));
}

#[test]
fn subsequence_search() {
    let sep = b"\r\n\r\n";
    assert_eq!(find_subsequence(b"ab\r\n\r\ncd\r\n\r\n", sep), Some(2));
    assert_eq!(find_subsequence(b"ab\r\ncd", sep), None);
    assert_eq!(find_subsequence(b"", sep), None);
    assert_eq!(find_subsequence(b"aaab", b"ab"), Some(2));
    assert_eq!(find_subsequence(b"xyz", b"xyz"), Some(0));
}

#[test]
fn reply_framing() {
    let reply = b"HTTP/1.0 200 OK\r\n\r\n{\"status_code\":0}";
    assert_eq!(frame_reply(reply, true), ReplyFrame::Body(19));
    assert_eq!(frame_reply(reply, false), ReplyFrame::Body(19));
    assert_eq!(frame_reply(b"", true), ReplyFrame::Retry);
    assert_eq!(frame_reply(b"", false), ReplyFrame::Empty);
    assert_eq!(frame_reply(b"HTTP/1.0 200 OK\r\n", true), ReplyFrame::Retry);
    // A separator at the very start does not count as a head end.
    assert_eq!(frame_reply(b"\r\n\r\nbody\r\n\r\n", false), ReplyFrame::Empty);
    assert_eq!(frame_reply(b"H\r\n\r\n", false), ReplyFrame::Body(5));
}

#[test]
fn settling_a_reply() {
    let (ok, keep) = settle_reply(Some(record(0, "<math/>")));
    assert_eq!(ok.result, "<math/>");
    assert!(keep);
    let (fatal, keep) = settle_reply(Some(record(3, "")));
    assert_eq!(fatal.status_code, 3);
    assert!(!keep);
    let (undecoded, keep) = settle_reply(None);
    assert_eq!(undecoded.status_code, 3);
    assert_eq!(undecoded.status, "Default latexml_runner fatal");
    assert!(!keep);
}
