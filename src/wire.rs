//! The daemon's HTTP/1.0 dialect: form bodies, the request text, and the
//! framing of a reply.
use vstd::prelude::*;
use vstd::utf8::encode_utf8;
use vstd::string::StringExecFns;
use crate::response::LatexmlResponse;
use crate::text::{decimal_of, decimal_string};

verus! {

/// Bytes that URL encoding leaves as they are: ASCII letters and digits and
/// `-`, `.`, `_`, `~`.
pub open spec fn is_unreserved(b: u8) -> bool {
    ||| 48 <= b <= 57
    ||| 65 <= b <= 90
    ||| 97 <= b <= 122
    ||| b == 45
    ||| b == 46
    ||| b == 95
    ||| b == 126
}

/// The upper-case hexadecimal digit of `d < 16`.
pub open spec fn hex_digit(d: u8) -> char {
    if d < 10 {
        ((d + 48) as u8) as char
    } else {
        ((d + 55) as u8) as char
    }
}

/// Percent-encoding of a byte string.
pub open spec fn percent_encoded(bytes: Seq<u8>) -> Seq<char>
    decreases bytes.len(),
{
    if bytes.len() == 0 {
        Seq::empty()
    } else {
        let b = bytes[0];
        let head = if is_unreserved(b) {
            seq![b as char]
        } else {
            seq!['%', hex_digit(b / 16), hex_digit(b % 16)]
        };
        head + percent_encoded(bytes.drop_first())
    }
}

/// URL encoding of a text: percent-encoding of its UTF-8 bytes.
pub open spec fn url_encoded(s: Seq<char>) -> Seq<char> {
    percent_encoded(encode_utf8(s))
}

/// Relies on `urlencoding::encode`: every UTF-8 byte of the text but ASCII
/// letters, digits and `-._~` becomes `%` and two upper-case hex digits.
#[verifier::external_body]
fn url_encode(s: &str) -> (r: String)
    ensures
        r@ == url_encoded(s@),
{
    urlencoding::encode(s).into_owned()
}

/// The form body of a conversion request.
pub open spec fn convert_body_text(cache_key: Seq<char>, job: Seq<char>) -> Seq<char> {
    "cache_key="@ + cache_key + "&source=literal:"@ + url_encoded(job)
}

/// Builds the form body that asks the daemon to convert `job` with the
/// option set registered under `cache_key`.
pub fn convert_body(cache_key: &str, job: &str) -> (r: String)
    ensures
        r@ == convert_body_text(cache_key@, job@),
{
    let mut body = String::from_str("cache_key=");
    body.append(cache_key);
    body.append("&source=literal:");
    let encoded = url_encode(job);
    body.append(encoded.as_str());
    body
}

/// One boot option as a form field: the encoded key alone when the value is
/// empty, else `key=value` with both encoded.
pub open spec fn option_field(key: Seq<char>, value: Seq<char>) -> Seq<char> {
    if value.len() == 0 {
        url_encoded(key)
    } else {
        url_encoded(key) + "="@ + url_encoded(value)
    }
}

/// The boot options as form fields joined by `&`.
pub open spec fn option_fields(options: Seq<(String, String)>) -> Seq<char>
    decreases options.len(),
{
    if options.len() == 0 {
        Seq::empty()
    } else if options.len() == 1 {
        option_field(options[0].0@, options[0].1@)
    } else {
        option_fields(options.drop_last()) + "&"@ + option_field(
            options.last().0@,
            options.last().1@,
        )
    }
}

/// The form body of the call that registers the boot options under
/// `cache_key`.
pub open spec fn init_body_text(cache_key: Seq<char>, options: Seq<(String, String)>) -> Seq<
    char,
> {
    "cache_key="@ + cache_key + "&source=literal:1&"@ + option_fields(options)
}

/// Builds the form body of the registering call.
pub fn init_body(cache_key: &str, options: &Vec<(String, String)>) -> (r: String)
    ensures
        r@ == init_body_text(cache_key@, options@),
{
    let mut body = String::from_str("cache_key=");
    body.append(cache_key);
    body.append("&source=literal:1&");
    let ghost head = body@;
    let mut i: usize = 0;
    while i < options.len()
        invariant
            i <= options.len(),
            body@ == head + option_fields(options@.subrange(0, i as int)),
        decreases options.len() - i,
    {
        let ghost before = options@.subrange(0, i as int);
        let ghost after = options@.subrange(0, i as int + 1);
        assert(after.drop_last() == before);
        if i > 0 {
            body.append("&");
        }
        let key = url_encode(options[i].0.as_str());
        body.append(key.as_str());
        if !options[i].1.as_str().is_empty() {
            body.append("=");
            let value = url_encode(options[i].1.as_str());
            body.append(value.as_str());
        }
        i = i + 1;
    }
    assert(options@.subrange(0, options.len() as int) == options@);
    body
}

/// The address at which the daemon on `port` listens.
pub open spec fn daemon_address(port: u16) -> Seq<char> {
    "127.0.0.1:"@ + decimal_of(port as nat)
}

/// The number of UTF-8 bytes of a text, as the machine counts it.
pub open spec fn byte_len(s: Seq<char>) -> nat {
    encode_utf8(s).len() as usize as nat
}

/// The request text that carries `body` to the daemon on `port`. The
/// request target is the address itself, and lines end in a bare newline.
pub open spec fn request_text(port: u16, body: Seq<char>) -> Seq<char> {
    "POST "@ + daemon_address(port) + " HTTP/1.0\nHost: "@ + daemon_address(port)
        + "\nUser-Agent: latexmlc\nContent-Type: application/x-www-form-urlencoded\nContent-Length: "@
        + decimal_of(byte_len(body)) + "\n\n"@ + body
}

/// Builds the address string of the daemon on `port`.
pub fn address(port: u16) -> (r: String)
    ensures
        r@ == daemon_address(port),
{
    let mut s = String::from_str("127.0.0.1:");
    let digits = decimal_string(port as u64);
    s.append(digits.as_str());
    s
}

/// Builds the request text that carries `body` to the daemon on `port`.
pub fn http_request(port: u16, body: &str) -> (r: String)
    ensures
        r@ == request_text(port, body@),
{
    let addr = address(port);
    let mut s = String::from_str("POST ");
    s.append(addr.as_str());
    s.append(" HTTP/1.0\nHost: ");
    s.append(addr.as_str());
    s.append(
        "\nUser-Agent: latexmlc\nContent-Type: application/x-www-form-urlencoded\nContent-Length: ",
    );
    let length = decimal_string(body.len() as u64);
    s.append(length.as_str());
    s.append("\n\n");
    s.append(body);
    s
}

/// `needle` occurs in `haystack` starting at `i`.
pub open spec fn occurs_at(haystack: Seq<u8>, needle: Seq<u8>, i: int) -> bool {
    &&& 0 <= i
    &&& i + needle.len() <= haystack.len()
    &&& haystack.subrange(i, i + needle.len()) == needle
}

/// `i` is the first position at which `needle` occurs in `haystack`.
pub open spec fn first_occurrence(haystack: Seq<u8>, needle: Seq<u8>, i: int) -> bool {
    &&& occurs_at(haystack, needle, i)
    &&& forall|j: int| 0 <= j < i ==> !occurs_at(haystack, needle, j)
}

/// Finds the first position at which `needle` occurs in `haystack`.
pub fn find_subsequence(haystack: &[u8], needle: &[u8]) -> (r: Option<usize>)
    requires
        needle@.len() > 0,
    ensures
        match r {
            Some(i) => first_occurrence(haystack@, needle@, i as int),
            None => forall|j: int| !occurs_at(haystack@, needle@, j),
        },
{
    let n = needle.len();
    if n > haystack.len() {
        return None;
    }
    let len = haystack.len();
    let mut i: usize = 0;
    while i <= len - n
        invariant
            len == haystack@.len(),
            n == needle@.len(),
            n <= haystack@.len(),
            i <= haystack@.len() - n + 1,
            forall|j: int| 0 <= j < i ==> !occurs_at(haystack@, needle@, j),
        decreases haystack@.len() - i,
    {
        let mut k: usize = 0;
        let mut same = true;
        while k < n
            invariant
                len == haystack@.len(),
                n == needle@.len(),
                i + n <= len,
                k <= n,
                same <==> forall|m: int| 0 <= m < k ==> haystack@[i + m] == needle@[m],
            decreases n - k,
        {
            if haystack[i + k] != needle[k] {
                same = false;
            }
            k = k + 1;
        }
        if same {
            assert(haystack@.subrange(i as int, i + n) =~= needle@);
            return Some(i);
        }
        assert(!occurs_at(haystack@, needle@, i as int)) by {
            if occurs_at(haystack@, needle@, i as int) {
                assert forall|m: int| 0 <= m < n implies haystack@[i + m] == needle@[m] by {
                    assert(haystack@.subrange(i as int, i + n)[m] == haystack@[i + m]);
                }
            }
        }
        i = i + 1;
    }
    None
}

/// The four bytes `\r\n\r\n` that end the reply head.
pub open spec fn head_end() -> Seq<u8> {
    seq![13u8, 10u8, 13u8, 10u8]
}

/// Where the body of a reply starts: just after the first `\r\n\r\n`,
/// provided that it does not stand at the very start of the reply.
pub open spec fn body_start(reply: Seq<u8>) -> Option<int> {
    if exists|i: int| first_occurrence(reply, head_end(), i) && i > 0 {
        Some((choose|i: int| first_occurrence(reply, head_end(), i) && i > 0) + 4)
    } else {
        None
    }
}

/// How a reply was framed.
#[derive(Debug, PartialEq, Eq, Structural)]
pub enum ReplyFrame {
    /// The body starts at this byte position.
    Body(usize),
    /// No body was found: send the request once more.
    Retry,
    /// No body was found and no retry is left.
    Empty,
}

/// Frames a raw reply. A reply without body is retried once when
/// `allow_retry` holds, else reported empty.
pub fn frame_reply(reply: &[u8], allow_retry: bool) -> (r: ReplyFrame)
    ensures
        match body_start(reply@) {
            Some(s) => r == ReplyFrame::Body(s as usize),
            None => r == (if allow_retry { ReplyFrame::Retry } else { ReplyFrame::Empty }),
        },
{
    let sep: [u8; 4] = [13u8, 10u8, 13u8, 10u8];
    let sep_slice = sep.as_slice();
    assert(sep_slice@ =~= head_end());
    let found = find_subsequence(reply, sep_slice);
    match found {
        Some(i) => {
            if i > 0 {
                let len = reply.len();
                assert(i + 4 <= len);
                proof {
                    let w = choose|j: int| first_occurrence(reply@, head_end(), j) && j > 0;
                    assert(first_occurrence(reply@, head_end(), i as int));
                    if w < i {
                        assert(!occurs_at(reply@, head_end(), w));
                    } else if w > i {
                        assert(!occurs_at(reply@, head_end(), i as int));
                    }
                }
                return ReplyFrame::Body(i + 4);
            }
            proof {
                assert forall|j: int| first_occurrence(reply@, head_end(), j) implies j == 0 by {
                    if j > 0 {
                        assert(!occurs_at(reply@, head_end(), 0));
                    }
                }
            }
        },
        None => {},
    }
    if allow_retry {
        ReplyFrame::Retry
    } else {
        ReplyFrame::Empty
    }
}

/// Settles a call from the decoded reply body: a body that did not decode
/// gives the sentinel record. The second component says whether the
/// connection may be kept for the next call.
pub fn settle_reply(decoded: Option<LatexmlResponse>) -> (r: (LatexmlResponse, bool))
    ensures
        match decoded {
            Some(d) => r.0 == d,
            None => r.0.is_sentinel(),
        },
        r.1 == !r.0.connection_suspect(),
{
    let response = match decoded {
        Some(d) => d,
        None => LatexmlResponse::default(),
    };
    let keep = response.status_code != 3;
    (response, keep)
}

} // verus!
