//! The contract this pipeline expects from the remote gallery service:
//! the reply shapes, the error taxonomy, the classification rule that
//! turns a structurally valid but unsuccessful reply into an error, and
//! the exact text of the request URLs.

use vstd::prelude::*;

verus! {

/// Reply to the credential health check.
#[derive(Debug)]
pub struct HealthResponse {
    pub success: bool,
    pub message: String,
    pub timestamp: String,
}

/// Reply to a photo upload.
#[derive(Debug)]
pub struct UploadResponse {
    pub success: bool,
    pub message: String,
    pub photo_id: Option<String>,
    pub s3: Option<S3Info>,
    pub meta: Option<MetaInfo>,
}

/// Where the service stored the uploaded bytes.
#[derive(Debug)]
pub struct S3Info {
    pub original_key: String,
    pub thumb_key: Option<String>,
    pub bucket: String,
    pub region: String,
}

/// What the service recorded about the upload.
#[derive(Debug)]
pub struct MetaInfo {
    pub original_name: String,
    pub local_path: String,
    pub shot_at: String,
    pub checksum: Option<String>,
    pub event_code: String,
}

/// The transport error taxonomy: transport-level failure, reply
/// deserialization failure, local file trouble, and a failure the service
/// itself reported (carrying its message verbatim).
#[derive(Debug)]
pub enum ApiError {
    HttpError(String),
    JsonError(String),
    IoError(String),
    ApiError { message: String },
}

/// Whether an HTTP status code counts as success: the 2xx range, the same
/// classification reqwest's StatusCode::is_success makes.
pub fn http_status_is_success(code: u16) -> (r: bool)
    ensures
        r == (200 <= code < 300),
{
    200 <= code && code < 300
}

/// A structurally valid health reply still carries its own success flag:
/// an unsuccessful one becomes a service-reported error carrying the
/// reply's message verbatim.
pub fn classify_health_response(resp: HealthResponse) -> (r: Result<HealthResponse, ApiError>)
    ensures
        resp.success ==> (r matches Ok(h) && h == resp),
        !resp.success ==> (r matches Err(e) && e == (ApiError::ApiError {
            message: resp.message,
        })),
{
    if resp.success {
        Ok(resp)
    } else {
        Err(ApiError::ApiError { message: resp.message })
    }
}

/// The same success-flag rule for upload replies.
pub fn classify_upload_response(resp: UploadResponse) -> (r: Result<UploadResponse, ApiError>)
    ensures
        resp.success ==> (r matches Ok(u) && u == resp),
        !resp.success ==> (r matches Err(e) && e == (ApiError::ApiError {
            message: resp.message,
        })),
{
    if resp.success {
        Ok(resp)
    } else {
        Err(ApiError::ApiError { message: resp.message })
    }
}

/// The character for one decimal digit.
pub open spec fn digit_char(d: nat) -> char {
    if d == 0 {
        '0'
    } else if d == 1 {
        '1'
    } else if d == 2 {
        '2'
    } else if d == 3 {
        '3'
    } else if d == 4 {
        '4'
    } else if d == 5 {
        '5'
    } else if d == 6 {
        '6'
    } else if d == 7 {
        '7'
    } else if d == 8 {
        '8'
    } else {
        '9'
    }
}

/// `n` written in decimal, most significant digit first.
pub open spec fn spec_decimal(n: nat) -> Seq<char>
    decreases n,
{
    if n < 10 {
        seq![digit_char(n)]
    } else {
        spec_decimal(n / 10).push(digit_char(n % 10))
    }
}

/// Append the character for the decimal digit `d`.
fn append_digit(s: &mut String, d: u16)
    requires
        d < 10,
    ensures
        final(s)@ == old(s)@.push(digit_char(d as nat)),
{
    if d == 0 {
        s.append("0");
        proof {
            reveal_strlit("0");
            assert(old(s)@ + "0"@ =~= old(s)@.push('0'));
        }
    } else if d == 1 {
        s.append("1");
        proof {
            reveal_strlit("1");
            assert(old(s)@ + "1"@ =~= old(s)@.push('1'));
        }
    } else if d == 2 {
        s.append("2");
        proof {
            reveal_strlit("2");
            assert(old(s)@ + "2"@ =~= old(s)@.push('2'));
        }
    } else if d == 3 {
        s.append("3");
        proof {
            reveal_strlit("3");
            assert(old(s)@ + "3"@ =~= old(s)@.push('3'));
        }
    } else if d == 4 {
        s.append("4");
        proof {
            reveal_strlit("4");
            assert(old(s)@ + "4"@ =~= old(s)@.push('4'));
        }
    } else if d == 5 {
        s.append("5");
        proof {
            reveal_strlit("5");
            assert(old(s)@ + "5"@ =~= old(s)@.push('5'));
        }
    } else if d == 6 {
        s.append("6");
        proof {
            reveal_strlit("6");
            assert(old(s)@ + "6"@ =~= old(s)@.push('6'));
        }
    } else if d == 7 {
        s.append("7");
        proof {
            reveal_strlit("7");
            assert(old(s)@ + "7"@ =~= old(s)@.push('7'));
        }
    } else if d == 8 {
        s.append("8");
        proof {
            reveal_strlit("8");
            assert(old(s)@ + "8"@ =~= old(s)@.push('8'));
        }
    } else {
        s.append("9");
        proof {
            reveal_strlit("9");
            assert(old(s)@ + "9"@ =~= old(s)@.push('9'));
        }
    }
}

/// Append `n` in decimal.
fn append_decimal(s: &mut String, n: u16)
    ensures
        final(s)@ == old(s)@ + spec_decimal(n as nat),
    decreases n,
{
    if n < 10 {
        append_digit(s, n);
        proof {
            assert(old(s)@.push(digit_char(n as nat)) =~= old(s)@ + spec_decimal(n as nat));
        }
    } else {
        append_decimal(s, n / 10);
        append_digit(s, n % 10);
        proof {
            assert((old(s)@ + spec_decimal((n / 10) as nat)).push(digit_char((n % 10) as nat))
                =~= old(s)@ + spec_decimal(n as nat));
        }
    }
}

/// The message recorded for a reply whose HTTP status was not a success:
/// the status in decimal, then the response body.
pub open spec fn spec_http_error_message(status: nat, body: Seq<char>) -> Seq<char> {
    seq!['H', 'T', 'T', 'P', ' '] + spec_decimal(status) + seq![':', ' '] + body
}

/// Classify an HTTP reply by its status code: the 2xx range passes, and
/// anything else becomes a service-reported error carrying the status and
/// the response body.
pub fn classify_http_status(status: u16, body: &str) -> (r: Result<(), ApiError>)
    ensures
        (200 <= status < 300) ==> r is Ok,
        !(200 <= status < 300) ==> (r matches Err(ApiError::ApiError { message }) && message@
            == spec_http_error_message(status as nat, body@)),
{
    if 200 <= status && status < 300 {
        Ok(())
    } else {
        let mut message: String = String::new();
        message.append("HTTP ");
        append_decimal(&mut message, status);
        message.append(": ");
        message.append(body);
        proof {
            reveal_strlit("HTTP ");
            reveal_strlit(": ");
            assert(message@ =~= spec_http_error_message(status as nat, body@));
        }
        Err(ApiError::ApiError { message })
    }
}

/// `s` with every trailing `/` removed.
pub open spec fn spec_trim_trailing_slashes(s: Seq<char>) -> Seq<char>
    decreases s.len(),
{
    if s.len() > 0 && s.last() == '/' {
        spec_trim_trailing_slashes(s.drop_last())
    } else {
        s
    }
}

/// The base URL with its trailing slashes removed, so a joined path never
/// doubles the separator.
pub fn trim_trailing_slashes(s: &str) -> (r: &str)
    ensures
        r@ == spec_trim_trailing_slashes(s@),
{
    let n: usize = s.unicode_len();
    let mut i: usize = n;
    proof {
        assert(s@.subrange(0, n as int) =~= s@);
    }
    while i > 0 && s.get_char(i - 1) == '/'
        invariant
            i <= n,
            n == s@.len(),
            spec_trim_trailing_slashes(s@) == spec_trim_trailing_slashes(
                s@.subrange(0, i as int),
            ),
        decreases i,
    {
        proof {
            assert(s@.subrange(0, i as int).drop_last() =~= s@.subrange(0, i as int - 1));
            assert(s@.subrange(0, i as int).last() == s@[i as int - 1]);
        }
        i = i - 1;
    }
    let r: &str = s.substring_char(0, i);
    proof {
        if i > 0 {
            assert(s@.subrange(0, i as int).last() == s@[i as int - 1]);
        }
    }
    r
}

/// The health-check endpoint under a base URL.
pub open spec fn spec_health_check_url(base: Seq<char>) -> Seq<char> {
    spec_trim_trailing_slashes(base) + seq![
        '/',
        'c',
        'h',
        'e',
        'c',
        'k',
        '-',
        'a',
        'p',
        'i',
        '-',
        'k',
        'e',
        'y',
    ]
}

pub fn health_check_url(base: &str) -> (r: String)
    ensures
        r@ == spec_health_check_url(base@),
{
    let trimmed: &str = trim_trailing_slashes(base);
    let mut r: String = trimmed.to_owned();
    r.append("/check-api-key");
    proof {
        reveal_strlit("/check-api-key");
        assert(r@ =~= spec_health_check_url(base@));
    }
    r
}

/// The photo-upload endpoint for a gallery event under a base URL.
pub open spec fn spec_upload_url(base: Seq<char>, event_code: Seq<char>) -> Seq<char> {
    spec_trim_trailing_slashes(base) + seq![
        '/',
        'a',
        'p',
        'i',
        '/',
        'g',
        'a',
        'l',
        'l',
        'e',
        'r',
        'y',
        '/',
    ] + event_code + seq!['/', 'p', 'h', 'o', 't', 'o', 's']
}

pub fn upload_url(base: &str, event_code: &str) -> (r: String)
    ensures
        r@ == spec_upload_url(base@, event_code@),
{
    let trimmed: &str = trim_trailing_slashes(base);
    let mut r: String = trimmed.to_owned();
    r.append("/api/gallery/");
    r.append(event_code);
    r.append("/photos");
    proof {
        reveal_strlit("/api/gallery/");
        reveal_strlit("/photos");
        assert(r@ =~= spec_upload_url(base@, event_code@));
    }
    r
}

} // verus!
