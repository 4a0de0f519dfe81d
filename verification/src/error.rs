//! Application errors and the HTTP responses they turn into.

use hmac::{Hmac, Mac};
use sha2::Sha256;
use vstd::prelude::*;
use vstd::string::StringExecFns;
use vstd::utf8::encode_utf8;

use crate::text::{
    hex_digit_upper, hex_lower, is_lower_hex_digit, lemma_hex_lower_shape, opt_text, texts,
    to_hex_lower,
};

verus! {

/// Bytes that percent-encoding leaves as they are: ASCII letters, digits and `-`, `.`, `_`, `~`.
pub open spec fn is_url_unreserved(b: u8) -> bool {
    ||| (48 <= b && b <= 57)
    ||| (65 <= b && b <= 90)
    ||| (97 <= b && b <= 122)
    ||| b == 45
    ||| b == 46
    ||| b == 95
    ||| b == 126
}

/// Percent-encoding of a byte string: unreserved bytes stay, every other byte becomes
/// `%` and two uppercase hexadecimal digits.
pub open spec fn percent_encode(bytes: Seq<u8>) -> Seq<char>
    decreases bytes.len(),
{
    if bytes.len() == 0 {
        seq![]
    } else {
        let b = bytes[0];
        (if is_url_unreserved(b) {
            seq![b as char]
        } else {
            seq!['%', hex_digit_upper((b / 16) as int), hex_digit_upper((b % 16) as int)]
        }) + percent_encode(bytes.drop_first())
    }
}

/// Percent-encoded text holds only unreserved ASCII characters, `%` and uppercase hexadecimal
/// digits: never `&`, `=`, `?`, `#` or a space, so the error in the login query string cannot
/// end the parameter or the query early.
pub proof fn law_percent_encoding_is_query_safe(bytes: Seq<u8>)
    ensures
        forall|i: int|
            0 <= i < percent_encode(bytes).len() ==> {
                let c = #[trigger] percent_encode(bytes)[i];
                &&& c != '&'
                &&& c != '='
                &&& c != '?'
                &&& c != '#'
                &&& c != ' '
            },
    decreases bytes.len(),
{
    if bytes.len() > 0 {
        law_percent_encoding_is_query_safe(bytes.drop_first());
        let b = bytes[0];
        let head = if is_url_unreserved(b) {
            seq![b as char]
        } else {
            seq!['%', hex_digit_upper((b / 16) as int), hex_digit_upper((b % 16) as int)]
        };
        let tail = percent_encode(bytes.drop_first());
        assert forall|i: int| 0 <= i < percent_encode(bytes).len() implies {
            let c = #[trigger] percent_encode(bytes)[i];
            &&& c != '&'
            &&& c != '='
            &&& c != '?'
            &&& c != '#'
            &&& c != ' '
        } by {
            if i < head.len() {
                assert(percent_encode(bytes)[i] == head[i]);
            } else {
                assert(percent_encode(bytes)[i] == tail[i - head.len()]);
            }
        }
    }
}

/// HMAC-SHA256 of `message` under `key`, as the `hmac` and `sha2` crates compute it.
pub uninterp spec fn hmac_sha256(key: Seq<u8>, message: Seq<u8>) -> Seq<u8>;

/// `urlencoding::Encoded`, displayed: the contract states what its source does, namely
/// that it percent-encodes the UTF-8 bytes of `s` as `percent_encode` describes.
#[verifier::external_body]
fn url_encode(s: &str) -> (r: String)
    ensures
        r@ == percent_encode(encode_utf8(s@)),
{
    format!("{}", urlencoding::Encoded::new(s))
}

/// `Hmac::<Sha256>::new_from_slice`, `update` and `finalize` of the `hmac` crate: the contract
/// claims only that the tag is the named HMAC of the arguments and has 32 bytes.
/// `new_from_slice` accepts keys of any length for HMAC, so the `expect` never fires.
#[verifier::external_body]
fn hmac_sha256_tag(key: &[u8], message: &[u8]) -> (tag: Vec<u8>)
    ensures
        tag@ == hmac_sha256(key@, message@),
        tag@.len() == 32,
{
    let mut mac = Hmac::<Sha256>::new_from_slice(key).expect("HMAC takes keys of any length");
    mac.update(message);
    mac.finalize().into_bytes().to_vec()
}

/// The text of an error followed by the chain of its causes: the error, a blank line,
/// then `Caused by:` and the cause, indented, for each cause in turn.
pub open spec fn error_chain_text(chain: Seq<Seq<char>>) -> Seq<char>
    decreases chain.len(),
{
    if chain.len() == 0 {
        seq![]
    } else if chain.len() == 1 {
        chain[0] + "\n\n"@
    } else {
        error_chain_text(chain.drop_last()) + "Caused by:\n\t"@ + chain.last() + "\n"@
    }
}

/// An error without causes is written as its message and a blank line, and each further cause
/// adds exactly one `Caused by:` section, with the cause indented, after everything before it:
/// no cause of a chain is left out, and they come in order.
pub proof fn law_each_cause_adds_a_section(chain: Seq<Seq<char>>, message: Seq<char>, cause: Seq<char>)
    ensures
        error_chain_text(seq![message]) == message + "\n\n"@,
        chain.len() >= 1 ==> error_chain_text(chain.push(cause)) == error_chain_text(chain)
            + "Caused by:\n\t"@ + cause + "\n"@,
{
    if chain.len() >= 1 {
        assert(chain.push(cause).drop_last() =~= chain);
    }
}

/// Writes an error and its chain of causes: `chain[0]` is the error's own message and
/// each following entry the message of the cause of the one before.
pub fn error_chain_fmt(chain: &Vec<String>) -> (out: String)
    ensures
        out@ == error_chain_text(texts(chain@)),
{
    if chain.len() == 0 {
        return String::new();
    }
    let mut out = chain[0].clone();
    out.append("\n\n");
    proof {
        assert(texts(chain@).take(1) =~= seq![chain@[0]@]);
    }
    let n = chain.len();
    let mut i: usize = 1;
    while i < n
        invariant
            1 <= i <= n,
            n == chain@.len(),
            out@ == error_chain_text(texts(chain@).take(i as int)),
        decreases n - i,
    {
        out.append("Caused by:\n\t");
        out.append(chain[i].as_str());
        out.append("\n");
        proof {
            let t = texts(chain@).take(i + 1);
            assert(t.drop_last() =~= texts(chain@).take(i as int));
            assert(t.last() == chain@[i as int]@);
        }
        i = i + 1;
    }
    assert(texts(chain@).take(n as int) =~= texts(chain@));
    out
}

/// What the application's handlers fail with.
pub enum AppError {
    /// The request was malformed; holds the message shown to the client.
    ValidationError(String),
    /// Publishing was refused for want of valid credentials; holds the cause's message.
    PublishAuthError(String),
    /// A login failed: the cause's message and the secret the redirect is signed with.
    AuthError(String, String),
    /// Anything else; holds the cause's message.
    UnexpectedError(String),
}

/// The parts of an HTTP response that an error decides.
pub struct ErrorResponse {
    pub status: u16,
    pub location: Option<String>,
    pub www_authenticate: Option<String>,
}

impl View for ErrorResponse {
    type V = (u16, Option<Seq<char>>, Option<Seq<char>>);

    open spec fn view(&self) -> (u16, Option<Seq<char>>, Option<Seq<char>>) {
        (self.status, opt_text(self.location), opt_text(self.www_authenticate))
    }
}

/// The query string that carries a login failure back to the login page.
pub open spec fn login_error_query(message: Seq<char>) -> Seq<char> {
    "error="@ + percent_encode(encode_utf8(message))
}

/// The tag that signs a login error: the HMAC of its query under the secret, in lowercase
/// hexadecimal.
pub open spec fn login_error_tag(message: Seq<char>, secret: Seq<char>) -> Seq<char> {
    hex_lower(hmac_sha256(encode_utf8(secret), encode_utf8(login_error_query(message))))
}

/// Where a failed login is sent: the login page with the error and its tag.
pub open spec fn login_error_location(message: Seq<char>, secret: Seq<char>) -> Seq<char> {
    "/login?"@ + login_error_query(message) + "&tag="@ + login_error_tag(message, secret)
}

/// The response each error turns into.
pub open spec fn error_response(e: AppError) -> (u16, Option<Seq<char>>, Option<Seq<char>>) {
    match e {
        AppError::ValidationError(_) => (400, None, None),
        AppError::AuthError(message, secret) => (
            303,
            Some(login_error_location(message@, secret@)),
            None,
        ),
        AppError::PublishAuthError(_) => (401, None, Some("Basic realm=\"publish\""@)),
        AppError::UnexpectedError(_) => (500, None, None),
    }
}

/// The text an error displays.
pub open spec fn error_message(e: AppError) -> Seq<char> {
    match e {
        AppError::ValidationError(m) => m@,
        AppError::PublishAuthError(_) => "Failed to authenticate publish newsletter"@,
        AppError::AuthError(_, _) => "Authentication failed"@,
        AppError::UnexpectedError(m) => m@,
    }
}

/// The login page's address with `query` and its `tag` in lowercase hexadecimal appended.
pub fn signed_login_location(query: &str, tag: &[u8]) -> (l: String)
    ensures
        l@ == "/login?"@ + query@ + "&tag="@ + hex_lower(tag@),
        tag@.len() == 32 ==> {
            &&& l@.len() >= 64
            &&& forall|i: int|
                l@.len() - 64 <= i < l@.len() ==> #[trigger] is_lower_hex_digit(l@[i])
        },
{
    let mut location = String::from_str("/login?");
    location.append(query);
    location.append("&tag=");
    let hex = to_hex_lower(tag);
    let ghost before = location@;
    location.append(hex.as_str());
    proof {
        lemma_hex_lower_shape(tag@);
        if tag@.len() == 32 {
            assert forall|i: int|
                location@.len() - 64 <= i < location@.len() implies #[trigger] is_lower_hex_digit(
                location@[i],
            ) by {
                assert(location@[i] == hex@[i - before.len()]);
            }
        }
    }
    location
}

impl AppError {
    /// The text the error displays.
    pub fn message(&self) -> (m: String)
        ensures
            m@ == error_message(*self),
    {
        match self {
            AppError::ValidationError(m) => m.clone(),
            AppError::PublishAuthError(_) => String::from_str(
                "Failed to authenticate publish newsletter",
            ),
            AppError::AuthError(_, _) => String::from_str("Authentication failed"),
            AppError::UnexpectedError(m) => m.clone(),
        }
    }

    /// The status line and headers that the error is answered with. The redirect of a failed
    /// login ends in a tag of exactly 64 lowercase hexadecimal digits.
    pub fn into_response(&self) -> (r: ErrorResponse)
        ensures
            r@ == error_response(*self),
            self matches AppError::AuthError(m, s) ==> {
                let tag = login_error_tag(m@, s@);
                &&& hmac_sha256(encode_utf8(s@), encode_utf8(login_error_query(m@))).len() == 32
                &&& tag.len() == 64
                &&& forall|i: int| 0 <= i < tag.len() ==> #[trigger] is_lower_hex_digit(tag[i])
            },
            r.location matches Some(l) ==> {
                &&& l@.len() >= 64
                &&& forall|i: int|
                    l@.len() - 64 <= i < l@.len() ==> #[trigger] is_lower_hex_digit(l@[i])
            },
    {
        match self {
            AppError::ValidationError(_) => ErrorResponse {
                status: 400,
                location: None,
                www_authenticate: None,
            },
            AppError::AuthError(message, secret) => {
                let mut query = String::from_str("error=");
                let encoded = url_encode(message.as_str());
                query.append(encoded.as_str());
                let tag = hmac_sha256_tag(secret.as_str().as_bytes(), query.as_str().as_bytes());
                proof {
                    lemma_hex_lower_shape(tag@);
                }
                let location = signed_login_location(query.as_str(), tag.as_slice());
                ErrorResponse { status: 303, location: Some(location), www_authenticate: None }
            },
            AppError::PublishAuthError(_) => ErrorResponse {
                status: 401,
                location: None,
                www_authenticate: Some(String::from_str("Basic realm=\"publish\"")),
            },
            AppError::UnexpectedError(_) => ErrorResponse {
                status: 500,
                location: None,
                www_authenticate: None,
            },
        }
    }
}

} // verus!
