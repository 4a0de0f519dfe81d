//! Publishing a newsletter: HTTP Basic credentials, the password check and who is written to.

use argon2::{Argon2, PasswordHash, PasswordVerifier};
use uuid::Uuid;
use vstd::prelude::*;
use vstd::string::StringExecFns;
use vstd::utf8::{decode_utf8, encode_utf8, valid_utf8};

use crate::error::AppError;
use crate::text::{push_char, string_from_utf8, texts};

verus! {

/// The JSON body of a publish request.
pub struct BodyData {
    pub title: String,
    pub content: Content,
}

/// The two renderings of a newsletter issue.
pub struct Content {
    pub html: String,
    pub text: String,
}

/// A user name and password taken from a request.
pub struct Credentials {
    pub username: String,
    pub password: String,
}

/// Why the `Authorization` header did not yield credentials.
#[derive(PartialEq, Eq, Structural, Clone, Copy, Debug)]
pub enum BasicAuthError {
    /// The request has no `Authorization` header.
    MissingHeader,
    /// The header holds a byte that is not visible ASCII.
    NotVisibleAscii,
    /// The header does not start with `Basic `.
    NotBasicScheme,
    /// What follows `Basic ` is not standard base64.
    NotBase64,
    /// The decoded credentials are not UTF-8.
    NotUtf8,
    /// The decoded credentials hold no `:` before the password.
    MissingPassword,
}

/// The message of each refusal.
pub open spec fn basic_auth_error_message(e: BasicAuthError) -> Seq<char> {
    match e {
        BasicAuthError::MissingHeader => "Missing Authorization header"@,
        BasicAuthError::NotVisibleAscii => "The Authorization header was not a valid UTF8 string"@,
        BasicAuthError::NotBasicScheme => "The authorization scheme was not 'Basic'"@,
        BasicAuthError::NotBase64 => "Failed to base64-encode 'Basic' credentials"@,
        BasicAuthError::NotUtf8 => "Failed to decode base64-encoded credentials"@,
        BasicAuthError::MissingPassword => "A password must be provided in 'Basic' auth."@,
    }
}

impl BasicAuthError {
    /// The message of the refusal.
    pub fn message(&self) -> (m: String)
        ensures
            m@ == basic_auth_error_message(*self),
    {
        match self {
            BasicAuthError::MissingHeader => String::from_str("Missing Authorization header"),
            BasicAuthError::NotVisibleAscii => String::from_str(
                "The Authorization header was not a valid UTF8 string",
            ),
            BasicAuthError::NotBasicScheme => String::from_str(
                "The authorization scheme was not 'Basic'",
            ),
            BasicAuthError::NotBase64 => String::from_str(
                "Failed to base64-encode 'Basic' credentials",
            ),
            BasicAuthError::NotUtf8 => String::from_str(
                "Failed to decode base64-encoded credentials",
            ),
            BasicAuthError::MissingPassword => String::from_str(
                "A password must be provided in 'Basic' auth.",
            ),
        }
    }
}

/// A byte a header value may hold to be read as text: visible ASCII or a tab.
pub open spec fn is_visible_ascii(b: u8) -> bool {
    (32 <= b && b < 127) || b == 9
}

/// The bytes of `Basic `.
pub open spec fn basic_scheme() -> Seq<u8> {
    seq![66u8, 97u8, 115u8, 105u8, 99u8, 32u8]
}

/// What follows `Basic ` in the `Authorization` header, or why there is nothing.
pub open spec fn credentials_segment_of(authorization: Option<Seq<u8>>) -> Result<
    Seq<u8>,
    BasicAuthError,
> {
    match authorization {
        None => Err(BasicAuthError::MissingHeader),
        Some(h) => if !(forall|i: int| 0 <= i < h.len() ==> #[trigger] is_visible_ascii(h[i])) {
            Err(BasicAuthError::NotVisibleAscii)
        } else if !(h.len() >= 6 && h.take(6) == basic_scheme()) {
            Err(BasicAuthError::NotBasicScheme)
        } else {
            Ok(h.skip(6))
        },
    }
}

/// The credentials segment is the whole header after `Basic `, however long: whenever a
/// segment is read, the header is exactly `Basic ` followed by it; and a header of visible
/// ASCII that starts with `Basic ` always has one.
pub proof fn law_segment_is_whole_rest_of_header(header: Seq<u8>)
    ensures
        credentials_segment_of(Some(header)) matches Ok(segment) ==> header == seq![
            66u8,
            97u8,
            115u8,
            105u8,
            99u8,
            32u8,
        ] + segment,
        (forall|i: int| 0 <= i < header.len() ==> #[trigger] is_visible_ascii(header[i]))
            && header.len() >= 6 && header.take(6) == seq![66u8, 97u8, 115u8, 105u8, 99u8, 32u8]
            ==> credentials_segment_of(Some(header)) is Ok,
{
    if credentials_segment_of(Some(header)) is Ok {
        assert(header =~= header.take(6) + header.skip(6));
    }
}

/// `i` is the position of the first `:` in `cs`.
pub open spec fn is_first_colon(cs: Seq<char>, i: int) -> bool {
    &&& 0 <= i < cs.len()
    &&& cs[i] == ':'
    &&& forall|j: int| 0 <= j < i ==> cs[j] != ':'
}

/// Splits `cs` at its first `:` into a user name and a password; nothing when there is no `:`.
pub open spec fn split_credentials(cs: Seq<char>) -> Option<(Seq<char>, Seq<char>)> {
    if exists|i: int| is_first_colon(cs, i) {
        let i = choose|i: int| is_first_colon(cs, i);
        Some((cs.take(i), cs.skip(i + 1)))
    } else {
        None
    }
}

/// The credentials that decoded bytes hold, or why they hold none.
pub open spec fn credentials_of(decoded: Seq<u8>) -> Result<(Seq<char>, Seq<char>), BasicAuthError> {
    if !valid_utf8(decoded) {
        Err(BasicAuthError::NotUtf8)
    } else {
        match split_credentials(decode_utf8(decoded)) {
            None => Err(BasicAuthError::MissingPassword),
            Some(p) => Ok(p),
        }
    }
}

/// Standard base64 decoding with padding, as `base64::decode_config` with `base64::STANDARD`
/// computes it: the decoded bytes, or nothing when the input is not valid base64.
pub uninterp spec fn base64_standard_decode(input: Seq<u8>) -> Option<Seq<u8>>;

/// The credentials of an `Authorization` header, or why there are none.
pub open spec fn basic_credentials_of(authorization: Option<Seq<u8>>) -> Result<
    (Seq<char>, Seq<char>),
    BasicAuthError,
> {
    match credentials_segment_of(authorization) {
        Err(e) => Err(e),
        Ok(segment) => match base64_standard_decode(segment) {
            None => Err(BasicAuthError::NotBase64),
            Some(decoded) => credentials_of(decoded),
        },
    }
}

/// The view of optional bytes.
pub open spec fn opt_bytes(o: Option<Vec<u8>>) -> Option<Seq<u8>> {
    match o {
        Some(v) => Some(v@),
        None => None,
    }
}

/// The view of a result holding bytes.
pub open spec fn bytes_result<E>(r: Result<Vec<u8>, E>) -> Result<Seq<u8>, E> {
    match r {
        Ok(v) => Ok(v@),
        Err(e) => Err(e),
    }
}

/// The view of a result holding credentials.
pub open spec fn credentials_result<E>(r: Result<Credentials, E>) -> Result<
    (Seq<char>, Seq<char>),
    E,
> {
    match r {
        Ok(c) => Ok((c.username@, c.password@)),
        Err(e) => Err(e),
    }
}

/// `base64::decode_config` with `base64::STANDARD`: the contract claims that the result is
/// the named decoding of the input. The crate panics only when the input length plus 3
/// overflows, which `requires` leaves out.
#[verifier::external_body]
fn base64_decode_standard(input: &[u8]) -> (r: Option<Vec<u8>>)
    requires
        input@.len() + 3 <= usize::MAX,
    ensures
        opt_bytes(r) == base64_standard_decode(input@),
{
    base64::decode_config(input, base64::STANDARD).ok()
}

/// What follows `Basic ` in the value of the `Authorization` header, once the value has been
/// read as text (every byte visible ASCII or a tab).
pub fn credentials_segment(authorization: Option<Vec<u8>>) -> (r: Result<Vec<u8>, BasicAuthError>)
    ensures
        bytes_result(r) == credentials_segment_of(opt_bytes(authorization)),
        r matches Ok(segment) ==> segment@.len() + 6 <= usize::MAX,
{
    match authorization {
        None => Err(BasicAuthError::MissingHeader),
        Some(h) => {
            let n = h.len();
            let mut visible = true;
            for i in 0..n
                invariant
                    n == h@.len(),
                    visible <==> forall|j: int| 0 <= j < i ==> #[trigger] is_visible_ascii(h@[j]),
            {
                let b = h[i];
                assert(is_visible_ascii(h@[i as int]) <==> ((32 <= b && b < 127) || b == 9));
                if !((32 <= b && b < 127) || b == 9) {
                    visible = false;
                }
            }
            if !visible {
                return Err(BasicAuthError::NotVisibleAscii);
            }
            if n < 6 || h[0] != 66 || h[1] != 97 || h[2] != 115 || h[3] != 105 || h[4] != 99 || h[5]
                != 32 {
                proof {
                    if n >= 6 && h@.take(6) == basic_scheme() {
                        assert(h@.take(6)[0] == h@[0]);
                        assert(h@.take(6)[1] == h@[1]);
                        assert(h@.take(6)[2] == h@[2]);
                        assert(h@.take(6)[3] == h@[3]);
                        assert(h@.take(6)[4] == h@[4]);
                        assert(h@.take(6)[5] == h@[5]);
                    }
                }
                return Err(BasicAuthError::NotBasicScheme);
            }
            assert(h@.take(6) =~= basic_scheme());
            let mut rest: Vec<u8> = Vec::new();
            for i in 6..n
                invariant
                    n == h@.len(),
                    6 <= n,
                    rest@ == h@.subrange(6, i as int),
            {
                rest.push(h[i]);
            }
            assert(rest@ =~= h@.skip(6));
            Ok(rest)
        },
    }
}

/// The user name and password in decoded `Basic` credentials: the text up to the first `:`
/// and the text after it.
pub fn parse_credentials(decoded: Vec<u8>) -> (r: Result<Credentials, BasicAuthError>)
    ensures
        credentials_result(r) == credentials_of(decoded@),
{
    let s = match string_from_utf8(decoded) {
        None => {
            return Err(BasicAuthError::NotUtf8);
        },
        Some(s) => s,
    };
    let mut username = String::new();
    let mut password = String::new();
    let mut found = false;
    let ghost mut seen: int = 0;
    let ghost mut k: int = 0;
    proof {
        broadcast use vstd::string::group_string_axioms;
    }
    for c in it: s.as_str().chars()
        invariant
            it.seq() == s@,
            seen == it.index(),
            0 <= seen <= s@.len(),
            !found ==> password@.len() == 0,
            !found ==> username@ == s@.take(seen) && forall|j: int|
                0 <= j < seen ==> s@[j] != ':',
            found ==> is_first_colon(s@, k) && k < seen && username@ == s@.take(k)
                && password@ == s@.subrange(k + 1, seen),
    {
        assert(c == s@[seen]);
        if found {
            push_char(&mut password, c);
            proof {
                assert(password@ =~= s@.subrange(k + 1, seen + 1));
            }
        } else if c == ':' {
            found = true;
            proof {
                k = seen;
                assert(password@ =~= s@.subrange(k + 1, seen + 1));
            }
        } else {
            push_char(&mut username, c);
            proof {
                assert(username@ =~= s@.take(seen + 1));
            }
        }
        proof {
            seen = seen + 1;
        }
    }
    proof {
        broadcast use vstd::string::group_string_axioms;
        assert(seen == s@.len());
    }
    if !found {
        proof {
            assert(!exists|i: int| is_first_colon(s@, i));
        }
        return Err(BasicAuthError::MissingPassword);
    }
    proof {
        assert(is_first_colon(s@, k));
        let i = choose|i: int| is_first_colon(s@, i);
        if i < k {
            assert(s@[i] == ':');
        } else if k < i {
            assert(s@[k] == ':');
        }
        assert(i == k);
        assert(password@ =~= s@.skip(k + 1));
    }
    Ok(Credentials { username, password })
}

/// The credentials carried by the `Authorization` header of a publish request: the value
/// must read as text, use the `Basic` scheme, hold standard base64 and decode to UTF-8 text
/// with a `:` between user name and password.
pub fn basic_authentication(authorization: Option<Vec<u8>>) -> (r: Result<Credentials, BasicAuthError>)
    ensures
        credentials_result(r) == basic_credentials_of(opt_bytes(authorization)),
{
    let segment = match credentials_segment(authorization) {
        Err(e) => {
            return Err(e);
        },
        Ok(s) => s,
    };
    match base64_decode_standard(segment.as_slice()) {
        None => Err(BasicAuthError::NotBase64),
        Some(decoded) => parse_credentials(decoded),
    }
}

/// Credentials written as `user:password` and decoded from UTF-8 are read back as they were
/// written, whatever the password holds, as long as the user name holds no `:`.
pub proof fn law_credentials_round_trip(username: Seq<char>, password: Seq<char>)
    requires
        !username.contains(':'),
    ensures
        credentials_of(encode_utf8(username + seq![':'] + password)) == Ok::<
            (Seq<char>, Seq<char>),
            BasicAuthError,
        >((username, password)),
{
    broadcast use vstd::utf8::group_utf8_lib;

    let cs = username + seq![':'] + password;
    let k = username.len() as int;
    assert(decode_utf8(encode_utf8(cs)) == cs);
    assert forall|j: int| 0 <= j < k implies cs[j] != ':' by {
        assert(cs[j] == username[j]);
        if cs[j] == ':' {
            assert(username.contains(':'));
        }
    }
    assert(is_first_colon(cs, k));
    let i = choose|i: int| is_first_colon(cs, i);
    if i < k {
        assert(cs[i] == ':');
    } else if k < i {
        assert(cs[k] == ':');
    }
    assert(cs.take(k) =~= username);
    assert(cs.skip(k + 1) =~= password);
}

/// The row a user's credentials are checked against.
pub struct StoredCredentials {
    pub user_id: Uuid,
    pub password_hash: String,
}

/// Why credentials were refused.
#[derive(PartialEq, Eq, Structural, Clone, Copy, Debug)]
pub enum CredentialsError {
    /// The users could not be queried.
    QueryFailed,
    /// No user has the given name.
    UnknownUser,
    /// The stored hash is not a PHC string.
    InvalidStoredHash,
    /// The password does not match the stored hash.
    WrongPassword,
}

/// The message of each refusal.
pub open spec fn credentials_error_message(e: CredentialsError) -> Seq<char> {
    match e {
        CredentialsError::QueryFailed => "Failed to perform a query to validate auth credentials"@,
        CredentialsError::UnknownUser => "Invalid credentials"@,
        CredentialsError::InvalidStoredHash => "Failed to parse the stored password hash"@,
        CredentialsError::WrongPassword => "Failed to verify the password"@,
    }
}

impl CredentialsError {
    /// The message of the refusal.
    pub fn message(&self) -> (m: String)
        ensures
            m@ == credentials_error_message(*self),
    {
        match self {
            CredentialsError::QueryFailed => String::from_str(
                "Failed to perform a query to validate auth credentials",
            ),
            CredentialsError::UnknownUser => String::from_str("Invalid credentials"),
            CredentialsError::InvalidStoredHash => String::from_str(
                "Failed to parse the stored password hash",
            ),
            CredentialsError::WrongPassword => String::from_str("Failed to verify the password"),
        }
    }
}

/// `PasswordHash::new` of the `password-hash` crate (through `argon2`) accepts the text as a
/// PHC string.
pub uninterp spec fn phc_string_parses(phc: Seq<char>) -> bool;

/// `Argon2::default().verify_password` of the `argon2` crate accepts the password against the
/// parsed PHC string.
pub uninterp spec fn argon2_password_matches(password: Seq<u8>, phc: Seq<char>) -> bool;

/// What checking a password against a stored hash found.
#[derive(PartialEq, Eq, Structural, Clone, Copy, Debug)]
pub enum PasswordCheck {
    /// The password matches the hash.
    Matches,
    /// The stored hash could not be parsed.
    InvalidHash,
    /// The hash was parsed and the password does not match it.
    Mismatch,
}

/// `PasswordHash::new` followed by `Argon2::default().verify_password`: the two calls only
/// make sense together, since the parsed hash borrows the text and cannot be described apart
/// from it. The contract claims that parsing succeeds as the name `phc_string_parses` says and
/// that verification then succeeds as `argon2_password_matches` says; both depend on the
/// arguments alone.
#[verifier::external_body]
fn argon2_check(password: &[u8], phc: &str) -> (r: PasswordCheck)
    ensures
        (r == PasswordCheck::InvalidHash) <==> !phc_string_parses(phc@),
        (r == PasswordCheck::Matches) <==> (phc_string_parses(phc@) && argon2_password_matches(
            password@,
            phc@,
        )),
{
    match PasswordHash::new(phc) {
        Err(_) => PasswordCheck::InvalidHash,
        Ok(hash) => match Argon2::default().verify_password(password, &hash) {
            Ok(()) => PasswordCheck::Matches,
            Err(_) => PasswordCheck::Mismatch,
        },
    }
}

/// The user that a password check vouches for, or why it vouches for none.
pub open spec fn credentials_verdict_of(user_id: Uuid, check: PasswordCheck) -> Result<
    Uuid,
    CredentialsError,
> {
    match check {
        PasswordCheck::Matches => Ok(user_id),
        PasswordCheck::InvalidHash => Err(CredentialsError::InvalidStoredHash),
        PasswordCheck::Mismatch => Err(CredentialsError::WrongPassword),
    }
}

/// Decides on the outcome of checking a password for the user `user_id`.
pub fn credentials_verdict(user_id: Uuid, check: PasswordCheck) -> (r: Result<Uuid, CredentialsError>)
    ensures
        r == credentials_verdict_of(user_id, check),
{
    match check {
        PasswordCheck::Matches => Ok(user_id),
        PasswordCheck::InvalidHash => Err(CredentialsError::InvalidStoredHash),
        PasswordCheck::Mismatch => Err(CredentialsError::WrongPassword),
    }
}

/// Checks `password` against the stored row of the user with the given name, if any: no row
/// means unknown credentials; otherwise the stored PHC string must parse and accept the
/// UTF-8 bytes of the password.
pub fn check_credentials(stored: Option<StoredCredentials>, password: &str) -> (r: Result<
    Uuid,
    CredentialsError,
>)
    ensures
        match stored {
            None => r == Err::<Uuid, CredentialsError>(CredentialsError::UnknownUser),
            Some(row) => {
                &&& !phc_string_parses(row.password_hash@) ==> r == Err::<Uuid, CredentialsError>(
                    CredentialsError::InvalidStoredHash,
                )
                &&& phc_string_parses(row.password_hash@) && argon2_password_matches(
                    encode_utf8(password@),
                    row.password_hash@,
                ) ==> r == Ok::<Uuid, CredentialsError>(row.user_id)
                &&& phc_string_parses(row.password_hash@) && !argon2_password_matches(
                    encode_utf8(password@),
                    row.password_hash@,
                ) ==> r == Err::<Uuid, CredentialsError>(CredentialsError::WrongPassword)
            },
        },
{
    match stored {
        None => Err(CredentialsError::UnknownUser),
        Some(row) => {
            let check = argon2_check(password.as_bytes(), row.password_hash.as_str());
            credentials_verdict(row.user_id, check)
        },
    }
}

/// A subscription as stored: its email, or why the stored details are not a valid email,
/// and its status.
pub struct StoredSubscription {
    pub email: Result<String, String>,
    pub status: String,
}

/// The status of a subscription whose owner has confirmed it.
pub open spec fn confirmed_status() -> Seq<char> {
    "confirmed"@
}

/// The email addresses to write to: those of the confirmed subscriptions whose stored details
/// are valid, in the order they were listed.
pub open spec fn recipients_of(subscriptions: Seq<StoredSubscription>) -> Seq<Seq<char>>
    decreases subscriptions.len(),
{
    if subscriptions.len() == 0 {
        seq![]
    } else {
        let rest = recipients_of(subscriptions.drop_last());
        let last = subscriptions.last();
        match last.email {
            Ok(email) => if last.status@ == confirmed_status() {
                rest.push(email@)
            } else {
                rest
            },
            Err(_) => rest,
        }
    }
}

/// `address` is the valid email of `row`, and `row` is confirmed.
pub open spec fn confirmed_address_of(row: StoredSubscription, address: Seq<char>) -> bool {
    &&& row.status@ == confirmed_status()
    &&& row.email matches Ok(e) && e@ == address
}

/// The position of the subscription that the `i`th recipient comes from.
pub open spec fn source_of(subscriptions: Seq<StoredSubscription>, i: int) -> int
    decreases subscriptions.len(),
{
    if subscriptions.len() == 0 {
        0
    } else if i < recipients_of(subscriptions.drop_last()).len() {
        source_of(subscriptions.drop_last(), i)
    } else {
        subscriptions.len() - 1
    }
}

/// Every address written to is the valid email of a confirmed subscription: pending
/// subscribers are never written to. The `i`th recipient comes from the subscription at
/// `source_of(subscriptions, i)`.
pub proof fn law_recipients_are_confirmed(subscriptions: Seq<StoredSubscription>)
    ensures
        forall|i: int|
            0 <= i < recipients_of(subscriptions).len() ==> 0 <= #[trigger] source_of(
                subscriptions,
                i,
            ) < subscriptions.len(),
        forall|i: int|
            0 <= i < recipients_of(subscriptions).len() ==> confirmed_address_of(
                subscriptions[source_of(subscriptions, i)],
                #[trigger] recipients_of(subscriptions)[i],
            ),
    decreases subscriptions.len(),
{
    if subscriptions.len() > 0 {
        let init = subscriptions.drop_last();
        law_recipients_are_confirmed(init);
        assert forall|i: int| 0 <= i < recipients_of(subscriptions).len() implies 0
            <= #[trigger] source_of(subscriptions, i) < subscriptions.len() by {
            if i < recipients_of(init).len() {
                assert(0 <= source_of(init, i) < init.len());
            }
        }
        assert forall|i: int| 0 <= i < recipients_of(subscriptions).len() implies confirmed_address_of(
            subscriptions[source_of(subscriptions, i)],
            #[trigger] recipients_of(subscriptions)[i],
        ) by {
            if i < recipients_of(init).len() {
                assert(recipients_of(subscriptions)[i] == recipients_of(init)[i]);
                assert(0 <= source_of(init, i) < init.len());
                assert(subscriptions[source_of(init, i)] == init[source_of(init, i)]);
            }
        }
    }
}

/// No confirmed subscriber with a valid email is left out: the recipients are exactly the
/// valid emails of the subscriptions whose status is `confirmed`, one for each such
/// subscription, in the order of the subscriptions, however many there are.
pub proof fn law_every_confirmed_subscriber_is_a_recipient(subscriptions: Seq<StoredSubscription>)
    ensures
        recipients_of(subscriptions) == subscriptions.filter_map(
            |row: StoredSubscription|
                if row.status@ == "confirmed"@ {
                    match row.email {
                        Ok(e) => Some(e@),
                        Err(_) => None,
                    }
                } else {
                    None
                },
        ),
        forall|j: int|
            #![trigger subscriptions[j]]
            0 <= j < subscriptions.len() && subscriptions[j].status@ == "confirmed"@
                ==> (subscriptions[j].email matches Ok(e) ==> recipients_of(subscriptions).contains(
                e@,
            )),
    decreases subscriptions.len(),
{
    if subscriptions.len() > 0 {
        let init = subscriptions.drop_last();
        law_every_confirmed_subscriber_is_a_recipient(init);
        let rest = recipients_of(init);
        let all = recipients_of(subscriptions);
        assert forall|j: int|
            #![trigger subscriptions[j]]
            0 <= j < subscriptions.len() && subscriptions[j].status@ == "confirmed"@
                implies (subscriptions[j].email matches Ok(e) ==> all.contains(e@)) by {
            if j < init.len() {
                assert(subscriptions[j] == init[j]);
                if let Ok(e) = subscriptions[j].email {
                    let k = choose|k: int| 0 <= k < rest.len() && rest[k] == e@;
                    assert(all[k] == rest[k]);
                }
            } else {
                if let Ok(e) = subscriptions[j].email {
                    assert(all[all.len() - 1] == e@);
                }
            }
        }
    }
}

/// What publishing does once the subscriptions have been fetched: a failed query is an
/// unexpected error; then a body that is not valid JSON is refused; otherwise the issue is
/// sent to every confirmed subscriber whose stored email is valid, in order, and the others
/// are skipped.
pub fn publish_recipients(
    subscriptions: Result<Vec<StoredSubscription>, String>,
    body_is_valid: bool,
) -> (r: Result<Vec<String>, AppError>)
    ensures
        match subscriptions {
            Err(m) => r matches Err(AppError::UnexpectedError(e)) && e@ == m@,
            Ok(list) => if !body_is_valid {
                r matches Err(AppError::ValidationError(e)) && e@ == "Invalid JSON payload"@
            } else {
                r matches Ok(v) && texts(v@) == recipients_of(list@)
            },
        },
{
    match subscriptions {
        Err(m) => Err(AppError::UnexpectedError(m)),
        Ok(list) => {
            if !body_is_valid {
                return Err(AppError::ValidationError(String::from_str("Invalid JSON payload")));
            }
            let confirmed = String::from_str("confirmed");
            let mut out: Vec<String> = Vec::new();
            let n = list.len();
            for i in 0..n
                invariant
                    n == list@.len(),
                    confirmed@ == confirmed_status(),
                    texts(out@) == recipients_of(list@.take(i as int)),
            {
                proof {
                    assert(list@.take(i + 1).drop_last() =~= list@.take(i as int));
                    assert(list@.take(i + 1).last() == list@[i as int]);
                }
                let row = &list[i];
                match &row.email {
                    Ok(email) => {
                        if row.status == confirmed {
                            out.push(email.clone());
                            proof {
                                assert(texts(out@) =~= recipients_of(list@.take(i as int)).push(
                                    email@,
                                ));
                            }
                        }
                    },
                    Err(_) => {},
                }
            }
            assert(list@.take(n as int) =~= list@);
            Ok(out)
        },
    }
}

/// What publishing does after trying to write to `email`: a failure ends the request with an
/// unexpected error that names the address.
pub fn publish_after_send(email: &str, sent: Result<(), String>) -> (r: Result<(), AppError>)
    ensures
        match sent {
            Ok(()) => r is Ok,
            Err(_) => r matches Err(AppError::UnexpectedError(m)) && m@ == "Failed to send email to "@
                + email@,
        },
{
    match sent {
        Ok(()) => Ok(()),
        Err(_) => {
            let mut m = String::from_str("Failed to send email to ");
            m.append(email);
            Err(AppError::UnexpectedError(m))
        },
    }
}

/// A publish request whose credentials are being checked; it keeps the issue, if the body
/// was valid JSON.
pub struct AwaitingCredentials {
    pub issue: Option<BodyData>,
}

/// A publish request whose subscriptions are being fetched.
pub struct AwaitingSubscribers {
    pub issue: Option<BodyData>,
}

/// A publish request in its sending phase: the issue is being sent to `recipients[next]`.
pub struct Sending {
    issue: BodyData,
    recipients: Vec<String>,
    next: usize,
}

impl Sending {
    #[verifier::type_invariant]
    spec fn well_formed(self) -> bool {
        self.next < self.recipients@.len()
    }

    /// The title, HTML and text of the issue being sent.
    pub closed spec fn issue_view(self) -> (Seq<char>, Seq<char>, Seq<char>) {
        (self.issue.title@, self.issue.content.html@, self.issue.content.text@)
    }

    /// The addresses the issue goes to, in order.
    pub closed spec fn recipient_list(self) -> Seq<Seq<char>> {
        texts(self.recipients@)
    }

    /// The position of the recipient being written to.
    pub closed spec fn position(self) -> int {
        self.next as int
    }
}

/// The view of an issue.
pub open spec fn issue_of(b: BodyData) -> (Seq<char>, Seq<char>, Seq<char>) {
    (b.title@, b.content.html@, b.content.text@)
}

/// One email of an issue: its address, title, HTML and text.
pub struct Delivery {
    pub recipient: String,
    pub title: String,
    pub html: String,
    pub text: String,
}

/// What a publish request needs done next; each piece of outside work carries the request
/// that waits for its outcome.
pub enum PublishAction {
    /// Check these credentials against the stored users.
    CheckCredentials(Credentials, AwaitingCredentials),
    /// Fetch the subscriptions.
    FetchSubscribers(AwaitingSubscribers),
    /// Send this email.
    Send(Delivery, Sending),
    /// Answer with this status, or fail with this error, and stop.
    Respond(Result<u16, AppError>),
}

/// What the sending phase does after the send to `recipients[next]` succeeded or failed:
/// the position of the next send, or the end of the request (`Ok` for 200, `Err` with the
/// address whose send failed).
pub open spec fn sending_transition(recipients: Seq<Seq<char>>, next: int, succeeded: bool) -> Result<
    Option<int>,
    Seq<char>,
> {
    if !succeeded {
        Err(recipients[next])
    } else if next + 1 < recipients.len() {
        Ok(Some(next + 1))
    } else {
        Ok(None)
    }
}

/// The send to `recipients[next]`, or the answer 200 when every recipient has been written to.
fn begin_sending(issue: BodyData, recipients: Vec<String>, next: usize) -> (a: PublishAction)
    requires
        next <= recipients@.len(),
    ensures
        next < recipients@.len() ==> (a matches PublishAction::Send(d, s) && {
            &&& s.recipient_list() == texts(recipients@)
            &&& s.position() == next
            &&& s.issue_view() == issue_of(issue)
            &&& d.recipient@ == recipients@[next as int]@
            &&& (d.title@, d.html@, d.text@) == issue_of(issue)
        }),
        next == recipients@.len() ==> (a matches PublishAction::Respond(Ok(s)) && s == 200),
{
    if next < recipients.len() {
        let delivery = Delivery {
            recipient: recipients[next].clone(),
            title: issue.title.clone(),
            html: issue.content.html.clone(),
            text: issue.content.text.clone(),
        };
        PublishAction::Send(delivery, Sending { issue, recipients, next })
    } else {
        PublishAction::Respond(Ok(200))
    }
}

/// How a publish request begins: the `Authorization` header must carry `Basic` credentials,
/// or the request is refused with 401 whatever its body; otherwise the credentials are
/// checked, and the request keeps the issue.
pub fn publish_start(authorization: Option<Vec<u8>>, issue: Option<BodyData>) -> (a: PublishAction)
    ensures
        match basic_credentials_of(opt_bytes(authorization)) {
            Err(e) => a matches PublishAction::Respond(Err(AppError::PublishAuthError(m)))
                && m@ == basic_auth_error_message(e),
            Ok(c) => a matches PublishAction::CheckCredentials(given, next) && (
            given.username@,
            given.password@,
            ) == c && next.issue == issue,
        },
{
    match basic_authentication(authorization) {
        Err(e) => PublishAction::Respond(Err(AppError::PublishAuthError(e.message()))),
        Ok(c) => PublishAction::CheckCredentials(c, AwaitingCredentials { issue }),
    }
}

/// After the credentials were checked: refused credentials are answered 401; accepted ones
/// lead to fetching the subscriptions.
pub fn publish_on_credentials(state: AwaitingCredentials, check: Result<Uuid, CredentialsError>) -> (a:
    PublishAction)
    ensures
        match check {
            Err(e) => a matches PublishAction::Respond(Err(AppError::PublishAuthError(m))) && m@
                == credentials_error_message(e),
            Ok(_) => a matches PublishAction::FetchSubscribers(next) && next.issue == state.issue,
        },
{
    match check {
        Err(e) => PublishAction::Respond(Err(AppError::PublishAuthError(e.message()))),
        Ok(_) => PublishAction::FetchSubscribers(AwaitingSubscribers { issue: state.issue }),
    }
}

/// After the subscriptions were fetched: a failed query is an unexpected error, then an
/// invalid body is refused, and otherwise the issue goes to the confirmed subscribers with a
/// valid email, in order, or the request is answered 200 at once when there are none.
pub fn publish_on_subscribers(
    state: AwaitingSubscribers,
    fetched: Result<Vec<StoredSubscription>, String>,
) -> (a: PublishAction)
    ensures
        match fetched {
            Err(m) => a matches PublishAction::Respond(Err(AppError::UnexpectedError(e))) && e@
                == m@,
            Ok(list) => match state.issue {
                None => a matches PublishAction::Respond(Err(AppError::ValidationError(e))) && e@
                    == "Invalid JSON payload"@,
                Some(issue) => if recipients_of(list@).len() == 0 {
                    a matches PublishAction::Respond(Ok(s)) && s == 200
                } else {
                    a matches PublishAction::Send(d, s) && {
                        &&& s.recipient_list() == recipients_of(list@)
                        &&& s.position() == 0
                        &&& s.issue_view() == issue_of(issue)
                        &&& d.recipient@ == recipients_of(list@)[0]
                        &&& (d.title@, d.html@, d.text@) == issue_of(issue)
                    }
                },
            },
        },
{
    let body_is_valid = state.issue.is_some();
    match publish_recipients(fetched, body_is_valid) {
        Err(e) => PublishAction::Respond(Err(e)),
        Ok(recipients) => match state.issue {
            Some(issue) => begin_sending(issue, recipients, 0),
            None => PublishAction::Respond(
                Err(AppError::ValidationError(String::from_str("Invalid JSON payload"))),
            ),
        },
    }
}

/// After a send: a failure ends the request with an unexpected error naming the address;
/// a success moves on to the next recipient, or answers 200 after the last one.
pub fn publish_on_sent(state: Sending, sent: Result<(), String>) -> (a: PublishAction)
    ensures
        match sending_transition(state.recipient_list(), state.position(), sent is Ok) {
            Err(address) => a matches PublishAction::Respond(Err(AppError::UnexpectedError(m)))
                && m@ == "Failed to send email to "@ + address,
            Ok(None) => a matches PublishAction::Respond(Ok(s)) && s == 200,
            Ok(Some(i)) => a matches PublishAction::Send(d, s) && {
                &&& s.recipient_list() == state.recipient_list()
                &&& s.position() == i
                &&& s.issue_view() == state.issue_view()
                &&& d.recipient@ == state.recipient_list()[i]
                &&& (d.title@, d.html@, d.text@) == state.issue_view()
            },
        },
{
    proof {
        use_type_invariant(&state);
    }
    let Sending { issue, recipients, next } = state;
    let count = recipients.len();
    match publish_after_send(recipients[next].as_str(), sent) {
        Err(e) => PublishAction::Respond(Err(e)),
        Ok(()) => begin_sending(issue, recipients, next + 1),
    }
}

/// How the sending phase ends when the sends from `recipients[next]` on report `results`:
/// `Ok(())` (the request is answered 200) once every remaining send succeeded, the address of
/// the first failed send otherwise, and `None` while sends are still outstanding.
pub open spec fn sending_run(recipients: Seq<Seq<char>>, next: int, results: Seq<bool>) -> Option<
    Result<(), Seq<char>>,
>
    decreases results.len(),
{
    if results.len() == 0 {
        None
    } else {
        match sending_transition(recipients, next, results[0]) {
            Err(address) => Some(Err(address)),
            Ok(None) => Some(Ok(())),
            Ok(Some(i)) => sending_run(recipients, i, results.drop_first()),
        }
    }
}

/// The issue goes to every recipient in turn: the request succeeds exactly when all sends
/// succeed, and otherwise fails naming the first recipient whose send failed.
pub proof fn law_sends_stop_at_the_first_failure(recipients: Seq<Seq<char>>, results: Seq<bool>)
    requires
        recipients.len() > 0,
        results.len() == recipients.len(),
    ensures
        (forall|i: int| 0 <= i < results.len() ==> #[trigger] results[i]) ==> sending_run(
            recipients,
            0,
            results,
        ) == Some(Ok::<(), Seq<char>>(())),
        forall|k: int|
            0 <= k < results.len() && !#[trigger] results[k] && (forall|i: int|
                0 <= i < k ==> results[i]) ==> sending_run(recipients, 0, results) == Some(
                Err::<(), Seq<char>>(recipients[k]),
            ),
{
    lemma_sending_run(recipients, 0, results);
}

/// `sending_run` from `recipients[next]` with one result per remaining recipient.
proof fn lemma_sending_run(recipients: Seq<Seq<char>>, next: int, results: Seq<bool>)
    requires
        0 <= next < recipients.len(),
        results.len() == recipients.len() - next,
    ensures
        (forall|i: int| 0 <= i < results.len() ==> #[trigger] results[i]) ==> sending_run(
            recipients,
            next,
            results,
        ) == Some(Ok::<(), Seq<char>>(())),
        forall|k: int|
            0 <= k < results.len() && !#[trigger] results[k] && (forall|i: int|
                0 <= i < k ==> results[i]) ==> sending_run(recipients, next, results) == Some(
                Err::<(), Seq<char>>(recipients[next + k]),
            ),
    decreases results.len(),
{
    let rest = results.drop_first();
    if next + 1 < recipients.len() {
        lemma_sending_run(recipients, next + 1, rest);
        assert forall|k: int|
            0 <= k < results.len() && !#[trigger] results[k] && (forall|i: int|
                0 <= i < k ==> results[i]) implies sending_run(recipients, next, results) == Some(
            Err::<(), Seq<char>>(recipients[next + k]),
        ) by {
            if k > 0 {
                assert(results[0]);
                assert(!rest[k - 1]);
                assert forall|i: int| 0 <= i < k - 1 implies rest[i] by {
                    assert(results[i + 1]);
                }
            }
        }
        if forall|i: int| 0 <= i < results.len() ==> #[trigger] results[i] {
            assert(results[0]);
            assert forall|i: int| 0 <= i < rest.len() implies #[trigger] rest[i] by {
                assert(results[i + 1]);
            }
        }
    }
}

} // verus!
