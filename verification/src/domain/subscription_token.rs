//! Subscription tokens: the 25 character secret carried by a confirmation link.

use vstd::prelude::*;
use vstd::string::StringExecFns;
use vstd::utf8::encode_utf8;

use crate::text::{char_is_ascii_alphanumeric, is_ascii_alphanumeric};

verus! {

/// Number of characters in a subscription token.
pub const TOKEN_LENGTH: usize = 25;

/// A string is a valid token when it has exactly 25 characters, each an ASCII letter or digit.
pub open spec fn is_valid_token(s: Seq<char>) -> bool {
    &&& s.len() == TOKEN_LENGTH
    &&& forall|i: int| 0 <= i < s.len() ==> #[trigger] is_ascii_alphanumeric(s[i])
}

/// The message with which `parse` refuses a string.
pub open spec fn invalid_token_message(s: Seq<char>) -> Seq<char> {
    s + " is not a valid subscription token"@
}

/// A subscription token as it travels in the confirmation link.
#[derive(Debug)]
pub struct SubscriptionToken(String);

impl View for SubscriptionToken {
    type V = Seq<char>;

    closed spec fn view(&self) -> Seq<char> {
        self.0@
    }
}

impl SubscriptionToken {
    /// Accepts `s` when it is a valid token and keeps it unchanged; refuses it otherwise.
    pub fn parse(s: String) -> (r: Result<SubscriptionToken, String>)
        ensures
            r is Ok <==> is_valid_token(s@),
            r matches Ok(t) ==> t@ == s@,
            r matches Err(m) ==> m@ == invalid_token_message(s@),
    {
        // Counts characters up to one more than a token holds; for strings of ASCII
        // letters and digits the count of characters is the count of bytes.
        let mut count: usize = 0;
        let mut all_alphanumeric = true;
        let ghost mut seen: int = 0;
        proof {
            broadcast use vstd::string::group_string_axioms;
        }
        for c in it: s.as_str().chars()
            invariant
                it.seq() == s@,
                seen == it.index(),
                count == (if seen <= TOKEN_LENGTH + 1 { seen } else { TOKEN_LENGTH + 1 }),
                all_alphanumeric <==> forall|j: int|
                    0 <= j < seen ==> #[trigger] is_ascii_alphanumeric(s@[j]),
        {
            if !char_is_ascii_alphanumeric(c) {
                all_alphanumeric = false;
            }
            if count <= TOKEN_LENGTH {
                count = count + 1;
            }
            proof {
                seen = seen + 1;
            }
        }
        proof {
            broadcast use vstd::string::group_string_axioms;
            assert(seen == s@.len());
        }
        if count != TOKEN_LENGTH || !all_alphanumeric {
            let mut m = s;
            m.append(" is not a valid subscription token");
            return Err(m);
        }
        Ok(SubscriptionToken(s))
    }

    /// The token as text.
    pub fn as_ref(&self) -> (r: &str)
        ensures
            r@ == self@,
    {
        self.0.as_str()
    }

    /// The token exactly as a request carried it, with no check: what deserializing a
    /// request's parameters builds.
    pub fn from_raw(s: String) -> (t: SubscriptionToken)
        ensures
            t@ == s@,
    {
        SubscriptionToken(s)
    }
}

/// A valid token is plain ASCII, so it takes exactly 25 bytes, one per character.
pub proof fn lemma_valid_token_is_25_bytes(s: Seq<char>)
    requires
        is_valid_token(s),
    ensures
        vstd::utf8::is_ascii_chars(s),
        encode_utf8(s).len() == TOKEN_LENGTH,
        forall|i: int| 0 <= i < s.len() ==> #[trigger] encode_utf8(s)[i] == s[i] as u8,
{
    assert forall|i: int| 0 <= i < s.len() implies '\0' <= #[trigger] s[i] <= '\u{7f}' by {
        assert(is_ascii_alphanumeric(s[i]));
    }
    vstd::utf8::is_ascii_chars_encode_utf8(s);
}

/// Measuring a token in bytes of UTF-8, as HTTP carries it, or in characters makes no
/// difference: a string is a valid token exactly when it takes 25 bytes and all its characters
/// are ASCII letters or digits.
pub proof fn law_token_rule_in_bytes(s: Seq<char>)
    ensures
        is_valid_token(s) <==> (encode_utf8(s).len() == TOKEN_LENGTH && forall|i: int|
            0 <= i < s.len() ==> #[trigger] is_ascii_alphanumeric(s[i])),
{
    if forall|i: int| 0 <= i < s.len() ==> #[trigger] is_ascii_alphanumeric(s[i]) {
        assert forall|i: int| 0 <= i < s.len() implies '\0' <= #[trigger] s[i] <= '\u{7f}' by {
            assert(is_ascii_alphanumeric(s[i]));
        }
        vstd::utf8::is_ascii_chars_encode_utf8(s);
    }
}

} // verus!
