//! The login page and what a login attempt is answered with.

use uuid::Uuid;
use vstd::prelude::*;
use vstd::string::StringExecFns;

use crate::error::AppError;
use crate::text::opt_text;

verus! {

/// The query of the login page: the error of a failed attempt, if any.
pub struct QueryParams {
    pub error: Option<String>,
}

/// What `htmlescape::encode_minimal` writes for one character: the five characters that HTML
/// gives a meaning to become entities, every other character stays.
pub open spec fn html_escape_char(c: char) -> Seq<char> {
    if c == '"' {
        seq!['&', 'q', 'u', 'o', 't', ';']
    } else if c == '&' {
        seq!['&', 'a', 'm', 'p', ';']
    } else if c == '\'' {
        seq!['&', '#', 'x', '2', '7', ';']
    } else if c == '<' {
        seq!['&', 'l', 't', ';']
    } else if c == '>' {
        seq!['&', 'g', 't', ';']
    } else {
        seq![c]
    }
}

/// `htmlescape::encode_minimal`: each character of the text escaped in turn.
pub open spec fn html_escape_minimal(s: Seq<char>) -> Seq<char>
    decreases s.len(),
{
    if s.len() == 0 {
        seq![]
    } else {
        html_escape_char(s[0]) + html_escape_minimal(s.drop_first())
    }
}

/// `htmlescape::encode_minimal`: the contract states what its source does, character by
/// character, as `html_escape_minimal` describes.
#[verifier::external_body]
fn encode_minimal(s: &str) -> (r: String)
    ensures
        r@ == html_escape_minimal(s@),
{
    htmlescape::encode_minimal(s)
}

/// The page up to the place of the error.
pub open spec fn login_page_head() -> Seq<char> {
    "<!DOCTYPE html>\n<html lang=\"en\">\n<head>\n<meta http-equiv=\"content-type\" content=\"text/html; charset=utf-8\">\n<title>Login</title>\n</head>\n<body>\n"@
}

/// The page after the place of the error: the login form.
pub open spec fn login_page_tail() -> Seq<char> {
    "\n<form action=\"/login\" method=\"post\">\n<label>Username\n<input\ntype=\"text\"\nplaceholder=\"Enter Username\"\nname=\"username\"\n>\n</label>\n<label>Password\n<input\ntype=\"password\"\nplaceholder=\"Enter Password\"\nname=\"password\"\n>\n</label>\n<button type=\"submit\">Login</button>\n</form>\n</body>"@
}

/// The paragraph that shows an error, escaped, above the form; nothing without an error.
pub open spec fn error_html(error: Option<Seq<char>>) -> Seq<char> {
    match error {
        None => seq![],
        Some(m) => "<p><i>"@ + html_escape_minimal(m) + "</i></p>"@,
    }
}

/// `needle` occurs in `text`.
pub open spec fn contains_text(text: Seq<char>, needle: Seq<char>) -> bool {
    exists|k: int|
        0 <= k && k + needle.len() <= text.len() && #[trigger] text.subrange(k, k + needle.len())
            == needle
}

/// Whatever error it shows, the login page holds a form that posts to `/login` with inputs
/// named `username` and `password`, the two fields a login attempt is read from.
pub proof fn law_login_page_posts_both_fields(error: Option<Seq<char>>)
    ensures
        contains_text(
            login_page_head() + error_html(error) + login_page_tail(),
            "action=\"/login\" method=\"post\""@,
        ),
        contains_text(
            login_page_head() + error_html(error) + login_page_tail(),
            "name=\"username\""@,
        ),
        contains_text(
            login_page_head() + error_html(error) + login_page_tail(),
            "name=\"password\""@,
        ),
{
    reveal_strlit("\n<form action=\"/login\" method=\"post\">\n<label>Username\n<input\ntype=\"text\"\nplaceholder=\"Enter Username\"\nname=\"username\"\n>\n</label>\n<label>Password\n<input\ntype=\"password\"\nplaceholder=\"Enter Password\"\nname=\"password\"\n>\n</label>\n<button type=\"submit\">Login</button>\n</form>\n</body>");
    reveal_strlit("action=\"/login\" method=\"post\"");
    reveal_strlit("name=\"username\"");
    reveal_strlit("name=\"password\"");
    let before = login_page_head() + error_html(error);
    let tail = login_page_tail();
    let page = before + tail;
    let b = before.len() as int;
    assert(page.subrange(b + 7, b + 36) =~= tail.subrange(7, 36));
    assert(tail.subrange(7, 36) =~= "action=\"/login\" method=\"post\""@);
    assert(page.subrange(b + 7, b + 7 + "action=\"/login\" method=\"post\""@.len()) == "action=\"/login\" method=\"post\""@);
    assert(page.subrange(b + 102, b + 117) =~= tail.subrange(102, 117));
    assert(tail.subrange(102, 117) =~= "name=\"username\""@);
    assert(page.subrange(b + 102, b + 102 + "name=\"username\""@.len()) == "name=\"username\""@);
    assert(page.subrange(b + 197, b + 212) =~= tail.subrange(197, 212));
    assert(tail.subrange(197, 212) =~= "name=\"password\""@);
    assert(page.subrange(b + 197, b + 197 + "name=\"password\""@.len()) == "name=\"password\""@);
}

/// The HTML of the login page for the given query.
pub fn login_form_html(params: &QueryParams) -> (page: String)
    ensures
        page@ == login_page_head() + error_html(opt_text(params.error)) + login_page_tail(),
        contains_text(page@, "name=\"username\""@),
        contains_text(page@, "name=\"password\""@),
{
    let mut page = String::from_str(
        "<!DOCTYPE html>\n<html lang=\"en\">\n<head>\n<meta http-equiv=\"content-type\" content=\"text/html; charset=utf-8\">\n<title>Login</title>\n</head>\n<body>\n",
    );
    match &params.error {
        None => {},
        Some(message) => {
            page.append("<p><i>");
            let escaped = encode_minimal(message.as_str());
            page.append(escaped.as_str());
            page.append("</i></p>");
        },
    }
    page.append(
        "\n<form action=\"/login\" method=\"post\">\n<label>Username\n<input\ntype=\"text\"\nplaceholder=\"Enter Username\"\nname=\"username\"\n>\n</label>\n<label>Password\n<input\ntype=\"password\"\nplaceholder=\"Enter Password\"\nname=\"password\"\n>\n</label>\n<button type=\"submit\">Login</button>\n</form>\n</body>",
    );
    proof {
        assert(page@ =~= login_page_head() + error_html(opt_text(params.error)) + login_page_tail());
        law_login_page_posts_both_fields(opt_text(params.error));
    }
    page
}

/// Escaped text holds none of `<`, `>`, `"` and `'`: an error shown on the login page cannot
/// open or close a tag or an attribute.
pub proof fn law_escaped_text_is_inert(s: Seq<char>)
    ensures
        forall|i: int|
            0 <= i < html_escape_minimal(s).len() ==> {
                let c = #[trigger] html_escape_minimal(s)[i];
                c != '<' && c != '>' && c != '"' && c != '\''
            },
    decreases s.len(),
{
    if s.len() > 0 {
        law_escaped_text_is_inert(s.drop_first());
        let head = html_escape_char(s[0]);
        let tail = html_escape_minimal(s.drop_first());
        assert forall|i: int| 0 <= i < head.len() implies {
            let c = #[trigger] head[i];
            c != '<' && c != '>' && c != '"' && c != '\''
        } by {}
        assert forall|i: int| 0 <= i < html_escape_minimal(s).len() implies {
            let c = #[trigger] html_escape_minimal(s)[i];
            c != '<' && c != '>' && c != '"' && c != '\''
        } by {
            if i < head.len() {
                assert(html_escape_minimal(s)[i] == head[i]);
            } else {
                assert(html_escape_minimal(s)[i] == tail[i - head.len()]);
            }
        }
    }
}

/// The form a visitor logs in with.
pub struct LoginFormData {
    pub username: String,
    pub password: String,
}

/// Where a successful login is sent.
pub struct Redirect {
    pub status: u16,
    pub location: String,
}

/// What a login attempt is answered with, once the credentials have been checked: the home
/// page on success; otherwise an authentication error signed with `secret`.
pub fn login_outcome(validation: Result<Uuid, String>, secret: String) -> (r: Result<
    Redirect,
    AppError,
>)
    ensures
        match validation {
            Ok(_) => r matches Ok(d) && d.status == 303 && d.location@ == "/"@,
            Err(m) => r matches Err(AppError::AuthError(e, s)) && e@ == m@ && s@ == secret@,
        },
{
    match validation {
        Ok(_) => Ok(Redirect { status: 303, location: String::from_str("/") }),
        Err(m) => Err(AppError::AuthError(m, secret)),
    }
}

} // verus!
