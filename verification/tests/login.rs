use newsletter::error::AppError;
use newsletter::routes::login::{login_form_html, login_outcome, QueryParams};

#[test]
fn login_page_without_error_has_no_error_paragraph() {
    let page = login_form_html(&QueryParams { error: None });
    assert!(page.starts_with("<!DOCTYPE html>\n<html lang=\"en\">"));
    assert!(page.contains("<body>\n\n<form action=\"/login\" method=\"post\">"));
    assert!(!page.contains("<p><i>"));
    assert!(page.ends_with("</form>\n</body>"));
}

#[test]
fn login_page_shows_the_error_escaped() {
    let page = login_form_html(&QueryParams {
        error: Some("<script>alert('x') & \"y\"</script>".to_string()),
    });
    assert!(page.contains(
        "<body>\n<p><i>&lt;script&gt;alert(&#x27;x&#x27;) &amp; &quot;y&quot;&lt;/script&gt;</i></p>\n<form"
    ));
    assert!(!page.contains("<script>"));
}

#[test]
fn successful_login_redirects_home() {
    let id = uuid::Uuid::nil();
    let r = login_outcome(Ok(id), "secret".to_string());
    match r {
        Ok(d) => {
            assert_eq!(d.status, 303);
            assert_eq!(d.location, "/");
        }
        Err(_) => panic!("expected a redirect"),
    }
}

#[test]
fn failed_login_is_an_auth_error_signed_with_the_secret() {
    let r = login_outcome(Err("Invalid credentials".to_string()), "secret".to_string());
    match r {
        Err(AppError::AuthError(m, s)) => {
            assert_eq!(m, "Invalid credentials");
            assert_eq!(s, "secret");
        }
        _ => panic!("expected an authentication error"),
    }
}
