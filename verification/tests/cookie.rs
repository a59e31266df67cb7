use auth_core::validate::{extract_session_token, Error};

#[test]
fn missing_header_is_no_cookies() {
    assert_eq!(extract_session_token(None), Err(Error::NoCookies));
}

#[test]
fn header_without_entry_is_no_session_token() {
    assert_eq!(extract_session_token(Some("theme=dark")), Err(Error::NoSessionToken));
    assert_eq!(extract_session_token(Some("")), Err(Error::NoSessionToken));
    assert_eq!(extract_session_token(Some("a=b; c=d")), Err(Error::NoSessionToken));
}

#[test]
fn lone_entry_is_extracted() {
    assert_eq!(extract_session_token(Some("session_token=abc123")), Ok("abc123".to_string()));
}

#[test]
fn entry_is_found_among_other_cookies() {
    assert_eq!(
        extract_session_token(Some("a=b; session_token=xyz; c=d")),
        Ok("xyz".to_string())
    );
}

#[test]
fn entry_is_trimmed_of_surrounding_whitespace() {
    assert_eq!(
        extract_session_token(Some("  session_token=tok  ")),
        Ok("tok".to_string())
    );
    assert_eq!(
        extract_session_token(Some("a=b;\tsession_token=tok")),
        Ok("tok".to_string())
    );
}

#[test]
fn prefix_must_start_the_entry() {
    assert_eq!(
        extract_session_token(Some("xsession_token=abc")),
        Err(Error::NoSessionToken)
    );
}

#[test]
fn first_matching_entry_wins() {
    assert_eq!(
        extract_session_token(Some("session_token=first; session_token=second")),
        Ok("first".to_string())
    );
}

#[test]
fn empty_value_is_allowed() {
    assert_eq!(extract_session_token(Some("session_token=")), Ok(String::new()));
}
