use listening_rooms::spotify::{
    can_present, get_hashed_header, get_refreshed_token, get_refreshed_token_body, get_token_body,
    get_token_response, get_tokens, get_user_info, refreshed_token_request, user_info_request,
    BodyOutcome, Method, ParseError, SpotifyAccessTokenResponse, SpotifyError,
    SpotifyRefreshedAccessTokenResponse, SpotifyUserProfile,
};

fn token(access_token: &str) -> SpotifyAccessTokenResponse {
    SpotifyAccessTokenResponse {
        access_token: access_token.to_string(),
        token_type: "Bearer".to_string(),
        scope: "user-read-email".to_string(),
        expires_in: 3600,
        refresh_token: "again".to_string(),
        session: None,
    }
}

fn refreshed(access_token: &str) -> SpotifyRefreshedAccessTokenResponse {
    SpotifyRefreshedAccessTokenResponse {
        access_token: access_token.to_string(),
        token_type: "Bearer".to_string(),
        scope: "user-read-email".to_string(),
        expires_in: 3600,
    }
}

fn profile(id: &str) -> SpotifyUserProfile {
    SpotifyUserProfile {
        country: "PL".to_string(),
        display_name: "Ola".to_string(),
        email: "ola@example.com".to_string(),
        id: id.to_string(),
    }
}

fn field(name: &str, value: &str) -> (String, String) {
    (name.to_string(), value.to_string())
}

#[test]
fn header_is_base64_without_padding() {
    assert_eq!(get_hashed_header("", ""), "Basic Og");
    assert_eq!(get_hashed_header("a", "b"), "Basic YTpi");
    assert_eq!(get_hashed_header("a", "bc"), "Basic YTpiYw");
    assert_eq!(get_hashed_header("Aladdin", "open sesame"), "Basic QWxhZGRpbjpvcGVuIHNlc2FtZQ");
    assert_eq!(get_hashed_header("\u{e9}", "\u{ff}\u{ff}"), "Basic w6k6w7/Dvw");
    assert_eq!(get_hashed_header(">>>", "???"), "Basic Pj4+Oj8/Pw");
}

#[test]
fn header_of_long_credentials() {
    let header = get_hashed_header(&"x".repeat(50), &"y".repeat(50));
    assert_eq!(header.len(), "Basic ".len() + 135);
    assert!(header.chars().all(|c| c.is_ascii_graphic() || c == ' '));
    assert!(header.starts_with("Basic eHh4eHh4"));
    assert!(header.ends_with("eXl5eXk"));
}

#[test]
fn different_credentials_have_different_headers() {
    assert_ne!(get_hashed_header("ab", "c"), get_hashed_header("a", "bc"));
    assert_eq!(get_hashed_header("a:b", "c"), get_hashed_header("a", "b:c"));
}

#[test]
fn code_is_traded_for_a_token() {
    let request = get_tokens("a", "b", "https://here/", "code-1");
    assert_eq!(request.method, Method::Post);
    assert_eq!(request.url, "https://accounts.spotify.com/api/token");
    assert_eq!(request.authorization, "Basic YTpi");
    assert_eq!(
        request.form,
        vec![
            field("grant_type", "authorization_code"),
            field("code", "code-1"),
            field("redirect_uri", "https://here/"),
        ]
    );
}

#[test]
fn refresh_token_is_traded_for_a_token() {
    let request = refreshed_token_request("a", "b", "again");
    assert_eq!(request.method, Method::Post);
    assert_eq!(request.url, "https://accounts.spotify.com/api/token");
    assert_eq!(request.authorization, "Basic YTpi");
    assert_eq!(
        request.form,
        vec![field("grant_type", "refresh_token"), field("refresh_token", "again")]
    );
}

#[test]
fn token_is_presented_for_the_profile() {
    let request = user_info_request(&token("secret"));
    assert_eq!(request.method, Method::Get);
    assert_eq!(request.url, "https://api.spotify.com/v1/me");
    assert_eq!(request.authorization, "Bearer secret");
    assert!(request.form.is_empty());
}

#[test]
fn only_header_values_can_be_presented() {
    assert!(can_present(&token("secret")));
    assert!(can_present(&token("")));
    assert!(can_present(&token("with\ttab and \u{e9}")));
    assert!(!can_present(&token("line\nbreak")));
    assert!(!can_present(&token("bell\u{7}")));
    assert!(!can_present(&token("delete\u{7f}")));
}

#[test]
fn token_body_gives_the_token_or_the_message() {
    assert_eq!(get_token_body(BodyOutcome::Parsed(token("t"))).ok().unwrap().access_token, "t");
    let unread = get_token_body(BodyOutcome::Unread("broken off".to_string()));
    assert_eq!(unread.err().unwrap().msg(), "broken off");
    let unparsed = get_token_body(BodyOutcome::Unparsed("no json".to_string()));
    assert_eq!(unparsed.err().unwrap().msg(), "no json");
}

#[test]
fn token_response_gives_the_token_or_the_message() {
    let got = get_token_response(Ok(BodyOutcome::Parsed(token("t")))).ok().unwrap();
    assert_eq!(got.access_token, "t");
    assert_eq!(got.expires_in, 3600);
    assert_eq!(got.session, None);
    let unsent = get_token_response(Err("no route".to_string()));
    assert_eq!(unsent.err().unwrap().msg(), "no route");
    let unread = get_token_response(Ok(BodyOutcome::Unread("broken off".to_string())));
    assert_eq!(unread.err().unwrap().msg(), "broken off");
    let unparsed = get_token_response(Ok(BodyOutcome::Unparsed("no json".to_string())));
    assert_eq!(unparsed.err().unwrap().msg(), "no json");
}

#[test]
fn profile_or_the_message() {
    let got = get_user_info(Ok(BodyOutcome::Parsed(profile("ola")))).ok().unwrap();
    assert_eq!(got.id, "ola");
    let unsent = get_user_info(Err("no route".to_string()));
    assert_eq!(unsent.err().unwrap().msg(), "no route");
    let unread = get_user_info(Ok(BodyOutcome::Unread("broken off".to_string())));
    assert_eq!(unread.err().unwrap().msg(), "broken off");
    let unparsed = get_user_info(Ok(BodyOutcome::Unparsed("no json".to_string())));
    assert_eq!(unparsed.err().unwrap().msg(), "no json");
}

#[test]
fn refreshed_token_or_the_message() {
    let body = get_refreshed_token_body(BodyOutcome::Parsed(refreshed("t")));
    assert_eq!(body.ok().unwrap().access_token, "t");
    let got = get_refreshed_token(Ok(BodyOutcome::Parsed(refreshed("t")))).ok().unwrap();
    assert_eq!(got.access_token, "t");
    let unsent = get_refreshed_token(Err("no route".to_string()));
    assert_eq!(unsent.err().unwrap().msg(), "no route");
    let unread = get_refreshed_token(Ok(BodyOutcome::Unread("broken off".to_string())));
    assert_eq!(unread.err().unwrap().msg(), "broken off");
    let unparsed = get_refreshed_token(Ok(BodyOutcome::Unparsed("no json".to_string())));
    assert_eq!(unparsed.err().unwrap().msg(), "no json");
}

#[test]
fn errors_give_their_message() {
    assert_eq!(ParseError::Failed("p".to_string()).msg(), "p");
    assert_eq!(SpotifyError::Failed("s".to_string()).msg(), "s");
}
