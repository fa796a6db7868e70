//! What is asked of Spotify, and what its answers mean.

use vstd::prelude::*;
use vstd::string::*;
use vstd::utf8::encode_utf8;

use crate::encoding;
use crate::encoding::{base64_text, header_safe};

verus! {

/// The address that hands out and refreshes access tokens.
pub const TOKEN_URL: &'static str = "https://accounts.spotify.com/api/token";

/// The address of the profile of the user whose access token is presented.
pub const PROFILE_URL: &'static str = "https://api.spotify.com/v1/me";

#[derive(Debug)]
pub struct SpotifyAccessTokenResponse {
    pub access_token: String,
    pub token_type: String,
    pub scope: String,
    pub expires_in: i32,
    pub refresh_token: String,
    /// The session token of this service: Spotify sends none.
    pub session: Option<String>,
}

#[derive(Debug)]
pub struct SpotifyRefreshedAccessTokenResponse {
    pub access_token: String,
    pub token_type: String,
    pub scope: String,
    pub expires_in: i32,
}

#[derive(Debug)]
pub struct SpotifyUserProfile {
    pub country: String,
    pub display_name: String,
    pub email: String,
    pub id: String,
}

/// An answer that could not be read.
pub enum ParseError {
    Failed(String),
}

impl ParseError {
    /// What went wrong.
    pub fn msg(self) -> (message: String)
        ensures
            self == ParseError::Failed(message),
    {
        match self {
            ParseError::Failed(e) => e,
        }
    }
}

/// A request to Spotify that failed.
pub enum SpotifyError {
    Failed(String),
}

impl SpotifyError {
    /// What went wrong.
    pub fn msg(self) -> (message: String)
        ensures
            self == SpotifyError::Failed(message),
    {
        match self {
            SpotifyError::Failed(e) => e,
        }
    }
}

#[derive(Clone, Copy, Debug, PartialEq, Eq, Structural)]
pub enum Method {
    Get,
    Post,
}

/// A request, ready to be sent. The form is the body of a `Post`; a `Get` has none.
#[derive(Debug)]
pub struct HttpRequest {
    pub method: Method,
    pub url: &'static str,
    pub authorization: String,
    pub form: Vec<(String, String)>,
}

/// A request as texts.
#[verifier::ext_equal]
pub struct HttpRequestView {
    pub method: Method,
    pub url: Seq<char>,
    pub authorization: Seq<char>,
    pub form: Seq<(Seq<char>, Seq<char>)>,
}

impl View for HttpRequest {
    type V = HttpRequestView;

    open spec fn view(&self) -> HttpRequestView {
        HttpRequestView {
            method: self.method,
            url: self.url@,
            authorization: self.authorization@,
            form: self.form@.map_values(|field: (String, String)| (field.0@, field.1@)),
        }
    }
}

/// How far the answer to a request could be followed once it had come.
pub enum BodyOutcome<T> {
    /// The body broke off, with this message.
    Unread(String),
    /// The body is not what was expected, with this message.
    Unparsed(String),
    /// The body says this.
    Parsed(T),
}

/// What a body gives, or the message of the step at which it was lost.
pub open spec fn body_result<T>(body: BodyOutcome<T>) -> Result<T, String> {
    match body {
        BodyOutcome::Unread(message) => Err(message),
        BodyOutcome::Unparsed(message) => Err(message),
        BodyOutcome::Parsed(value) => Ok(value),
    }
}

/// What a request gives, or the message of the step that failed: the request, or its body.
pub open spec fn request_result<T>(sent: Result<BodyOutcome<T>, String>) -> Result<T, String> {
    match sent {
        Ok(body) => body_result(body),
        Err(message) => Err(message),
    }
}

/// A result whose error is only its message.
pub open spec fn parse_error<T>(r: Result<T, String>) -> Result<T, ParseError> {
    match r {
        Ok(value) => Ok(value),
        Err(message) => Err(ParseError::Failed(message)),
    }
}

/// A result whose error is only its message.
pub open spec fn spotify_error<T>(r: Result<T, String>) -> Result<T, SpotifyError> {
    match r {
        Ok(value) => Ok(value),
        Err(message) => Err(SpotifyError::Failed(message)),
    }
}

/// The authorization by which a client shows who it is.
pub open spec fn basic_authorization(client_id: Seq<char>, client_secret: Seq<char>) -> Seq<char> {
    "Basic "@ + base64_text(encode_utf8(client_id + ":"@ + client_secret))
}

/// The authorization by which the bearer of an access token shows it.
pub open spec fn bearer_authorization(access_token: Seq<char>) -> Seq<char> {
    "Bearer "@ + access_token
}

/// The authorization header of the client.
pub fn get_hashed_header(client_id: &str, client_secret: &str) -> (header: String)
    ensures
        header@ == basic_authorization(client_id@, client_secret@),
{
    let mut plain = client_id.to_owned();
    plain.append(":");
    plain.append(client_secret);
    let encoded = encoding::encode_no_pad(plain.as_str().as_bytes());
    let mut header = "Basic ".to_owned();
    header.append(encoded.as_str());
    header
}

/// The request that trades an authorization code for an access token.
pub fn get_tokens(
    client_id: &str,
    client_secret: &str,
    redirect_uri: &str,
    code: &str,
) -> (request: HttpRequest)
    ensures
        request@ == token_request(client_id@, client_secret@, redirect_uri@, code@),
        header_safe(request@.authorization),
{
    proof {
        law_basic_authorization_header_safe(client_id@, client_secret@);
    }
    let mut form: Vec<(String, String)> = Vec::new();
    form.push(("grant_type".to_owned(), "authorization_code".to_owned()));
    form.push(("code".to_owned(), code.to_owned()));
    form.push(("redirect_uri".to_owned(), redirect_uri.to_owned()));
    HttpRequest {
        method: Method::Post,
        url: TOKEN_URL,
        authorization: get_hashed_header(client_id, client_secret),
        form,
    }
}

/// The request that trades an authorization code for an access token.
pub open spec fn token_request(
    client_id: Seq<char>,
    client_secret: Seq<char>,
    redirect_uri: Seq<char>,
    code: Seq<char>,
) -> HttpRequestView {
    HttpRequestView {
        method: Method::Post,
        url: TOKEN_URL@,
        authorization: basic_authorization(client_id, client_secret),
        form: seq![
            ("grant_type"@, "authorization_code"@),
            ("code"@, code),
            ("redirect_uri"@, redirect_uri),
        ],
    }
}

/// Reads the answer to a request for an access token.
pub fn get_token_body(body: BodyOutcome<SpotifyAccessTokenResponse>) -> (r: Result<
    SpotifyAccessTokenResponse,
    ParseError,
>)
    ensures
        r == parse_error(body_result(body)),
{
    match body {
        BodyOutcome::Unread(e) => Err(ParseError::Failed(e)),
        BodyOutcome::Unparsed(e) => Err(ParseError::Failed(e)),
        BodyOutcome::Parsed(token) => Ok(token),
    }
}

/// Concludes a request for an access token, from how it went.
pub fn get_token_response(
    sent: Result<BodyOutcome<SpotifyAccessTokenResponse>, String>,
) -> (r: Result<SpotifyAccessTokenResponse, SpotifyError>)
    ensures
        r == spotify_error(request_result(sent)),
{
    match sent {
        Ok(body) => match get_token_body(body) {
            Ok(token) => Ok(token),
            Err(e) => Err(SpotifyError::Failed(e.msg())),
        },
        Err(e) => Err(SpotifyError::Failed(e)),
    }
}

/// The request for the profile of the user whose access token is presented.
pub open spec fn profile_request(access_token: Seq<char>) -> HttpRequestView {
    HttpRequestView {
        method: Method::Get,
        url: PROFILE_URL@,
        authorization: bearer_authorization(access_token),
        form: Seq::empty(),
    }
}

/// Whether the access token can be presented: a header may hold it.
pub open spec fn presentable(token: SpotifyAccessTokenResponse) -> bool {
    header_safe(bearer_authorization(token.access_token@))
}

/// Whether the access token can be presented.
pub fn can_present(token: &SpotifyAccessTokenResponse) -> (r: bool)
    ensures
        r == presentable(*token),
{
    let mut header = "Bearer ".to_owned();
    header.append(token.access_token.as_str());
    encoding::is_header_value(header.as_str())
}

/// The request for the profile of the user who is the bearer of an access token.
pub fn user_info_request(token_response: &SpotifyAccessTokenResponse) -> (request: HttpRequest)
    requires
        header_safe(bearer_authorization(token_response.access_token@)),
    ensures
        request@ == profile_request(token_response.access_token@),
        header_safe(request@.authorization),
{
    let mut authorization = "Bearer ".to_owned();
    authorization.append(token_response.access_token.as_str());
    HttpRequest { method: Method::Get, url: PROFILE_URL, authorization, form: Vec::new() }
}

/// Concludes a request for a profile, from how it went.
pub fn get_user_info(sent: Result<BodyOutcome<SpotifyUserProfile>, String>) -> (r: Result<
    SpotifyUserProfile,
    ParseError,
>)
    ensures
        r == parse_error(request_result(sent)),
{
    let body = match sent {
        Ok(body) => body,
        Err(e) => return Err(ParseError::Failed(e)),
    };
    match body {
        BodyOutcome::Unread(e) => Err(ParseError::Failed(e)),
        BodyOutcome::Unparsed(e) => Err(ParseError::Failed(e)),
        BodyOutcome::Parsed(profile) => Ok(profile),
    }
}

/// The request that trades a refresh token for a new access token.
pub open spec fn refresh_request(
    client_id: Seq<char>,
    client_secret: Seq<char>,
    refresh_token: Seq<char>,
) -> HttpRequestView {
    HttpRequestView {
        method: Method::Post,
        url: TOKEN_URL@,
        authorization: basic_authorization(client_id, client_secret),
        form: seq![("grant_type"@, "refresh_token"@), ("refresh_token"@, refresh_token)],
    }
}

/// The request that trades a refresh token for a new access token.
pub fn refreshed_token_request(
    client_id: &str,
    client_secret: &str,
    refresh_token: &str,
) -> (request: HttpRequest)
    ensures
        request@ == refresh_request(client_id@, client_secret@, refresh_token@),
        header_safe(request@.authorization),
{
    proof {
        law_basic_authorization_header_safe(client_id@, client_secret@);
    }
    let mut form: Vec<(String, String)> = Vec::new();
    form.push(("grant_type".to_owned(), "refresh_token".to_owned()));
    form.push(("refresh_token".to_owned(), refresh_token.to_owned()));
    HttpRequest {
        method: Method::Post,
        url: TOKEN_URL,
        authorization: get_hashed_header(client_id, client_secret),
        form,
    }
}

/// Reads the answer to a request for a refreshed access token.
pub fn get_refreshed_token_body(body: BodyOutcome<SpotifyRefreshedAccessTokenResponse>) -> (r:
    Result<SpotifyRefreshedAccessTokenResponse, ParseError>)
    ensures
        r == parse_error(body_result(body)),
{
    match body {
        BodyOutcome::Unread(e) => Err(ParseError::Failed(e)),
        BodyOutcome::Unparsed(e) => Err(ParseError::Failed(e)),
        BodyOutcome::Parsed(token) => Ok(token),
    }
}

/// Concludes a request for a refreshed access token, from how it went.
pub fn get_refreshed_token(
    sent: Result<BodyOutcome<SpotifyRefreshedAccessTokenResponse>, String>,
) -> (r: Result<SpotifyRefreshedAccessTokenResponse, SpotifyError>)
    ensures
        r == spotify_error(request_result(sent)),
{
    match sent {
        Ok(body) => match get_refreshed_token_body(body) {
            Ok(token) => Ok(token),
            Err(e) => Err(SpotifyError::Failed(e.msg())),
        },
        Err(e) => Err(SpotifyError::Failed(e)),
    }
}

/// Whatever the credentials are, a header may hold the authorization made of them.
pub proof fn law_basic_authorization_header_safe(client_id: Seq<char>, client_secret: Seq<char>)
    ensures
        header_safe(basic_authorization(client_id, client_secret)),
{
    reveal_strlit("Basic ");
    encoding::law_base64_header_safe(encode_utf8(client_id + ":"@ + client_secret));
}

/// Two clients with the same authorization have the same credentials, unless a client identifier
/// holds a colon.
pub proof fn law_basic_authorization_injective(
    id1: Seq<char>,
    secret1: Seq<char>,
    id2: Seq<char>,
    secret2: Seq<char>,
)
    requires
        !id1.contains(':'),
        !id2.contains(':'),
        basic_authorization(id1, secret1) == basic_authorization(id2, secret2),
    ensures
        id1 == id2,
        secret1 == secret2,
{
    let plain1 = id1 + ":"@ + secret1;
    let plain2 = id2 + ":"@ + secret2;
    let text1 = base64_text(encode_utf8(plain1));
    let text2 = base64_text(encode_utf8(plain2));
    let start = "Basic "@.len() as int;
    assert(text1 =~= ("Basic "@ + text1).skip(start));
    assert(text2 =~= ("Basic "@ + text2).skip(start));
    encoding::law_base64_injective(encode_utf8(plain1), encode_utf8(plain2));
    vstd::utf8::encode_utf8_decode_utf8(plain1);
    vstd::utf8::encode_utf8_decode_utf8(plain2);
    assert(plain1 == plain2);
    reveal_strlit(":");
    if id1.len() < id2.len() {
        assert(plain1[id1.len() as int] == ':');
        assert(plain2[id1.len() as int] == id2[id1.len() as int]);
    }
    if id2.len() < id1.len() {
        assert(plain2[id2.len() as int] == ':');
        assert(plain1[id2.len() as int] == id1[id2.len() as int]);
    }
    assert(id1 =~= plain1.take(id1.len() as int));
    assert(id2 =~= plain2.take(id2.len() as int));
    assert(secret1 =~= plain1.skip(id1.len() as int + 1));
    assert(secret2 =~= plain2.skip(id2.len() as int + 1));
}

/// An access token can be presented if and only if it holds no control character but the tab, and no
/// delete.
pub proof fn law_presentable_tokens(token: SpotifyAccessTokenResponse)
    ensures
        presentable(token) <==> forall|i: int|
            0 <= i < token.access_token@.len() ==> (#[trigger] token.access_token@[i]) == '\t' || (
            token.access_token@[i] as int >= 32 && token.access_token@[i] as int != 127),
{
    reveal_strlit("Bearer ");
    let access_token = token.access_token@;
    let header = bearer_authorization(access_token);
    assert forall|i: int| 0 <= i < access_token.len() implies #[trigger] access_token[i]
        == header[i + 7] by {}
    if forall|i: int|
        0 <= i < access_token.len() ==> (#[trigger] access_token[i]) == '\t' || (access_token[i]
            as int >= 32 && access_token[i] as int != 127) {
        assert forall|i: int| 0 <= i < header.len() implies encoding::header_safe_char(
            #[trigger] header[i],
        ) by {
            if i >= 7 {
                assert(header[i] == access_token[i - 7]);
            }
        }
    }
    if header_safe(header) {
        assert forall|i: int| 0 <= i < access_token.len() implies (#[trigger] access_token[i])
            == '\t' || (access_token[i] as int >= 32 && access_token[i] as int != 127) by {
            assert(encoding::header_safe_char(header[i + 7]));
        }
    }
}

/// The view of a request tells everything about it.
pub proof fn law_request_view_tells_all(a: HttpRequest, b: HttpRequest)
    requires
        a@ == b@,
    ensures
        a.method == b.method,
        a.url@ == b.url@,
        a.authorization@ == b.authorization@,
        a.form.len() == b.form.len(),
        forall|i: int|
            0 <= i < a.form.len() ==> (#[trigger] a.form[i]).0@ == b.form[i].0@ && a.form[i].1@
                == b.form[i].1@,
{
    assert(a@.form.len() == a.form.len() && b@.form.len() == b.form.len());
    assert forall|i: int| 0 <= i < a.form.len() implies (#[trigger] a.form[i]).0@ == b.form[i].0@
        && a.form[i].1@ == b.form[i].1@ by {
        assert(a@.form[i] == b@.form[i]);
    }
}

} // verus!
