use listening_rooms::db::{DbError, Reply, SpotifyUser, Stage, Timestamp};
use listening_rooms::ids::Uuid;
use listening_rooms::server::ServerResponse;
use listening_rooms::session::{
    create_session, refresh_token, AccessTokenParams, ClientConfig, JwtError, RefreshProgress,
    RefreshTokenRequest, RefreshTurn, SessionProgress, SessionTurn,
};
use listening_rooms::spotify::{
    BodyOutcome, SpotifyAccessTokenResponse, SpotifyRefreshedAccessTokenResponse,
    SpotifyUserProfile,
};

fn config() -> ClientConfig {
    ClientConfig {
        client_id: "a".to_string(),
        client_secret: "b".to_string(),
        redirect_uri: "https://here/".to_string(),
    }
}

fn token() -> SpotifyAccessTokenResponse {
    SpotifyAccessTokenResponse {
        access_token: "secret".to_string(),
        token_type: "Bearer".to_string(),
        scope: "user-read-email".to_string(),
        expires_in: 3600,
        refresh_token: "again".to_string(),
        session: None,
    }
}

fn profile() -> SpotifyUserProfile {
    SpotifyUserProfile {
        country: "PL".to_string(),
        display_name: "Ola".to_string(),
        email: "ola@example.com".to_string(),
        id: "ola-1".to_string(),
    }
}

fn user() -> SpotifyUser {
    SpotifyUser {
        id: Some(Uuid { bits: 7 }),
        spotify_user_id: "ola-1".to_string(),
        display_name: "Ola".to_string(),
        created_at: Timestamp { micros: 0 },
    }
}

/// What comes from outside, and how many turns are taken.
struct Outside {
    token: Result<BodyOutcome<SpotifyAccessTokenResponse>, String>,
    profile: Result<BodyOutcome<SpotifyUserProfile>, String>,
    known: bool,
    down: bool,
    signed: Result<String, JwtError>,
}

fn outside() -> Outside {
    Outside {
        token: Ok(BodyOutcome::Parsed(token())),
        profile: Ok(BodyOutcome::Parsed(profile())),
        known: true,
        down: false,
        signed: Ok("signed".to_string()),
    }
}

fn params() -> Option<AccessTokenParams> {
    Some(AccessTokenParams { code: "code-1".to_string(), state: "state-1".to_string() })
}

fn run(
    params: Option<AccessTokenParams>,
    outside: Outside,
) -> (ServerResponse<SpotifyAccessTokenResponse>, usize) {
    let config = config();
    let Outside { token, profile, mut known, down, signed } = outside;
    let mut token = Some(token);
    let mut profile = Some(profile);
    let mut signed = Some(signed);
    let mut at = SessionProgress::Start(params);
    let mut turns = 0;
    loop {
        turns += 1;
        at = match create_session(&config, at) {
            SessionTurn::FetchToken(request) => {
                assert_eq!(request.authorization, "Basic YTpi");
                assert_eq!(request.form[1].1, "code-1");
                SessionProgress::TokenAnswered(token.take().unwrap())
            }
            SessionTurn::FetchProfile(token, request) => {
                assert_eq!(request.authorization, "Bearer secret");
                SessionProgress::ProfileAnswered(token, profile.take().unwrap())
            }
            SessionTurn::Database(token, profile, stage, statement) => {
                let reply = if down {
                    Reply::Selected(Err(DbError::Query("down".to_string())))
                } else if stage == Stage::Insert {
                    assert!(statement.sql.starts_with("INSERT"));
                    known = true;
                    Reply::Inserted(Ok(()))
                } else {
                    assert!(statement.sql.starts_with("SELECT"));
                    Reply::Selected(Ok(if known { Some(user()) } else { None }))
                };
                SessionProgress::UserAnswered(token, profile, stage, reply)
            }
            SessionTurn::Sign(token, user) => {
                assert_eq!(user.id, Some(Uuid { bits: 7 }));
                SessionProgress::Signed(token, signed.take().unwrap())
            }
            SessionTurn::Respond(response) => return (response, turns),
        };
    }
}

fn refusal<T>(response: ServerResponse<T>) -> (u16, String) {
    match response {
        ServerResponse::Refusal(status, message) => (status, message),
        ServerResponse::Data(_) => panic!("not refused"),
    }
}

#[test]
fn session_of_a_known_user() {
    let (response, turns) = run(params(), outside());
    assert_eq!(turns, 5);
    match response {
        ServerResponse::Data(data) => {
            assert_eq!(data.access_token, "secret");
            assert_eq!(data.refresh_token, "again");
            assert_eq!(data.expires_in, 3600);
            assert_eq!(data.session, Some("signed".to_string()));
        }
        ServerResponse::Refusal(_, _) => panic!("refused"),
    }
}

#[test]
fn session_of_a_new_user_takes_seven_turns() {
    let (response, turns) = run(params(), Outside { known: false, ..outside() });
    assert_eq!(turns, 7);
    assert!(matches!(response, ServerResponse::Data(_)));
}

#[test]
fn session_without_parameters_is_refused() {
    let (response, turns) = run(None, outside());
    assert_eq!(turns, 1);
    assert_eq!(refusal(response), (400, "invalid request".to_string()));
}

#[test]
fn first_failure_is_the_answer() {
    let failed = Outside { token: Err("no route".to_string()), ..outside() };
    assert_eq!(refusal(run(params(), failed).0), (500, "no route".to_string()));
    let failed = Outside {
        token: Ok(BodyOutcome::Unparsed("no json".to_string())),
        profile: Err("no route".to_string()),
        ..outside()
    };
    assert_eq!(refusal(run(params(), failed).0), (500, "no json".to_string()));
    let failed =
        Outside { profile: Ok(BodyOutcome::Unread("broken off".to_string())), ..outside() };
    assert_eq!(refusal(run(params(), failed).0), (500, "broken off".to_string()));
    let failed = Outside { down: true, ..outside() };
    assert_eq!(refusal(run(params(), failed).0), (500, "down".to_string()));
    let failed = Outside {
        signed: Err(JwtError { status: 503, message: "no key".to_string() }),
        ..outside()
    };
    assert_eq!(refusal(run(params(), failed).0), (503, "no key".to_string()));
}

#[test]
fn token_is_refreshed() {
    let start = RefreshProgress::Start(RefreshTokenRequest { refresh_token: "again".to_string() });
    match refresh_token(&config(), start) {
        RefreshTurn::Fetch(request) => {
            assert_eq!(request.authorization, "Basic YTpi");
            assert_eq!(request.form[1].1, "again");
        }
        RefreshTurn::Respond(_) => panic!("not asked"),
    }
    let fresh = SpotifyRefreshedAccessTokenResponse {
        access_token: "fresh".to_string(),
        token_type: "Bearer".to_string(),
        scope: "user-read-email".to_string(),
        expires_in: 3600,
    };
    match refresh_token(&config(), RefreshProgress::Answered(Ok(BodyOutcome::Parsed(fresh)))) {
        RefreshTurn::Respond(ServerResponse::Data(data)) => assert_eq!(data.access_token, "fresh"),
        _ => panic!("not given back"),
    }
    match refresh_token(&config(), RefreshProgress::Answered(Err("no route".to_string()))) {
        RefreshTurn::Respond(response) => {
            assert_eq!(refusal(response), (500, "no route".to_string()))
        }
        RefreshTurn::Fetch(_) => panic!("asked again"),
    }
}
