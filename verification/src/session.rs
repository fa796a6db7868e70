//! Sessions: how a user signs in through Spotify, and keeps an access token fresh.

use vstd::prelude::*;

use crate::db;
use crate::db::{
    decision, error_text, fits, law_pursuit_comes_to_outcome, pursued, pursuit_outcome,
    select_user, turn_of, DbError, Decision, Progress, Reply, SpotifyUser, Stage, Statement, Turn,
};
use crate::encoding::header_safe;
use crate::server::{refuses, ServerResponse, BAD_REQUEST, INTERNAL_SERVER_ERROR};
use crate::spotify;
use crate::spotify::{
    bearer_authorization, profile_request, refresh_request, request_result, token_request,
    BodyOutcome, HttpRequest, SpotifyAccessTokenResponse, SpotifyRefreshedAccessTokenResponse,
    SpotifyUserProfile,
};

verus! {

/// How the service shows Spotify who it is, and where Spotify sends its users back to.
pub struct ClientConfig {
    pub client_id: String,
    pub client_secret: String,
    pub redirect_uri: String,
}

/// What a user comes back with from Spotify.
#[derive(Debug)]
pub struct AccessTokenParams {
    pub code: String,
    pub state: String,
}

/// Why a session token could not be signed, and the status that this is answered with.
pub struct JwtError {
    pub status: u16,
    pub message: String,
}

/// How far the creation of a session has come: the last answer from outside, and what is known
/// from earlier ones.
pub enum SessionProgress {
    Start(Option<AccessTokenParams>),
    TokenAnswered(Result<BodyOutcome<SpotifyAccessTokenResponse>, String>),
    ProfileAnswered(SpotifyAccessTokenResponse, Result<BodyOutcome<SpotifyUserProfile>, String>),
    UserAnswered(SpotifyAccessTokenResponse, SpotifyUserProfile, Stage, Reply<SpotifyUser>),
    Signed(SpotifyAccessTokenResponse, Result<String, JwtError>),
}

/// What the creation of a session needs next from outside, and what is known by then; or its end.
pub enum SessionTurn {
    FetchToken(HttpRequest),
    FetchProfile(SpotifyAccessTokenResponse, HttpRequest),
    Database(SpotifyAccessTokenResponse, SpotifyUserProfile, Stage, Statement),
    Sign(SpotifyAccessTokenResponse, SpotifyUser),
    Respond(ServerResponse<SpotifyAccessTokenResponse>),
}

/// Whether the creation of a session can go on: an access token that Spotify gave can be
/// presented, and the database was asked for what it answered.
pub open spec fn session_fits(at: SessionProgress) -> bool {
    match at {
        SessionProgress::TokenAnswered(sent) => request_result(sent) matches Ok(token)
            ==> header_safe(bearer_authorization(token.access_token@)),
        SessionProgress::UserAnswered(_, _, stage, reply) => fits(Progress::After(stage, reply)),
        _ => true,
    }
}

/// The turn that follows: a code is traded for an access token, this for the profile of its
/// bearer, the owner of the profile is given a row in the table of users, and a session token is
/// signed for them. The first failure is the response.
pub open spec fn session_step(
    config: ClientConfig,
    at: SessionProgress,
    turn: SessionTurn,
) -> bool {
    match at {
        SessionProgress::Start(None) => {
            &&& turn matches SessionTurn::Respond(response)
            &&& refuses(response, BAD_REQUEST, "invalid request"@)
        },
        SessionProgress::Start(Some(params)) => {
            &&& turn matches SessionTurn::FetchToken(request)
            &&& request@ == token_request(
                config.client_id@,
                config.client_secret@,
                config.redirect_uri@,
                params.code@,
            )
        },
        SessionProgress::TokenAnswered(sent) => match request_result(sent) {
            Err(message) => turn matches SessionTurn::Respond(response) && refuses(
                response,
                INTERNAL_SERVER_ERROR,
                message@,
            ),
            Ok(token) => {
                &&& turn matches SessionTurn::FetchProfile(known, request)
                &&& known == token
                &&& request@ == profile_request(token.access_token@)
            },
        },
        SessionProgress::ProfileAnswered(token, sent) => match request_result(sent) {
            Err(message) => turn matches SessionTurn::Respond(response) && refuses(
                response,
                INTERNAL_SERVER_ERROR,
                message@,
            ),
            Ok(profile) => user_step(token, profile, Progress::Start, turn),
        },
        SessionProgress::UserAnswered(token, profile, stage, reply) => user_step(
            token,
            profile,
            Progress::After(stage, reply),
            turn,
        ),
        SessionProgress::Signed(token, signed) => match signed {
            Ok(session) => turn == SessionTurn::Respond(
                ServerResponse::Data(
                    SpotifyAccessTokenResponse { session: Some(session), ..token },
                ),
            ),
            Err(e) => turn == SessionTurn::Respond(ServerResponse::Refusal(e.status, e.message)),
        },
    }
}

/// The turn that follows in the table of users.
pub open spec fn user_step(
    token: SpotifyAccessTokenResponse,
    profile: SpotifyUserProfile,
    at: Progress<SpotifyUser>,
    turn: SessionTurn,
) -> bool {
    match decision(at) {
        Decision::Ask(stage) => {
            &&& turn matches SessionTurn::Database(known, of, asked, statement)
            &&& known == token
            &&& of == profile
            &&& turn_of(
                Turn::Ask(asked, statement),
                decision(at),
                select_user(profile.id@),
                db::add_user(profile.id@, profile.display_name@),
            )
        },
        Decision::Finish(Ok(user)) => turn == SessionTurn::Sign(token, user),
        Decision::Finish(Err(e)) => turn matches SessionTurn::Respond(response) && refuses(
            response,
            INTERNAL_SERVER_ERROR,
            error_text(e),
        ),
    }
}

fn take_user_turn(
    token: SpotifyAccessTokenResponse,
    profile: SpotifyUserProfile,
    at: Progress<SpotifyUser>,
) -> (turn: SessionTurn)
    requires
        fits(at),
    ensures
        user_step(token, profile, at, turn),
{
    match db::create_user(&profile, at) {
        Turn::Ask(stage, statement) => SessionTurn::Database(token, profile, stage, statement),
        Turn::Finish(Ok(user)) => SessionTurn::Sign(token, user),
        Turn::Finish(Err(e)) => SessionTurn::Respond(
            ServerResponse::Refusal(INTERNAL_SERVER_ERROR, e.msg()),
        ),
    }
}

/// Creates a session for a user who comes back from Spotify: the next turn.
pub fn create_session(config: &ClientConfig, at: SessionProgress) -> (turn: SessionTurn)
    requires
        session_fits(at),
    ensures
        session_step(*config, at, turn),
{
    match at {
        SessionProgress::Start(Some(params)) => SessionTurn::FetchToken(
            spotify::get_tokens(
                config.client_id.as_str(),
                config.client_secret.as_str(),
                config.redirect_uri.as_str(),
                params.code.as_str(),
            ),
        ),
        SessionProgress::Start(None) => SessionTurn::Respond(
            ServerResponse::Refusal(BAD_REQUEST, "invalid request".to_owned()),
        ),
        SessionProgress::TokenAnswered(sent) => match spotify::get_token_response(sent) {
            Ok(token) => {
                let request = spotify::user_info_request(&token);
                SessionTurn::FetchProfile(token, request)
            },
            Err(e) => SessionTurn::Respond(
                ServerResponse::Refusal(INTERNAL_SERVER_ERROR, e.msg()),
            ),
        },
        SessionProgress::ProfileAnswered(token, sent) => match spotify::get_user_info(sent) {
            Ok(profile) => take_user_turn(token, profile, Progress::Start),
            Err(e) => SessionTurn::Respond(
                ServerResponse::Refusal(INTERNAL_SERVER_ERROR, e.msg()),
            ),
        },
        SessionProgress::UserAnswered(token, profile, stage, reply) => take_user_turn(
            token,
            profile,
            Progress::After(stage, reply),
        ),
        SessionProgress::Signed(token, signed) => match signed {
            Ok(session) => {
                let mut token = token;
                token.session = Some(session);
                SessionTurn::Respond(ServerResponse::Data(token))
            },
            Err(e) => SessionTurn::Respond(ServerResponse::Refusal(e.status, e.message)),
        },
    }
}

/// Everything that comes from outside while a session is created.
pub struct SessionReplies {
    /// How the request for an access token goes.
    pub token: Result<BodyOutcome<SpotifyAccessTokenResponse>, String>,
    /// How the request for the profile goes.
    pub profile: Result<BodyOutcome<SpotifyUserProfile>, String>,
    /// The user that the table of users has.
    pub found: Result<Option<SpotifyUser>, DbError>,
    /// Whether the user could be added.
    pub inserted: Result<(), DbError>,
    /// The user that the table of users has then.
    pub found_again: Result<Option<SpotifyUser>, DbError>,
    /// The session token, signed.
    pub signed: Result<String, JwtError>,
}

/// Where the creation of a session stands once a turn has got its reply from outside.
pub open spec fn session_reply(turn: SessionTurn, replies: SessionReplies) -> Option<
    SessionProgress,
> {
    match turn {
        SessionTurn::FetchToken(_) => Some(SessionProgress::TokenAnswered(replies.token)),
        SessionTurn::FetchProfile(token, _) => Some(
            SessionProgress::ProfileAnswered(token, replies.profile),
        ),
        SessionTurn::Database(token, profile, stage, _) => Some(
            SessionProgress::UserAnswered(
                token,
                profile,
                stage,
                match stage {
                    Stage::Find => Reply::Selected(replies.found),
                    Stage::Insert => Reply::Inserted(replies.inserted),
                    Stage::FindAgain => Reply::Selected(replies.found_again),
                },
            ),
        ),
        SessionTurn::Sign(token, _) => Some(SessionProgress::Signed(token, replies.signed)),
        SessionTurn::Respond(_) => None,
    }
}

/// Whether the creation of a session, from where it stands, may end with this response within
/// some turns.
pub open spec fn session_leads_to(
    config: ClientConfig,
    at: SessionProgress,
    replies: SessionReplies,
    response: ServerResponse<SpotifyAccessTokenResponse>,
    turns: nat,
) -> bool
    decreases turns,
{
    turns > 0 && exists|turn: SessionTurn| #[trigger]
        session_step(config, at, turn) && match session_reply(turn, replies) {
            Some(next) => session_leads_to(config, next, replies, response, (turns - 1) as nat),
            None => turn == SessionTurn::Respond(response),
        }
}

/// What a request for a session is answered: without parameters it is refused; the message of the
/// first outside step that fails is passed on with status 500, but for a failure to sign, which has
/// a status of its own; and if none fails the answer is what Spotify gave, with the session token.
pub open spec fn session_answered(
    params: Option<AccessTokenParams>,
    replies: SessionReplies,
    response: ServerResponse<SpotifyAccessTokenResponse>,
) -> bool {
    match (params, request_result(replies.token), request_result(replies.profile)) {
        (None, _, _) => refuses(response, BAD_REQUEST, "invalid request"@),
        (_, Err(message), _) => refuses(response, INTERNAL_SERVER_ERROR, message@),
        (_, _, Err(message)) => refuses(response, INTERNAL_SERVER_ERROR, message@),
        (_, Ok(token), Ok(_)) => user_answered(
            token,
            pursuit_outcome(replies.found, replies.inserted, replies.found_again),
            replies.signed,
            response,
        ),
    }
}

/// What the request is answered, once the table of users is settled.
pub open spec fn user_answered(
    token: SpotifyAccessTokenResponse,
    user: Result<SpotifyUser, DbError>,
    signed: Result<String, JwtError>,
    response: ServerResponse<SpotifyAccessTokenResponse>,
) -> bool {
    match (user, signed) {
        (Err(e), _) => refuses(response, INTERNAL_SERVER_ERROR, error_text(e)),
        (Ok(_), Err(e)) => response == ServerResponse::<SpotifyAccessTokenResponse>::Refusal(
            e.status,
            e.message,
        ),
        (Ok(_), Ok(session)) => response == ServerResponse::Data(
            SpotifyAccessTokenResponse { session: Some(session), ..token },
        ),
    }
}

/// What the request is answered, from where the creation of the session stands.
spec fn answered_from(
    at: SessionProgress,
    replies: SessionReplies,
    response: ServerResponse<SpotifyAccessTokenResponse>,
) -> bool {
    let user = |progress: Progress<SpotifyUser>|
        pursued(progress, replies.found, replies.inserted, replies.found_again);
    match at {
        SessionProgress::Start(params) => session_answered(params, replies, response),
        SessionProgress::TokenAnswered(sent) => match (
            request_result(sent),
            request_result(replies.profile),
        ) {
            (Err(message), _) => refuses(response, INTERNAL_SERVER_ERROR, message@),
            (_, Err(message)) => refuses(response, INTERNAL_SERVER_ERROR, message@),
            (Ok(token), Ok(_)) => user_answered(
                token,
                user(Progress::Start),
                replies.signed,
                response,
            ),
        },
        SessionProgress::ProfileAnswered(token, sent) => match request_result(sent) {
            Err(message) => refuses(response, INTERNAL_SERVER_ERROR, message@),
            Ok(_) => user_answered(token, user(Progress::Start), replies.signed, response),
        },
        SessionProgress::UserAnswered(token, _, stage, reply) => user_answered(
            token,
            user(Progress::After(stage, reply)),
            replies.signed,
            response,
        ),
        SessionProgress::Signed(token, signed) => match signed {
            Err(e) => response == ServerResponse::<SpotifyAccessTokenResponse>::Refusal(
                e.status,
                e.message,
            ),
            Ok(session) => response == ServerResponse::Data(
                SpotifyAccessTokenResponse { session: Some(session), ..token },
            ),
        },
    }
}

proof fn lemma_session_answered_from(
    config: ClientConfig,
    at: SessionProgress,
    replies: SessionReplies,
    response: ServerResponse<SpotifyAccessTokenResponse>,
    turns: nat,
)
    requires
        at matches SessionProgress::UserAnswered(_, _, stage, reply) ==> fits(
            Progress::After(stage, reply),
        ),
        session_leads_to(config, at, replies, response, turns),
    ensures
        answered_from(at, replies, response),
    decreases turns,
{
    let turn = choose|turn: SessionTurn| #[trigger]
        session_step(config, at, turn) && match session_reply(turn, replies) {
            Some(next) => session_leads_to(config, next, replies, response, (turns - 1) as nat),
            None => turn == SessionTurn::Respond(response),
        };
    law_pursuit_comes_to_outcome(replies.found, replies.inserted, replies.found_again);
    match session_reply(turn, replies) {
        Some(next) => {
            lemma_session_answered_from(config, next, replies, response, (turns - 1) as nat);
        },
        None => {},
    }
}

/// The turns of a session, one after the other, end with what the request is to be answered.
pub proof fn law_session_is_answered(
    config: ClientConfig,
    params: Option<AccessTokenParams>,
    replies: SessionReplies,
    response: ServerResponse<SpotifyAccessTokenResponse>,
    turns: nat,
)
    requires
        session_leads_to(config, SessionProgress::Start(params), replies, response, turns),
    ensures
        session_answered(params, replies, response),
{
    lemma_session_answered_from(
        config,
        SessionProgress::Start(params),
        replies,
        response,
        turns,
    );
}

/// How far the creation of a session has come, as a number.
pub open spec fn session_rank(at: SessionProgress) -> nat {
    match at {
        SessionProgress::Start(_) => 0,
        SessionProgress::TokenAnswered(_) => 1,
        SessionProgress::ProfileAnswered(_, _) => 2,
        SessionProgress::UserAnswered(_, _, Stage::Find, _) => 3,
        SessionProgress::UserAnswered(_, _, Stage::Insert, _) => 4,
        SessionProgress::UserAnswered(_, _, Stage::FindAgain, _) => 5,
        SessionProgress::Signed(_, _) => 6,
    }
}

/// Every turn brings the creation of a session further, so that it ends with the seventh at the
/// latest, and every reply is one that the next turn can take, but for an access token that cannot
/// be presented.
pub proof fn law_session_ends(
    config: ClientConfig,
    at: SessionProgress,
    turn: SessionTurn,
    replies: SessionReplies,
)
    requires
        session_fits(at),
        session_step(config, at, turn),
    ensures
        session_reply(turn, replies) matches Some(next) ==> session_rank(at) < session_rank(next)
            <= 6 && (next is TokenAnswered || session_fits(next)),
{
}

/// A request for a fresh access token.
pub struct RefreshTokenRequest {
    pub refresh_token: String,
}

/// How far the refreshing of an access token has come.
pub enum RefreshProgress {
    Start(RefreshTokenRequest),
    Answered(Result<BodyOutcome<SpotifyRefreshedAccessTokenResponse>, String>),
}

/// What the refreshing of an access token needs next from outside, or its end.
pub enum RefreshTurn {
    Fetch(HttpRequest),
    Respond(ServerResponse<SpotifyRefreshedAccessTokenResponse>),
}

/// The turn that follows: the refresh token is traded for an access token. A failure is the
/// response.
pub open spec fn refresh_step(
    config: ClientConfig,
    at: RefreshProgress,
    turn: RefreshTurn,
) -> bool {
    match at {
        RefreshProgress::Start(payload) => turn matches RefreshTurn::Fetch(request) && request@
            == refresh_request(
            config.client_id@,
            config.client_secret@,
            payload.refresh_token@,
        ),
        RefreshProgress::Answered(sent) => match request_result(sent) {
            Ok(token) => turn == RefreshTurn::Respond(ServerResponse::Data(token)),
            Err(message) => turn == RefreshTurn::Respond(
                ServerResponse::Refusal(INTERNAL_SERVER_ERROR, message),
            ),
        },
    }
}

/// Refreshes an access token: the next turn.
pub fn refresh_token(config: &ClientConfig, at: RefreshProgress) -> (turn: RefreshTurn)
    ensures
        refresh_step(*config, at, turn),
{
    match at {
        RefreshProgress::Start(payload) => RefreshTurn::Fetch(
            spotify::refreshed_token_request(
                config.client_id.as_str(),
                config.client_secret.as_str(),
                payload.refresh_token.as_str(),
            ),
        ),
        RefreshProgress::Answered(sent) => match spotify::get_refreshed_token(sent) {
            Ok(token) => RefreshTurn::Respond(ServerResponse::Data(token)),
            Err(e) => RefreshTurn::Respond(
                ServerResponse::Refusal(INTERNAL_SERVER_ERROR, e.msg()),
            ),
        },
    }
}

} // verus!
