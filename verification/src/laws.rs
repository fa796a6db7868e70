//! What the service promises as a whole, over the tables of the database and the answers of Spotify.

use vstd::prelude::*;
use vstd::utf8::encode_utf8;

use crate::db::{
    decision, DbError, Decision, ParamView, Progress, Reply, Room, SpotifyUser,
    Stage,
};
use crate::encoding::{base64_text, law_base64_injective};
use crate::ids::{uuid_error_text, uuid_value, Uuid};
use crate::requests::{
    add_room_step, entry_step, lookup_step, rooms_step, ws_step, AddRoomProgress, AddRoomRequest,
    AddRoomTurn, Claims, RoomProgress, RoomTurn, RoomsProgress, RoomsTurn, WsProgress, WsTurn,
};
use crate::rooms::Rooms;
use crate::server::ServerResponse;
use crate::session::{
    refresh_step, session_step, AccessTokenParams, ClientConfig, JwtError, RefreshProgress,
    RefreshTokenRequest, RefreshTurn, SessionProgress, SessionTurn,
};
use crate::sockets::{happens, Happening};
use crate::spotify::{
    BodyOutcome, HttpRequestView, Method, SpotifyAccessTokenResponse,
    SpotifyRefreshedAccessTokenResponse, SpotifyUserProfile,
};
use crate::tables::{
    lemma_statements_told_apart, room_executed, room_selected, rooms_selected, selects_room,
    selects_user, user_executed, user_selected,
};
use crate::tracks::TrackView;

verus! {

// Entering a room.

/// Whether the database, with these users and these rooms, may have answered a turn so that the
/// request to enter a room goes on from `next`.
pub open spec fn entry_goes_on(
    turn: WsTurn,
    users: Seq<SpotifyUser>,
    rows: Seq<Room>,
    next: WsProgress,
) -> bool {
    match turn {
        WsTurn::FindUser(statement) => next matches WsProgress::UserAnswered(Ok(found))
            && user_selected(users, statement@, found),
        WsTurn::FindRoom(user, statement) => next matches WsProgress::RoomAnswered(of, Ok(found))
            && of == user && room_selected(rows, statement@, found),
        _ => false,
    }
}

/// Whether these are the turns of a request to enter a room, from the first to the last, when the
/// database answers from these users and these rooms.
pub open spec fn entry_run(
    room_id: Seq<char>,
    users: Seq<SpotifyUser>,
    rows: Seq<Room>,
    ats: Seq<WsProgress>,
    turns: Seq<WsTurn>,
) -> bool {
    &&& ats.len() == turns.len() > 0
    &&& forall|i: int| 0 <= i < turns.len() ==> ws_step(room_id, ats[i], #[trigger] turns[i])
    &&& forall|i: int|
        0 <= i < turns.len() - 1 ==> entry_goes_on(#[trigger] turns[i], users, rows, ats[i + 1])
    &&& turns.last() is Refuse || turns.last() is Upgrade
}

/// Whether a user of that Spotify identifier is in the table.
pub open spec fn has_user(users: Seq<SpotifyUser>, spotify_user_id: Seq<char>) -> bool {
    exists|user: SpotifyUser| #[trigger]
        users.contains(user) && user.spotify_user_id@ == spotify_user_id
}

/// Whether a room of that identifier is in the table.
pub open spec fn has_room(rows: Seq<Room>, bits: u128) -> bool {
    exists|room: Room| #[trigger]
        rows.contains(room) && (room.id matches Some(id) && id.bits == bits)
}

/// Whoever is let into a room is the user whose Spotify identifier is the subject of the session
/// token. They are let in if and only if the room with the identifier in the path exists; else they
/// are refused with 500, and with 404 if the path is no identifier.
pub proof fn law_entry_is_of_session_user(
    room_id: Seq<char>,
    claims: Claims,
    users: Seq<SpotifyUser>,
    rows: Seq<Room>,
    ats: Seq<WsProgress>,
    turns: Seq<WsTurn>,
)
    requires
        has_user(users, claims.sub@),
        entry_run(room_id, users, rows, ats, turns),
        ats[0] == WsProgress::Start(Some(claims)),
    ensures
        match uuid_value(room_id) {
            None => turns.last() == WsTurn::Refuse(404),
            Some(bits) => if has_room(rows, bits) {
                &&& turns.last() matches WsTurn::Upgrade(user)
                &&& users.contains(user)
                &&& user.spotify_user_id@ == claims.sub@
            } else {
                turns.last() == WsTurn::Refuse(500)
            },
        },
{
    lemma_statements_told_apart();
    assert(ws_step(room_id, ats[0], turns[0]));
    assert(entry_goes_on(turns[0], users, rows, ats[1]));
    let asked = turns[0]->FindUser_0@;
    let known = choose|user: SpotifyUser| #[trigger]
        users.contains(user) && user.spotify_user_id@ == claims.sub@;
    assert(selects_user(asked, known));
    assert(ws_step(room_id, ats[1], turns[1]));
    if uuid_value(room_id) is Some {
        let bits = uuid_value(room_id)->0;
        assert(entry_goes_on(turns[1], users, rows, ats[2]));
        assert(ws_step(room_id, ats[2], turns[2]));
        let asked = turns[1]->FindRoom_1@;
        if has_room(rows, bits) {
            let room = choose|room: Room| #[trigger]
                rows.contains(room) && (room.id matches Some(id) && id.bits == bits);
            assert(room.id == Some(Uuid { bits }));
            assert(selects_room(asked, room));
        }
        if turns.len() > 3 {
            assert(entry_goes_on(turns[2], users, rows, ats[3]));
        }
    } else if turns.len() > 2 {
        assert(entry_goes_on(turns[1], users, rows, ats[2]));
    }
}

/// The user is looked up by the subject of the session token and by nothing else: not by the room,
/// and different subjects are looked up differently.
pub proof fn law_entry_asks_for_subject(
    room1: Seq<char>,
    claims1: Claims,
    turn1: WsTurn,
    room2: Seq<char>,
    claims2: Claims,
    turn2: WsTurn,
)
    requires
        ws_step(room1, WsProgress::Start(Some(claims1)), turn1),
        ws_step(room2, WsProgress::Start(Some(claims2)), turn2),
    ensures
        turn1 matches WsTurn::FindUser(asked1) && turn2 matches WsTurn::FindUser(asked2) && (
        asked1@ == asked2@ <==> claims1.sub@ == claims2.sub@),
        turn1 matches WsTurn::FindUser(asked) && forall|user: SpotifyUser| #[trigger]
            selects_user(asked@, user) <==> user.spotify_user_id@ == claims1.sub@,
{
    assert(turn1->FindUser_0@.params[0] == ParamView::Text(claims1.sub@));
    assert(turn2->FindUser_0@.params[0] == ParamView::Text(claims2.sub@));
}

/// A request to enter a room is refused with 401 without a readable token, with 500 if the user
/// could not be looked up, and with 404 if the room could not.
pub proof fn law_entry_refusals(room_id: Seq<char>, at: WsProgress, turn: WsTurn)
    requires
        ws_step(room_id, at, turn),
    ensures
        at matches WsProgress::Start(None) ==> turn == WsTurn::Refuse(401),
        at matches WsProgress::UserAnswered(Err(_)) ==> turn == WsTurn::Refuse(500),
        at matches WsProgress::RoomAnswered(_, Err(_)) ==> turn == WsTurn::Refuse(404),
        at matches WsProgress::RoomAnswered(_, Ok(None)) ==> turn == WsTurn::Refuse(500),
        at matches WsProgress::RoomAnswered(user, Ok(Some(_))) ==> turn == WsTurn::Upgrade(user),
{
}

/// The room in the path is known once a user has been let in, and empty if it was not known before.
/// Nothing else changes, and nothing at all while a user has not been let in.
pub proof fn law_entry_enters_room(
    before: Rooms,
    room_id: Seq<char>,
    at: WsProgress,
    turn: WsTurn,
    after: Rooms,
    k: Seq<char>,
)
    requires
        entry_step(before, room_id, at, turn, after),
    ensures
        turn is Upgrade <==> (at matches WsProgress::RoomAnswered(_, Ok(Some(_)))),
        turn is Upgrade ==> after.contains_key(room_id),
        turn is Upgrade && !before.contains_key(room_id) ==> after[room_id].tracks == Map::<
            Seq<char>,
            TrackView,
        >::empty(),
        before.contains_key(k) ==> after.contains_key(k) && after[k] == before[k],
        after.contains_key(k) ==> before.contains_key(k) || (k == room_id && turn is Upgrade),
        turn is Upgrade ==> happens(before, Happening::Entered(room_id), after),
{
}

// Adding a room.

/// Whether a statement of a turn goes through, so that it leaves the table of rooms from `before` as
/// `after` and the request to add a room goes on from `next`.
pub open spec fn add_room_goes_on(
    turn: AddRoomTurn,
    before: Seq<Room>,
    next: AddRoomProgress,
    after: Seq<Room>,
) -> bool {
    match turn {
        AddRoomTurn::Database(room, stage, statement) => {
            &&& next matches AddRoomProgress::Answered(of, at, reply)
            &&& of == room
            &&& at == stage
            &&& room_executed(before, statement@, reply, after)
        },
        AddRoomTurn::Respond(_) => false,
    }
}

/// Whether these are the turns of a request to add a room, from the first to the last, and the
/// tables of rooms before each of them, when every statement goes through.
pub open spec fn add_room_run(
    ats: Seq<AddRoomProgress>,
    turns: Seq<AddRoomTurn>,
    tables: Seq<Seq<Room>>,
) -> bool {
    &&& ats.len() == turns.len() == tables.len() > 0
    &&& forall|i: int| 0 <= i < turns.len() ==> add_room_step(ats[i], #[trigger] turns[i])
    &&& forall|i: int|
        0 <= i < turns.len() - 1 ==> add_room_goes_on(
            #[trigger] turns[i],
            tables[i],
            ats[i + 1],
            tables[i + 1],
        )
    &&& turns.last() is Respond
}

/// Whether the owner has a room of that name.
pub open spec fn owns_room(rows: Seq<Room>, bits: u128, name: Seq<char>) -> bool {
    exists|room: Room| #[trigger]
        rows.contains(room) && room.owner.bits == bits && room.name@ == name
}

/// A user who adds a room is answered with a row of the table that has their identifier as its owner
/// and the name that they asked for. If they have no such room, exactly one row is added, which is
/// that row; if they have, nothing is added. Nothing is added either if their identifier cannot be
/// read.
pub proof fn law_added_room_is_owned(
    claims: Claims,
    payload: AddRoomRequest,
    ats: Seq<AddRoomProgress>,
    turns: Seq<AddRoomTurn>,
    tables: Seq<Seq<Room>>,
)
    requires
        add_room_run(ats, turns, tables),
        ats[0] == AddRoomProgress::Start(claims, payload),
    ensures
        match uuid_value(claims.sub@) {
            None => {
                &&& tables.last() == tables[0]
                &&& turns.last() matches AddRoomTurn::Respond(
                    ServerResponse::Refusal(500, message),
                )
                &&& message@ == "error converting user id to uuid"@
            },
            Some(bits) => {
                &&& turns.last() matches AddRoomTurn::Respond(ServerResponse::Data(row))
                &&& tables.last().contains(row)
                &&& row.owner.bits == bits
                &&& row.name@ == payload.room_name@
                &&& owns_room(tables[0], bits, payload.room_name@) ==> tables.last() == tables[0]
                &&& !owns_room(tables[0], bits, payload.room_name@) ==> {
                    &&& tables.last().len() == tables[0].len() + 1
                    &&& tables.last().drop_last() == tables[0]
                    &&& row == tables.last().last()
                }
            },
        },
{
    lemma_statements_told_apart();
    assert(add_room_step(ats[0], turns[0]));
    if uuid_value(claims.sub@) is None {
        if turns.len() > 1 {
            assert(add_room_goes_on(turns[0], tables[0], ats[1], tables[1]));
        }
    } else {
        let bits = uuid_value(claims.sub@)->0;
        let name = payload.room_name@;
        assert(add_room_goes_on(turns[0], tables[0], ats[1], tables[1]));
        assert(add_room_step(ats[1], turns[1]));
        let asked = turns[0]->Database_2@;
        assert(asked.params[0] == ParamView::Id(Uuid { bits }));
        assert(asked.params[1] == ParamView::Text(name));
        if owns_room(tables[0], bits, name) {
            let room = choose|room: Room| #[trigger]
                tables[0].contains(room) && room.owner.bits == bits && room.name@ == name;
            assert(room.owner == Uuid { bits });
            assert(selects_room(asked, room));
            if turns.len() > 2 {
                assert(add_room_goes_on(turns[1], tables[1], ats[2], tables[2]));
            }
        } else {
            assert(add_room_goes_on(turns[1], tables[1], ats[2], tables[2]));
            assert(add_room_step(ats[2], turns[2]));
            assert(add_room_goes_on(turns[2], tables[2], ats[3], tables[3]));
            assert(add_room_step(ats[3], turns[3]));
            let added = tables[2].last();
            assert(turns[1]->Database_2@.params[1] == ParamView::Id(Uuid { bits }));
            assert(turns[1]->Database_2@.params[0] == ParamView::Text(name));
            assert(added.owner == Uuid { bits } && added.name@ == name);
            let again = turns[2]->Database_2@;
            assert(again.params[0] == ParamView::Id(Uuid { bits }));
            assert(again.params[1] == ParamView::Text(name));
            assert(selects_room(again, added));
            assert(tables[2].contains(added)) by {
                assert(tables[2][tables[2].len() - 1] == added);
            }
            assert forall|room: Room|
                tables[2].contains(room) && #[trigger] selects_room(again, room) implies room
                == added by {
                let i = choose|i: int| 0 <= i < tables[2].len() && tables[2][i] == room;
                if i < tables[2].len() - 1 {
                    assert(tables[2].drop_last()[i] == room);
                    assert(tables[0].contains(room));
                }
            }
            if turns.len() > 4 {
                assert(add_room_goes_on(turns[3], tables[3], ats[4], tables[4]));
            }
        }
    }
}

// Listing rooms and looking one up.

/// The rooms that a user is shown are all rooms of the table that have their identifier as their
/// owner, and no others.
pub proof fn law_listed_rooms_are_owned(
    claims: Claims,
    asked: RoomsTurn,
    rows: Seq<Room>,
    found: Vec<Room>,
    end: RoomsTurn,
)
    requires
        rooms_step(RoomsProgress::Start(claims), asked),
        asked matches RoomsTurn::Database(statement) ==> rooms_selected(rows, statement@, found@)
            && rooms_step(RoomsProgress::Answered(Ok(found)), end),
    ensures
        match uuid_value(claims.sub@) {
            None => asked matches RoomsTurn::Respond(ServerResponse::Refusal(500, why)) && why@
                == uuid_error_text(claims.sub@),
            Some(bits) => {
                &&& asked is Database
                &&& end matches RoomsTurn::Respond(ServerResponse::Data(listed))
                &&& listed == found
                &&& forall|room: Room| #[trigger]
                    listed@.contains(room) <==> rows.contains(room) && room.owner.bits == bits
            },
        },
{
    lemma_statements_told_apart();
    if uuid_value(claims.sub@) is Some {
        let bits = uuid_value(claims.sub@)->0;
        let statement = asked->Database_0@;
        assert(statement.params[0] == ParamView::Id(Uuid { bits }));
        assert forall|room: Room| #[trigger] selects_room(statement, room) <==> room.owner.bits
            == bits by {}
    }
}

/// Two users are shown the same rooms of every table only if they have the same identifier: the
/// statements by which their rooms are asked for differ.
pub proof fn law_listings_told_apart(
    claims1: Claims,
    turn1: RoomsTurn,
    claims2: Claims,
    turn2: RoomsTurn,
)
    requires
        rooms_step(RoomsProgress::Start(claims1), turn1),
        rooms_step(RoomsProgress::Start(claims2), turn2),
        uuid_value(claims1.sub@) is Some,
        uuid_value(claims2.sub@) is Some,
    ensures
        turn1 matches RoomsTurn::Database(asked1) && turn2 matches RoomsTurn::Database(asked2) && (
        asked1@ == asked2@ <==> uuid_value(claims1.sub@) == uuid_value(claims2.sub@)),
{
    let bits1 = uuid_value(claims1.sub@)->0;
    let bits2 = uuid_value(claims2.sub@)->0;
    assert(turn1->Database_0@.params[0] == ParamView::Id(Uuid { bits: bits1 }));
    assert(turn2->Database_0@.params[0] == ParamView::Id(Uuid { bits: bits2 }));
}

/// The room that is looked up is one of the table with the identifier in the path. The answer is 404
/// if there is none.
pub proof fn law_looked_up_room_has_identifier(
    room_id: String,
    asked: RoomTurn,
    rows: Seq<Room>,
    found: Option<Room>,
    end: RoomTurn,
)
    requires
        lookup_step(RoomProgress::Start(room_id), asked),
        asked matches RoomTurn::Database(statement) ==> room_selected(rows, statement@, found)
            && lookup_step(RoomProgress::Answered(Ok(found)), end),
    ensures
        match uuid_value(room_id@) {
            None => asked matches RoomTurn::Respond(ServerResponse::Refusal(500, why)) && why@
                == uuid_error_text(room_id@),
            Some(bits) => {
                &&& asked is Database
                &&& if has_room(rows, bits) {
                    &&& end matches RoomTurn::Respond(ServerResponse::Data(room))
                    &&& rows.contains(room)
                    &&& room.id matches Some(id) && id.bits == bits
                } else {
                    &&& end matches RoomTurn::Respond(ServerResponse::Refusal(404, message))
                    &&& message@ == "room not found"@
                }
            },
        },
{
    lemma_statements_told_apart();
    if uuid_value(room_id@) is Some {
        let bits = uuid_value(room_id@)->0;
        let statement = asked->Database_0@;
        assert(statement.params[0] == ParamView::Id(Uuid { bits }));
        if has_room(rows, bits) {
            let room = choose|room: Room| #[trigger]
                rows.contains(room) && (room.id matches Some(id) && id.bits == bits);
            assert(room.id == Some(Uuid { bits }));
            assert(selects_room(statement, room));
        }
    }
}

/// The message of a failed statement is the answer, with status 500, wherever a request asks for
/// rooms.
pub proof fn law_room_failures_are_passed_on(
    message: String,
    listing: RoomsTurn,
    lookup: RoomTurn,
    room: Room,
    stage: Stage,
    adding: AddRoomTurn,
    adding_after_insertion: AddRoomTurn,
)
    requires
        rooms_step(RoomsProgress::Answered(Err(DbError::Query(message))), listing),
        lookup_step(RoomProgress::Answered(Err(DbError::Query(message))), lookup),
        add_room_step(
            AddRoomProgress::Answered(room, stage, Reply::Selected(Err(DbError::Query(message)))),
            adding,
        ),
        add_room_step(
            AddRoomProgress::Answered(
                room,
                Stage::Insert,
                Reply::Inserted(Err(DbError::Query(message))),
            ),
            adding_after_insertion,
        ),
    ensures
        listing matches RoomsTurn::Respond(ServerResponse::Refusal(500, why)) && why@ == message@,
        lookup matches RoomTurn::Respond(ServerResponse::Refusal(500, why)) && why@ == message@,
        adding matches AddRoomTurn::Respond(ServerResponse::Refusal(500, why)) && why@ == message@,
        adding_after_insertion matches AddRoomTurn::Respond(ServerResponse::Refusal(500, why))
            && why@ == message@,
{
}

// Sessions.

/// The authorization of a client: its identifier and its secret, joined by a colon, in base64.
pub open spec fn client_authorization(config: ClientConfig) -> Seq<char> {
    "Basic "@ + base64_text(encode_utf8(config.client_id@ + ":"@ + config.client_secret@))
}

/// Whether the outside may have answered a turn so that the creation of a session goes on from
/// `next`, and the table of users goes from `before` to `after`. Spotify answers requests by `tokens`
/// and `profiles`, session tokens are signed by `sign`, and every statement goes through.
pub open spec fn session_goes_on(
    tokens: spec_fn(HttpRequestView) -> Result<BodyOutcome<SpotifyAccessTokenResponse>, String>,
    profiles: spec_fn(HttpRequestView) -> Result<BodyOutcome<SpotifyUserProfile>, String>,
    sign: spec_fn(SpotifyUser) -> Result<String, JwtError>,
    turn: SessionTurn,
    before: Seq<SpotifyUser>,
    next: SessionProgress,
    after: Seq<SpotifyUser>,
) -> bool {
    match turn {
        SessionTurn::FetchToken(request) => next == SessionProgress::TokenAnswered(tokens(request@))
            && after == before,
        SessionTurn::FetchProfile(token, request) => next == SessionProgress::ProfileAnswered(
            token,
            profiles(request@),
        ) && after == before,
        SessionTurn::Database(token, profile, stage, statement) => {
            &&& next matches SessionProgress::UserAnswered(known, of, at, reply)
            &&& known == token
            &&& of == profile
            &&& at == stage
            &&& user_executed(before, statement@, reply, after)
        },
        SessionTurn::Sign(token, user) => next == SessionProgress::Signed(token, sign(user))
            && after == before,
        SessionTurn::Respond(_) => false,
    }
}

/// Whether these are the turns of the creation of a session, from the first to the last, and the
/// tables of users before each of them.
pub open spec fn session_run(
    config: ClientConfig,
    tokens: spec_fn(HttpRequestView) -> Result<BodyOutcome<SpotifyAccessTokenResponse>, String>,
    profiles: spec_fn(HttpRequestView) -> Result<BodyOutcome<SpotifyUserProfile>, String>,
    sign: spec_fn(SpotifyUser) -> Result<String, JwtError>,
    ats: Seq<SessionProgress>,
    turns: Seq<SessionTurn>,
    tables: Seq<Seq<SpotifyUser>>,
) -> bool {
    &&& ats.len() == turns.len() == tables.len() > 0
    &&& forall|i: int| 0 <= i < turns.len() ==> session_step(config, ats[i], #[trigger] turns[i])
    &&& forall|i: int|
        0 <= i < turns.len() - 1 ==> session_goes_on(
            tokens,
            profiles,
            sign,
            #[trigger] turns[i],
            tables[i],
            ats[i + 1],
            tables[i + 1],
        )
    &&& turns.last() is Respond
}

/// Whether a turn ends with this status and this message.
pub open spec fn session_refused(turn: SessionTurn, status: u16, message: Seq<char>) -> bool {
    turn matches SessionTurn::Respond(ServerResponse::Refusal(code, why)) && code == status && why@
        == message
}

/// Whether a session ends like this once the profile of its user is known: the user with the Spotify
/// identifier of the profile is the one in the table, or else the one row that is added to it, with
/// the name in the profile; a session token is signed for that user; and the answer is what Spotify
/// gave, with that session token.
pub open spec fn session_concluded(
    token: SpotifyAccessTokenResponse,
    profile: SpotifyUserProfile,
    sign: spec_fn(SpotifyUser) -> Result<String, JwtError>,
    before: Seq<SpotifyUser>,
    user: SpotifyUser,
    after: Seq<SpotifyUser>,
    end: SessionTurn,
) -> bool {
    &&& after.contains(user)
    &&& user.spotify_user_id@ == profile.id@
    &&& has_user(before, profile.id@) ==> after == before
    &&& !has_user(before, profile.id@) ==> {
        &&& after.len() == before.len() + 1
        &&& after.drop_last() == before
        &&& user == after.last()
        &&& user.display_name@ == profile.display_name@
    }
    &&& match sign(user) {
        Err(e) => end == SessionTurn::Respond(ServerResponse::Refusal(e.status, e.message)),
        Ok(session) => {
            &&& end matches SessionTurn::Respond(ServerResponse::Data(given))
            &&& given.access_token == token.access_token
            &&& given.token_type == token.token_type
            &&& given.scope == token.scope
            &&& given.expires_in == token.expires_in
            &&& given.refresh_token == token.refresh_token
            &&& given.session == Some(session)
        },
    }
}

/// The request that trades the code of a user for an access token, with the redirect address of the
/// service and in its name.
pub open spec fn code_trade(config: ClientConfig, code: Seq<char>) -> HttpRequestView {
    HttpRequestView {
        method: Method::Post,
        url: "https://accounts.spotify.com/api/token"@,
        authorization: client_authorization(config),
        form: seq![
            ("grant_type"@, "authorization_code"@),
            ("code"@, code),
            ("redirect_uri"@, config.redirect_uri@),
        ],
    }
}

/// The request for the profile of the bearer of an access token.
pub open spec fn profile_lookup(access_token: Seq<char>) -> HttpRequestView {
    HttpRequestView {
        method: Method::Get,
        url: "https://api.spotify.com/v1/me"@,
        authorization: "Bearer "@ + access_token,
        form: Seq::empty(),
    }
}

proof fn lemma_user_concludes_session(
    config: ClientConfig,
    token: SpotifyAccessTokenResponse,
    profile: SpotifyUserProfile,
    tokens: spec_fn(HttpRequestView) -> Result<BodyOutcome<SpotifyAccessTokenResponse>, String>,
    profiles: spec_fn(HttpRequestView) -> Result<BodyOutcome<SpotifyUserProfile>, String>,
    sign: spec_fn(SpotifyUser) -> Result<String, JwtError>,
    ats: Seq<SessionProgress>,
    turns: Seq<SessionTurn>,
    tables: Seq<Seq<SpotifyUser>>,
)
    requires
        session_run(config, tokens, profiles, sign, ats, turns, tables),
        turns.len() > 2,
        ats[2] == SessionProgress::ProfileAnswered(token, Ok(BodyOutcome::Parsed(profile))),
    ensures
        exists|user: SpotifyUser| #[trigger]
            session_concluded(
                token,
                profile,
                sign,
                tables[2],
                user,
                tables.last(),
                turns.last(),
            ),
{
    lemma_statements_told_apart();
    let before = tables[2];
    assert(session_step(config, ats[2], turns[2]));
    assert(session_goes_on(tokens, profiles, sign, turns[2], tables[2], ats[3], tables[3]));
    assert(session_step(config, ats[3], turns[3]));
    assert(session_goes_on(tokens, profiles, sign, turns[3], tables[3], ats[4], tables[4]));
    assert(session_step(config, ats[4], turns[4]));
    let asked = turns[2]->Database_3@;
    assert(asked.params[0] == ParamView::Text(profile.id@));
    if has_user(before, profile.id@) {
        let known = choose|user: SpotifyUser| #[trigger]
            before.contains(user) && user.spotify_user_id@ == profile.id@;
        assert(selects_user(asked, known));
        let user = turns[3]->Sign_1;
        if turns.len() > 5 {
            assert(session_goes_on(tokens, profiles, sign, turns[4], tables[4], ats[5], tables[5]));
        }
        assert(session_concluded(
            token,
            profile,
            sign,
            before,
            user,
            tables.last(),
            turns.last(),
        ));
    } else {
        assert(session_goes_on(tokens, profiles, sign, turns[4], tables[4], ats[5], tables[5]));
        assert(session_step(config, ats[5], turns[5]));
        let added = tables[4].last();
        let insertion = turns[3]->Database_3@;
        assert(insertion.params[0] == ParamView::Text(profile.id@));
        assert(insertion.params[1] == ParamView::Text(profile.display_name@));
        let again = turns[4]->Database_3@;
        assert(again.params[0] == ParamView::Text(profile.id@));
        assert(selects_user(again, added));
        assert(tables[4].contains(added)) by {
            assert(tables[4][tables[4].len() - 1] == added);
        }
        assert forall|user: SpotifyUser|
            tables[4].contains(user) && #[trigger] selects_user(again, user) implies user
            == added by {
            let i = choose|i: int| 0 <= i < tables[4].len() && tables[4][i] == user;
            if i < tables[4].len() - 1 {
                assert(tables[4].drop_last()[i] == user);
                assert(before.contains(user));
            }
        }
        assert(session_goes_on(tokens, profiles, sign, turns[5], tables[5], ats[6], tables[6]));
        assert(session_step(config, ats[6], turns[6]));
        if turns.len() > 7 {
            assert(session_goes_on(tokens, profiles, sign, turns[6], tables[6], ats[7], tables[7]));
        }
        assert(session_concluded(
            token,
            profile,
            sign,
            before,
            added,
            tables.last(),
            turns.last(),
        ));
    }
}

/// A session is created by trading the code of the user for an access token and by asking for the
/// profile of its bearer. It is for the user with the Spotify identifier of that profile. If Spotify
/// gives no access token or no profile, its message is the answer with status 500, and the table of
/// users is left as it was.
pub proof fn law_session_is_of_spotify_user(
    config: ClientConfig,
    params: AccessTokenParams,
    tokens: spec_fn(HttpRequestView) -> Result<BodyOutcome<SpotifyAccessTokenResponse>, String>,
    profiles: spec_fn(HttpRequestView) -> Result<BodyOutcome<SpotifyUserProfile>, String>,
    sign: spec_fn(SpotifyUser) -> Result<String, JwtError>,
    ats: Seq<SessionProgress>,
    turns: Seq<SessionTurn>,
    tables: Seq<Seq<SpotifyUser>>,
)
    requires
        session_run(config, tokens, profiles, sign, ats, turns, tables),
        ats[0] == SessionProgress::Start(Some(params)),
    ensures
        match tokens(code_trade(config, params.code@)) {
            Err(message) => tables.last() == tables[0] && session_refused(
                turns.last(),
                500,
                message@,
            ),
            Ok(BodyOutcome::Unread(message)) => tables.last() == tables[0] && session_refused(
                turns.last(),
                500,
                message@,
            ),
            Ok(BodyOutcome::Unparsed(message)) => tables.last() == tables[0] && session_refused(
                turns.last(),
                500,
                message@,
            ),
            Ok(BodyOutcome::Parsed(token)) => match profiles(profile_lookup(token.access_token@)) {
                Err(message) => tables.last() == tables[0] && session_refused(
                    turns.last(),
                    500,
                    message@,
                ),
                Ok(BodyOutcome::Unread(message)) => tables.last() == tables[0] && session_refused(
                    turns.last(),
                    500,
                    message@,
                ),
                Ok(BodyOutcome::Unparsed(message)) => tables.last() == tables[0] && session_refused(
                    turns.last(),
                    500,
                    message@,
                ),
                Ok(BodyOutcome::Parsed(profile)) => exists|user: SpotifyUser| #[trigger]
                    session_concluded(
                        token,
                        profile,
                        sign,
                        tables[0],
                        user,
                        tables.last(),
                        turns.last(),
                    ),
            },
        },
{
    assert(session_step(config, ats[0], turns[0]));
    assert(session_goes_on(tokens, profiles, sign, turns[0], tables[0], ats[1], tables[1]));
    let trade = code_trade(config, params.code@);
    assert(turns[0]->FetchToken_0@ =~= trade);
    assert(session_step(config, ats[1], turns[1]));
    match tokens(trade) {
        Ok(BodyOutcome::Parsed(token)) => {
            assert(session_goes_on(tokens, profiles, sign, turns[1], tables[1], ats[2], tables[2]));
            let lookup = profile_lookup(token.access_token@);
            assert(turns[1]->FetchProfile_1@ =~= lookup);
            assert(session_step(config, ats[2], turns[2]));
            match profiles(lookup) {
                Ok(BodyOutcome::Parsed(profile)) => {
                    lemma_user_concludes_session(
                        config,
                        token,
                        profile,
                        tokens,
                        profiles,
                        sign,
                        ats,
                        turns,
                        tables,
                    );
                },
                _ => {
                    if turns.len() > 3 {
                        assert(session_goes_on(
                            tokens,
                            profiles,
                            sign,
                            turns[2],
                            tables[2],
                            ats[3],
                            tables[3],
                        ));
                    }
                },
            }
        },
        _ => {
            if turns.len() > 2 {
                assert(session_goes_on(
                    tokens,
                    profiles,
                    sign,
                    turns[1],
                    tables[1],
                    ats[2],
                    tables[2],
                ));
            }
        },
    }
}

/// Two requests for an access token are the same if and only if the code that the user comes back
/// with, the redirect address of the service and its credentials are the same. Nothing else that the
/// user comes back with counts.
pub proof fn law_code_alone_is_traded(
    config1: ClientConfig,
    params1: AccessTokenParams,
    turn1: SessionTurn,
    config2: ClientConfig,
    params2: AccessTokenParams,
    turn2: SessionTurn,
)
    requires
        session_step(config1, SessionProgress::Start(Some(params1)), turn1),
        session_step(config2, SessionProgress::Start(Some(params2)), turn2),
    ensures
        turn1 matches SessionTurn::FetchToken(request1) && turn2 matches SessionTurn::FetchToken(
            request2,
        ) && (request1@ == request2@ <==> {
            &&& params1.code@ == params2.code@
            &&& config1.redirect_uri@ == config2.redirect_uri@
            &&& config1.client_id@ + ":"@ + config1.client_secret@ == config2.client_id@ + ":"@
                + config2.client_secret@
        }),
{
    let request1 = turn1->FetchToken_0@;
    let request2 = turn2->FetchToken_0@;
    assert(request1.form[1] == ("code"@, params1.code@));
    assert(request2.form[1] == ("code"@, params2.code@));
    assert(request1.form[2] == ("redirect_uri"@, config1.redirect_uri@));
    assert(request2.form[2] == ("redirect_uri"@, config2.redirect_uri@));
    if request1 == request2 {
        lemma_same_credentials(config1, config2);
    }
}

/// The same authorization comes from the same credentials, joined by a colon.
proof fn lemma_same_credentials(config1: ClientConfig, config2: ClientConfig)
    requires
        client_authorization(config1) == client_authorization(config2),
    ensures
        config1.client_id@ + ":"@ + config1.client_secret@ == config2.client_id@ + ":"@
            + config2.client_secret@,
{
    let plain1 = config1.client_id@ + ":"@ + config1.client_secret@;
    let plain2 = config2.client_id@ + ":"@ + config2.client_secret@;
    let text1 = base64_text(encode_utf8(plain1));
    let text2 = base64_text(encode_utf8(plain2));
    let start = "Basic "@.len() as int;
    assert(text1 =~= ("Basic "@ + text1).skip(start));
    assert(text2 =~= ("Basic "@ + text2).skip(start));
    law_base64_injective(encode_utf8(plain1), encode_utf8(plain2));
    vstd::utf8::encode_utf8_decode_utf8(plain1);
    vstd::utf8::encode_utf8_decode_utf8(plain2);
}

/// A request for a session without parameters is refused with 400, and a failure of the database or
/// of the signature is passed on.
pub proof fn law_session_failures_are_passed_on(
    config: ClientConfig,
    at: SessionProgress,
    turn: SessionTurn,
)
    requires
        session_step(config, at, turn),
    ensures
        at matches SessionProgress::Start(None) ==> session_refused(turn, 400, "invalid request"@),
        at matches SessionProgress::UserAnswered(
            _,
            _,
            _,
            Reply::Selected(Err(DbError::Query(message))),
        ) ==> session_refused(turn, 500, message@),
        at matches SessionProgress::UserAnswered(
            _,
            _,
            _,
            Reply::Inserted(Err(DbError::Query(message))),
        ) ==> session_refused(turn, 500, message@),
        at matches SessionProgress::Signed(_, Err(e)) ==> session_refused(
            turn,
            e.status,
            e.message@,
        ),
{
}

/// A refresh token is traded for an access token in the name of the service, and the answer is what
/// Spotify gives for it, or its message with status 500.
pub proof fn law_refreshed_token_is_of_refresh_token(
    config: ClientConfig,
    payload: RefreshTokenRequest,
    asked: RefreshTurn,
    tokens: spec_fn(HttpRequestView) -> Result<
        BodyOutcome<SpotifyRefreshedAccessTokenResponse>,
        String,
    >,
    end: RefreshTurn,
)
    requires
        refresh_step(config, RefreshProgress::Start(payload), asked),
        asked matches RefreshTurn::Fetch(request) ==> refresh_step(
            config,
            RefreshProgress::Answered(tokens(request@)),
            end,
        ),
    ensures
        match tokens(
            HttpRequestView {
                method: Method::Post,
                url: "https://accounts.spotify.com/api/token"@,
                authorization: client_authorization(config),
                form: seq![
                    ("grant_type"@, "refresh_token"@),
                    ("refresh_token"@, payload.refresh_token@),
                ],
            },
        ) {
            Err(message) => end == RefreshTurn::Respond(ServerResponse::Refusal(500, message)),
            Ok(BodyOutcome::Unread(message)) => end == RefreshTurn::Respond(
                ServerResponse::Refusal(500, message),
            ),
            Ok(BodyOutcome::Unparsed(message)) => end == RefreshTurn::Respond(
                ServerResponse::Refusal(500, message),
            ),
            Ok(BodyOutcome::Parsed(token)) => end == RefreshTurn::Respond(
                ServerResponse::Data(token),
            ),
        },
{
    assert(asked->Fetch_0@ =~= HttpRequestView {
        method: Method::Post,
        url: "https://accounts.spotify.com/api/token"@,
        authorization: client_authorization(config),
        form: seq![
            ("grant_type"@, "refresh_token"@),
            ("refresh_token"@, payload.refresh_token@),
        ],
    });
}

/// Whatever its stage, the pursuit of a row ends with the first failure and with the first row that
/// is found, as they are; and a row that is not there once it was added is an error.
pub proof fn law_pursuit_passes_on<T>(stage: Stage, row: T, e: DbError)
    ensures
        decision(Progress::After(stage, Reply::<T>::Selected(Ok(Some(row))))) == Decision::<T>::Finish(
            Ok(row),
        ),
        decision(Progress::After(stage, Reply::<T>::Selected(Err(e)))) == Decision::<T>::Finish(Err(e)),
        decision(Progress::After(stage, Reply::<T>::Inserted(Err(e)))) == Decision::<T>::Finish(Err(e)),
        decision(Progress::After(Stage::FindAgain, Reply::<T>::Selected(Ok(None)))) == Decision::<
            T,
        >::Finish(Err(DbError::RowNotFound)),
{
}

} // verus!
