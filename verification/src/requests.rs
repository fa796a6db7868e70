//! Requests about rooms: adding one, listing them, looking one up, and entering one.

use vstd::pervasive::unreached;
use vstd::prelude::*;

use crate::db;
use crate::db::{
    add_room_row, decision, error_text, fits, law_pursuit_comes_to_outcome, pursued,
    pursuit_outcome, select_room, select_room_of_owner, select_rooms_of_owner, select_user,
    turn_of, DbError, Decision, Progress, Reply, Room, SpotifyUser, Stage, Statement, Turn,
};
use crate::ids::{parse_uuid, uuid_error_text, uuid_value, Uuid};
use crate::rooms;
use crate::rooms::{entered, ConnectedRooms, Rooms};
use crate::server::{refuses, ServerResponse, INTERNAL_SERVER_ERROR, NOT_FOUND, UNAUTHORIZED};

verus! {

/// What a session token says of its user. Adding and listing rooms read it as the text of the
/// identifier that the user has as an owner; entering a room looks the user up by it as by a Spotify
/// identifier.
#[derive(Debug)]
pub struct Claims {
    pub sub: String,
}

/// A request to add a room.
pub struct AddRoomRequest {
    pub room_name: String,
}

/// How far the adding of a room has come.
pub enum AddRoomProgress {
    Start(Claims, AddRoomRequest),
    Answered(Room, Stage, Reply<Room>),
}

/// What the adding of a room needs next from the database, or its end.
pub enum AddRoomTurn {
    Database(Room, Stage, Statement),
    Respond(ServerResponse<Room>),
}

/// Whether the database was asked for what it answered.
pub open spec fn add_room_fits(at: AddRoomProgress) -> bool {
    match at {
        AddRoomProgress::Start(_, _) => true,
        AddRoomProgress::Answered(_, stage, reply) => fits(Progress::After(stage, reply)),
    }
}

/// The turn that follows in the table of rooms.
pub open spec fn room_step(room: Room, at: Progress<Room>, turn: AddRoomTurn) -> bool {
    match decision(at) {
        Decision::Ask(_) => {
            &&& turn matches AddRoomTurn::Database(of, asked, statement)
            &&& of == room
            &&& turn_of(
                Turn::Ask(asked, statement),
                decision(at),
                select_room_of_owner(room.owner, room.name@),
                add_room_row(room.name@, room.owner),
            )
        },
        Decision::Finish(Ok(row)) => turn == AddRoomTurn::Respond(ServerResponse::Data(row)),
        Decision::Finish(Err(e)) => turn matches AddRoomTurn::Respond(response) && refuses(
            response,
            INTERNAL_SERVER_ERROR,
            error_text(e),
        ),
    }
}

/// The turn that follows: the user becomes the owner of a room of that name, unless their
/// identifier cannot be read.
pub open spec fn add_room_step(at: AddRoomProgress, turn: AddRoomTurn) -> bool {
    match at {
        AddRoomProgress::Start(claims, payload) => match uuid_value(claims.sub@) {
            None => turn matches AddRoomTurn::Respond(response) && refuses(
                response,
                INTERNAL_SERVER_ERROR,
                "error converting user id to uuid"@,
            ),
            Some(bits) => room_step(
                Room {
                    id: None,
                    owner: Uuid { bits },
                    name: payload.room_name,
                    created_at: None,
                },
                Progress::Start,
                turn,
            ),
        },
        AddRoomProgress::Answered(room, stage, reply) => room_step(
            room,
            Progress::After(stage, reply),
            turn,
        ),
    }
}

fn take_room_turn(room: Room, at: Progress<Room>) -> (turn: AddRoomTurn)
    requires
        fits(at),
    ensures
        room_step(room, at, turn),
{
    match db::add_room(&room, at) {
        Turn::Ask(stage, statement) => AddRoomTurn::Database(room, stage, statement),
        Turn::Finish(Ok(row)) => AddRoomTurn::Respond(ServerResponse::Data(row)),
        Turn::Finish(Err(e)) => AddRoomTurn::Respond(
            ServerResponse::Refusal(INTERNAL_SERVER_ERROR, e.msg()),
        ),
    }
}

/// Adds a room for the user of a session: the next turn.
pub fn add_room(at: AddRoomProgress) -> (turn: AddRoomTurn)
    requires
        add_room_fits(at),
    ensures
        add_room_step(at, turn),
{
    match at {
        AddRoomProgress::Start(claims, payload) => {
            let owner = match parse_uuid(claims.sub.as_str()) {
                Ok(id) => id,
                Err(_) => return AddRoomTurn::Respond(
                    ServerResponse::Refusal(
                        INTERNAL_SERVER_ERROR,
                        "error converting user id to uuid".to_owned(),
                    ),
                ),
            };
            let room = Room { id: None, owner, name: payload.room_name, created_at: None };
            take_room_turn(room, Progress::Start)
        },
        AddRoomProgress::Answered(room, stage, reply) => take_room_turn(
            room,
            Progress::After(stage, reply),
        ),
    }
}

/// Everything that the database answers while a room is added.
pub struct AddRoomReplies {
    /// The room that the table of rooms has.
    pub found: Result<Option<Room>, DbError>,
    /// Whether the room could be added.
    pub inserted: Result<(), DbError>,
    /// The room that the table of rooms has then.
    pub found_again: Result<Option<Room>, DbError>,
}

/// Where the adding of a room stands once a turn has got its reply from the database.
pub open spec fn add_room_reply(turn: AddRoomTurn, replies: AddRoomReplies) -> Option<
    AddRoomProgress,
> {
    match turn {
        AddRoomTurn::Database(room, stage, _) => Some(
            AddRoomProgress::Answered(
                room,
                stage,
                match stage {
                    Stage::Find => Reply::Selected(replies.found),
                    Stage::Insert => Reply::Inserted(replies.inserted),
                    Stage::FindAgain => Reply::Selected(replies.found_again),
                },
            ),
        ),
        AddRoomTurn::Respond(_) => None,
    }
}

/// Whether the adding of a room, from where it stands, may end with this response within some
/// turns.
pub open spec fn add_room_leads_to(
    at: AddRoomProgress,
    replies: AddRoomReplies,
    response: ServerResponse<Room>,
    turns: nat,
) -> bool
    decreases turns,
{
    turns > 0 && exists|turn: AddRoomTurn| #[trigger]
        add_room_step(at, turn) && match add_room_reply(turn, replies) {
            Some(next) => add_room_leads_to(next, replies, response, (turns - 1) as nat),
            None => turn == AddRoomTurn::Respond(response),
        }
}

/// What a request to add a room is answered: the row that the room has in the end, or the message
/// of the first failure with status 500.
pub open spec fn add_room_answered(
    claims: Claims,
    replies: AddRoomReplies,
    response: ServerResponse<Room>,
) -> bool {
    match uuid_value(claims.sub@) {
        None => refuses(
            response,
            INTERNAL_SERVER_ERROR,
            "error converting user id to uuid"@,
        ),
        Some(_) => row_answered(
            pursuit_outcome(replies.found, replies.inserted, replies.found_again),
            response,
        ),
    }
}

/// What the request is answered, once the table of rooms is settled.
pub open spec fn row_answered(
    outcome: Result<Room, DbError>,
    response: ServerResponse<Room>,
) -> bool {
    match outcome {
        Ok(row) => response == ServerResponse::Data(row),
        Err(e) => refuses(response, INTERNAL_SERVER_ERROR, error_text(e)),
    }
}

proof fn lemma_row_answered(
    room: Room,
    stage: Stage,
    reply: Reply<Room>,
    replies: AddRoomReplies,
    response: ServerResponse<Room>,
    turns: nat,
)
    requires
        fits(Progress::After(stage, reply)),
        add_room_leads_to(AddRoomProgress::Answered(room, stage, reply), replies, response, turns),
    ensures
        row_answered(
            pursued(
                Progress::After(stage, reply),
                replies.found,
                replies.inserted,
                replies.found_again,
            ),
            response,
        ),
    decreases turns,
{
    let at = AddRoomProgress::Answered(room, stage, reply);
    let turn = choose|turn: AddRoomTurn| #[trigger]
        add_room_step(at, turn) && match add_room_reply(turn, replies) {
            Some(next) => add_room_leads_to(next, replies, response, (turns - 1) as nat),
            None => turn == AddRoomTurn::Respond(response),
        };
    match add_room_reply(turn, replies) {
        Some(AddRoomProgress::Answered(of, asked, answer)) => {
            lemma_row_answered(of, asked, answer, replies, response, (turns - 1) as nat);
        },
        _ => {},
    }
}

/// The turns of the adding of a room, one after the other, end with what the request is to be
/// answered.
pub proof fn law_add_room_is_answered(
    claims: Claims,
    payload: AddRoomRequest,
    replies: AddRoomReplies,
    response: ServerResponse<Room>,
    turns: nat,
)
    requires
        add_room_leads_to(AddRoomProgress::Start(claims, payload), replies, response, turns),
    ensures
        add_room_answered(claims, replies, response),
{
    let at = AddRoomProgress::Start(claims, payload);
    let turn = choose|turn: AddRoomTurn| #[trigger]
        add_room_step(at, turn) && match add_room_reply(turn, replies) {
            Some(next) => add_room_leads_to(next, replies, response, (turns - 1) as nat),
            None => turn == AddRoomTurn::Respond(response),
        };
    law_pursuit_comes_to_outcome(replies.found, replies.inserted, replies.found_again);
    match add_room_reply(turn, replies) {
        Some(AddRoomProgress::Answered(of, asked, answer)) => {
            lemma_row_answered(of, asked, answer, replies, response, (turns - 1) as nat);
        },
        _ => {},
    }
}

/// How far the adding of a room has come, as a number.
pub open spec fn add_room_rank(at: AddRoomProgress) -> nat {
    match at {
        AddRoomProgress::Start(_, _) => 0,
        AddRoomProgress::Answered(_, Stage::Find, _) => 1,
        AddRoomProgress::Answered(_, Stage::Insert, _) => 2,
        AddRoomProgress::Answered(_, Stage::FindAgain, _) => 3,
    }
}

/// Every turn brings the adding of a room further, so that it ends with the fourth at the latest,
/// and every reply is one that the next turn can take.
pub proof fn law_add_room_ends(at: AddRoomProgress, turn: AddRoomTurn, replies: AddRoomReplies)
    requires
        add_room_fits(at),
        add_room_step(at, turn),
    ensures
        add_room_reply(turn, replies) matches Some(next) ==> add_room_rank(at) < add_room_rank(
            next,
        ) <= 3 && add_room_fits(next),
{
}

fn ask_room(room_id: &str) -> (asked: Result<Statement, DbError>)
    ensures
        match uuid_value(room_id@) {
            Some(bits) => asked matches Ok(statement) && statement@ == select_room(Uuid { bits }),
            None => asked matches Err(DbError::InvalidId(message)) && message@ == uuid_error_text(
                room_id@,
            ),
        },
{
    match parse_uuid(room_id) {
        Ok(id) => Ok(db::get_room(&id)),
        Err(e) => Err(DbError::InvalidId(e.message)),
    }
}

/// How far the listing of the rooms of a user has come.
pub enum RoomsProgress {
    Start(Claims),
    Answered(Result<Vec<Room>, DbError>),
}

/// What the listing of the rooms of a user needs next from the database, or its end.
pub enum RoomsTurn {
    Database(Statement),
    Respond(ServerResponse<Vec<Room>>),
}

/// The turn that follows: the rooms are asked for by their owner, unless the identifier of the user
/// cannot be read.
pub open spec fn rooms_step(at: RoomsProgress, turn: RoomsTurn) -> bool {
    match at {
        RoomsProgress::Start(claims) => match uuid_value(claims.sub@) {
            Some(bits) => turn matches RoomsTurn::Database(statement) && statement@
                == select_rooms_of_owner(Uuid { bits }),
            None => turn matches RoomsTurn::Respond(response) && refuses(
                response,
                INTERNAL_SERVER_ERROR,
                uuid_error_text(claims.sub@),
            ),
        },
        RoomsProgress::Answered(Ok(rooms)) => turn == RoomsTurn::Respond(
            ServerResponse::Data(rooms),
        ),
        RoomsProgress::Answered(Err(e)) => turn matches RoomsTurn::Respond(response) && refuses(
            response,
            INTERNAL_SERVER_ERROR,
            error_text(e),
        ),
    }
}

/// Lists the rooms of the user of a session: the next turn.
pub fn rooms_by_user(at: RoomsProgress) -> (turn: RoomsTurn)
    ensures
        rooms_step(at, turn),
{
    match at {
        RoomsProgress::Start(claims) => match parse_uuid(claims.sub.as_str()) {
            Ok(id) => RoomsTurn::Database(db::get_rooms_by_user(&id)),
            Err(e) => RoomsTurn::Respond(
                ServerResponse::Refusal(INTERNAL_SERVER_ERROR, e.message),
            ),
        },
        RoomsProgress::Answered(rooms) => match rooms {
            Ok(rooms) => RoomsTurn::Respond(ServerResponse::Data(rooms)),
            Err(e) => RoomsTurn::Respond(ServerResponse::Refusal(INTERNAL_SERVER_ERROR, e.msg())),
        },
    }
}

/// How far the lookup of a room has come.
pub enum RoomProgress {
    Start(String),
    Answered(Result<Option<Room>, DbError>),
}

/// What the lookup of a room needs next from the database, or its end.
pub enum RoomTurn {
    Database(Statement),
    Respond(ServerResponse<Room>),
}

/// The turn that follows: the room is asked for by its identifier, unless this cannot be read.
pub open spec fn lookup_step(at: RoomProgress, turn: RoomTurn) -> bool {
    match at {
        RoomProgress::Start(room_id) => match uuid_value(room_id@) {
            Some(bits) => turn matches RoomTurn::Database(statement) && statement@ == select_room(
                Uuid { bits },
            ),
            None => turn matches RoomTurn::Respond(response) && refuses(
                response,
                INTERNAL_SERVER_ERROR,
                uuid_error_text(room_id@),
            ),
        },
        RoomProgress::Answered(Ok(Some(room))) => turn == RoomTurn::Respond(
            ServerResponse::Data(room),
        ),
        RoomProgress::Answered(Ok(None)) => turn matches RoomTurn::Respond(response) && refuses(
            response,
            NOT_FOUND,
            "room not found"@,
        ),
        RoomProgress::Answered(Err(e)) => turn matches RoomTurn::Respond(response) && refuses(
            response,
            INTERNAL_SERVER_ERROR,
            error_text(e),
        ),
    }
}

/// Looks a room up: the next turn.
pub fn room_by_id(at: RoomProgress) -> (turn: RoomTurn)
    ensures
        lookup_step(at, turn),
{
    let room = match at {
        RoomProgress::Start(room_id) => match ask_room(room_id.as_str()) {
            Ok(statement) => return RoomTurn::Database(statement),
            Err(e) => Err(e),
        },
        RoomProgress::Answered(room) => room,
    };
    match room {
        Ok(Some(room)) => RoomTurn::Respond(ServerResponse::Data(room)),
        Ok(None) => RoomTurn::Respond(
            ServerResponse::Refusal(NOT_FOUND, "room not found".to_owned()),
        ),
        Err(e) => RoomTurn::Respond(ServerResponse::Refusal(INTERNAL_SERVER_ERROR, e.msg())),
    }
}

/// How far the entering of a room has come.
pub enum WsProgress {
    /// What the session token says, if it could be read.
    Start(Option<Claims>),
    UserAnswered(Result<Option<SpotifyUser>, DbError>),
    RoomAnswered(SpotifyUser, Result<Option<Room>, DbError>),
}

/// What the entering of a room needs next from the database, or its end: the user is refused with
/// a status, or let in.
pub enum WsTurn {
    FindUser(Statement),
    FindRoom(SpotifyUser, Statement),
    Refuse(u16),
    Upgrade(SpotifyUser),
}

/// Whether the entering of a room can go on: a session token that could be read speaks of a user
/// whom the database knows, if it answers.
pub open spec fn ws_fits(at: WsProgress) -> bool {
    !(at matches WsProgress::UserAnswered(Ok(None)))
}

/// The turn that follows: the session token must be readable, its user must be found, and the room
/// must exist.
pub open spec fn ws_step(room_id: Seq<char>, at: WsProgress, turn: WsTurn) -> bool {
    match at {
        WsProgress::Start(None) => turn == WsTurn::Refuse(UNAUTHORIZED),
        WsProgress::Start(Some(claims)) => turn matches WsTurn::FindUser(statement) && statement@
            == select_user(claims.sub@),
        WsProgress::UserAnswered(Err(_)) => turn == WsTurn::Refuse(INTERNAL_SERVER_ERROR),
        WsProgress::UserAnswered(Ok(None)) => true,
        WsProgress::UserAnswered(Ok(Some(user))) => match uuid_value(room_id) {
            Some(bits) => {
                &&& turn matches WsTurn::FindRoom(known, statement)
                &&& known == user
                &&& statement@ == select_room(Uuid { bits })
            },
            None => turn == WsTurn::Refuse(NOT_FOUND),
        },
        WsProgress::RoomAnswered(_, Err(_)) => turn == WsTurn::Refuse(NOT_FOUND),
        WsProgress::RoomAnswered(_, Ok(None)) => turn == WsTurn::Refuse(INTERNAL_SERVER_ERROR),
        WsProgress::RoomAnswered(user, Ok(Some(_))) => turn == WsTurn::Upgrade(user),
    }
}

/// Whether the user is let in next: the room exists.
pub open spec fn room_exists(at: WsProgress) -> bool {
    at matches WsProgress::RoomAnswered(_, Ok(Some(_)))
}

/// Whether the user is let in next.
pub fn lets_in(at: &WsProgress) -> (r: bool)
    ensures
        r == room_exists(*at),
{
    match at {
        WsProgress::RoomAnswered(_, Ok(Some(_))) => true,
        _ => false,
    }
}

/// Decides on a request of the user of a session to enter a room: the next turn. The room is not
/// entered yet.
pub fn ws_turn(room_id: &str, at: WsProgress) -> (turn: WsTurn)
    requires
        ws_fits(at),
    ensures
        ws_step(room_id@, at, turn),
        turn is Upgrade <==> room_exists(at),
{
    match at {
        WsProgress::Start(claims) => match claims {
            Some(claims) => WsTurn::FindUser(db::get_user(claims.sub.as_str())),
            None => WsTurn::Refuse(UNAUTHORIZED),
        },
        WsProgress::UserAnswered(user) => match user {
            Ok(Some(user)) => match ask_room(room_id) {
                Ok(statement) => WsTurn::FindRoom(user, statement),
                Err(_) => WsTurn::Refuse(NOT_FOUND),
            },
            Ok(None) => unreached(),
            Err(_) => WsTurn::Refuse(INTERNAL_SERVER_ERROR),
        },
        WsProgress::RoomAnswered(user, room) => match room {
            Ok(Some(_)) => WsTurn::Upgrade(user),
            Ok(None) => WsTurn::Refuse(INTERNAL_SERVER_ERROR),
            Err(_) => WsTurn::Refuse(NOT_FOUND),
        },
    }
}

/// The turn that follows, and what it makes of the rooms: a room is entered with the turn that lets
/// a user in.
pub open spec fn entry_step(
    before: Rooms,
    room_id: Seq<char>,
    at: WsProgress,
    turn: WsTurn,
    after: Rooms,
) -> bool {
    &&& ws_step(room_id, at, turn)
    &&& turn is Upgrade <==> room_exists(at)
    &&& turn is Upgrade ==> entered(before, room_id, after)
    &&& turn !is Upgrade ==> after == before
}

/// Lets the user of a session into a room: the next turn. The room is entered with the turn that
/// lets them in.
pub fn ws_handler(connected: &mut ConnectedRooms, room_id: &str, at: WsProgress) -> (turn: WsTurn)
    requires
        old(connected).wf(),
        ws_fits(at),
    ensures
        final(connected).wf(),
        entry_step(old(connected)@, room_id@, at, turn, final(connected)@),
{
    if lets_in(&at) {
        rooms::insert_pool(connected, room_id);
    }
    ws_turn(room_id, at)
}

/// Everything that comes from outside while a room is entered.
pub struct WsReplies {
    pub claims: Option<Claims>,
    pub user: Result<Option<SpotifyUser>, DbError>,
    pub room: Result<Option<Room>, DbError>,
}

/// Where the entering of a room stands once a turn has got its reply from the database.
pub open spec fn ws_reply(turn: WsTurn, replies: WsReplies) -> Option<WsProgress> {
    match turn {
        WsTurn::FindUser(_) => Some(WsProgress::UserAnswered(replies.user)),
        WsTurn::FindRoom(user, _) => Some(WsProgress::RoomAnswered(user, replies.room)),
        WsTurn::Refuse(_) => None,
        WsTurn::Upgrade(_) => None,
    }
}

/// Whether the entering of a room, from where it stands, may end with this turn within some turns.
pub open spec fn ws_leads_to(
    room_id: Seq<char>,
    at: WsProgress,
    replies: WsReplies,
    end: WsTurn,
    turns: nat,
) -> bool
    decreases turns,
{
    turns > 0 && exists|turn: WsTurn| #[trigger]
        ws_step(room_id, at, turn) && match ws_reply(turn, replies) {
            Some(next) => ws_leads_to(room_id, next, replies, end, (turns - 1) as nat),
            None => turn == end,
        }
}

/// How a request to enter a room ends: the user is let in if and only if the session token could
/// be read, its user was found, and the room exists. Else the request is refused: with 401 for the
/// token; with 500 for the user; with 404 for a room that could not be asked for, and with 500 for
/// one that does not exist.
pub open spec fn ws_ended(room_id: Seq<char>, replies: WsReplies, end: WsTurn) -> bool {
    match (replies.claims, replies.user) {
        (None, _) => end == WsTurn::Refuse(UNAUTHORIZED),
        (Some(_), Err(_)) => end == WsTurn::Refuse(INTERNAL_SERVER_ERROR),
        (Some(_), Ok(None)) => true,
        (Some(_), Ok(Some(user))) => end == match (uuid_value(room_id), replies.room) {
            (None, _) => WsTurn::Refuse(NOT_FOUND),
            (Some(_), Err(_)) => WsTurn::Refuse(NOT_FOUND),
            (Some(_), Ok(None)) => WsTurn::Refuse(INTERNAL_SERVER_ERROR),
            (Some(_), Ok(Some(_))) => WsTurn::Upgrade(user),
        },
    }
}

/// How far the entering of a room has come, as a number.
pub open spec fn ws_rank(at: WsProgress) -> nat {
    match at {
        WsProgress::Start(_) => 0,
        WsProgress::UserAnswered(_) => 1,
        WsProgress::RoomAnswered(_, _) => 2,
    }
}

/// Every turn brings the entering of a room further, so that it ends with the third at the latest.
pub proof fn law_entering_ends(
    room_id: Seq<char>,
    at: WsProgress,
    turn: WsTurn,
    replies: WsReplies,
)
    requires
        ws_fits(at),
        ws_step(room_id, at, turn),
    ensures
        ws_reply(turn, replies) matches Some(next) ==> ws_rank(at) < ws_rank(next) <= 2,
{
}

/// The turns of the entering of a room, one after the other, end as the request is to end.
pub proof fn law_entering_is_answered(
    room_id: Seq<char>,
    replies: WsReplies,
    end: WsTurn,
    turns: nat,
)
    requires
        ws_leads_to(room_id, WsProgress::Start(replies.claims), replies, end, turns),
    ensures
        ws_ended(room_id, replies, end),
{
    reveal_with_fuel(ws_leads_to, 4);
}

} // verus!
