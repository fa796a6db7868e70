use listening_rooms::db::{DbError, Reply, Room, SpotifyUser, Stage, Timestamp};
use listening_rooms::ids::Uuid;
use listening_rooms::requests::{
    add_room, lets_in, room_by_id, rooms_by_user, ws_handler, ws_turn, AddRoomProgress,
    AddRoomRequest, AddRoomTurn, Claims, RoomProgress, RoomTurn, RoomsProgress, RoomsTurn,
    WsProgress, WsTurn,
};
use listening_rooms::rooms::ConnectedRooms;
use listening_rooms::server::{root, Body, ServerResponse};

const SEVEN: &str = "00000000-0000-0000-0000-000000000007";

fn claims(sub: &str) -> Claims {
    Claims { sub: sub.to_string() }
}

fn room(id: Option<u128>) -> Room {
    Room {
        id: id.map(|bits| Uuid { bits }),
        owner: Uuid { bits: 7 },
        name: "loud".to_string(),
        created_at: None,
    }
}

fn user() -> SpotifyUser {
    SpotifyUser {
        id: Some(Uuid { bits: 7 }),
        spotify_user_id: "ola-1".to_string(),
        display_name: "Ola".to_string(),
        created_at: Timestamp { micros: 0 },
    }
}

fn down() -> DbError {
    DbError::Query("down".to_string())
}

fn refusal<T>(response: ServerResponse<T>) -> (u16, String) {
    match response {
        ServerResponse::Refusal(status, message) => (status, message),
        ServerResponse::Data(_) => panic!("not refused"),
    }
}

#[test]
fn root_greets() {
    assert_eq!(root(), "Hello, World!");
}

#[test]
fn data_is_answered_with_200() {
    let answer = ServerResponse::Data(5).into_response();
    assert_eq!(answer.status, 200);
    assert!(matches!(answer.body, Body::Data(5)));
}

#[test]
fn refusal_is_answered_with_its_status_and_a_json_object() {
    let refused: ServerResponse<u8> = ServerResponse::Refusal(404, "room not found".to_string());
    let answer = refused.into_response();
    assert_eq!(answer.status, 404);
    match answer.body {
        Body::Json(text) => assert_eq!(text, "{\"error\":\"room not found\"}"),
        Body::Data(_) => panic!("data"),
    }
}

#[test]
fn message_of_a_refusal_is_escaped() {
    let message = "\"\\\u{8}\u{c}\n\r\t\u{1}\u{1f}\u{7f}/\u{e9}";
    let refused: ServerResponse<u8> = ServerResponse::Refusal(500, message.to_string());
    match refused.into_response().body {
        Body::Json(text) => assert_eq!(
            text,
            "{\"error\":\"\\\"\\\\\\b\\f\\n\\r\\t\\u0001\\u001f\u{7f}/\u{e9}\"}"
        ),
        Body::Data(_) => panic!("data"),
    }
}

#[test]
fn room_is_added_for_the_user() {
    let start = AddRoomProgress::Start(
        claims(SEVEN),
        AddRoomRequest { room_name: "loud".to_string() },
    );
    let wanted = match add_room(start) {
        AddRoomTurn::Database(wanted, Stage::Find, statement) => {
            assert_eq!(statement.sql, "SELECT * FROM room WHERE owner = $1 AND name = $2");
            wanted
        }
        _ => panic!("not looked for"),
    };
    assert_eq!(wanted.owner, Uuid { bits: 7 });
    assert_eq!(wanted.name, "loud");
    assert!(wanted.id.is_none() && wanted.created_at.is_none());
    let missing = AddRoomProgress::Answered(wanted, Stage::Find, Reply::Selected(Ok(None)));
    let wanted = match add_room(missing) {
        AddRoomTurn::Database(wanted, Stage::Insert, statement) => {
            assert_eq!(statement.sql, "INSERT INTO room(name, owner) VALUES ($1, $2)");
            wanted
        }
        _ => panic!("not added"),
    };
    let added = AddRoomProgress::Answered(wanted, Stage::Insert, Reply::Inserted(Ok(())));
    let wanted = match add_room(added) {
        AddRoomTurn::Database(wanted, Stage::FindAgain, _) => wanted,
        _ => panic!("not looked for again"),
    };
    let found = Reply::Selected(Ok(Some(room(Some(9)))));
    match add_room(AddRoomProgress::Answered(wanted, Stage::FindAgain, found)) {
        AddRoomTurn::Respond(ServerResponse::Data(row)) => {
            assert_eq!(row.id, Some(Uuid { bits: 9 }))
        }
        _ => panic!("not given back"),
    }
}

#[test]
fn room_of_an_unreadable_user_is_refused() {
    let start = AddRoomProgress::Start(
        claims("nobody"),
        AddRoomRequest { room_name: "loud".to_string() },
    );
    match add_room(start) {
        AddRoomTurn::Respond(response) => assert_eq!(
            refusal(response),
            (500, "error converting user id to uuid".to_string())
        ),
        _ => panic!("not refused"),
    }
}

#[test]
fn failure_of_the_database_refuses_the_room() {
    let failed = AddRoomProgress::Answered(room(None), Stage::Find, Reply::Selected(Err(down())));
    match add_room(failed) {
        AddRoomTurn::Respond(response) => assert_eq!(refusal(response), (500, "down".to_string())),
        _ => panic!("not refused"),
    }
}

#[test]
fn rooms_of_the_user_are_listed() {
    match rooms_by_user(RoomsProgress::Start(claims(SEVEN))) {
        RoomsTurn::Database(statement) => {
            assert_eq!(statement.sql, "SELECT * FROM room WHERE owner = $1");
            assert_eq!(statement.params.len(), 1);
        }
        _ => panic!("not asked"),
    }
    match rooms_by_user(RoomsProgress::Answered(Ok(vec![room(Some(1)), room(Some(2))]))) {
        RoomsTurn::Respond(ServerResponse::Data(rooms)) => assert_eq!(rooms.len(), 2),
        _ => panic!("not listed"),
    }
    match rooms_by_user(RoomsProgress::Answered(Err(down()))) {
        RoomsTurn::Respond(response) => assert_eq!(refusal(response), (500, "down".to_string())),
        _ => panic!("not refused"),
    }
    match rooms_by_user(RoomsProgress::Start(claims("nobody"))) {
        RoomsTurn::Respond(response) => assert_eq!(
            refusal(response),
            (500, "invalid character: found `n` at 0".to_string())
        ),
        _ => panic!("not refused"),
    }
}

#[test]
fn room_is_looked_up() {
    match room_by_id(RoomProgress::Start(SEVEN.to_string())) {
        RoomTurn::Database(statement) => {
            assert_eq!(statement.sql, "SELECT * FROM room WHERE id = $1")
        }
        _ => panic!("not asked"),
    }
    match room_by_id(RoomProgress::Answered(Ok(Some(room(Some(1)))))) {
        RoomTurn::Respond(ServerResponse::Data(row)) => {
            assert_eq!(row.id, Some(Uuid { bits: 1 }))
        }
        _ => panic!("not given back"),
    }
    match room_by_id(RoomProgress::Answered(Ok(None))) {
        RoomTurn::Respond(response) => {
            assert_eq!(refusal(response), (404, "room not found".to_string()))
        }
        _ => panic!("not refused"),
    }
    match room_by_id(RoomProgress::Answered(Err(down()))) {
        RoomTurn::Respond(response) => assert_eq!(refusal(response), (500, "down".to_string())),
        _ => panic!("not refused"),
    }
    match room_by_id(RoomProgress::Start("".to_string())) {
        RoomTurn::Respond(response) => {
            assert_eq!(refusal(response), (500, "invalid length: found 0".to_string()))
        }
        _ => panic!("not refused"),
    }
}

#[test]
fn user_is_let_into_an_existing_room() {
    let mut connected = ConnectedRooms::new();
    match ws_handler(&mut connected, SEVEN, WsProgress::Start(Some(claims("ola-1")))) {
        WsTurn::FindUser(statement) => assert_eq!(
            statement.sql,
            "SELECT * FROM spotify_user WHERE spotify_user_id = $1"
        ),
        _ => panic!("user not asked for"),
    }
    let known = match ws_handler(&mut connected, SEVEN, WsProgress::UserAnswered(Ok(Some(user()))))
    {
        WsTurn::FindRoom(known, statement) => {
            assert_eq!(statement.sql, "SELECT * FROM room WHERE id = $1");
            known
        }
        _ => panic!("room not asked for"),
    };
    assert!(!connected.contains(SEVEN));
    let found = WsProgress::RoomAnswered(known, Ok(Some(room(Some(7)))));
    match ws_handler(&mut connected, SEVEN, found) {
        WsTurn::Upgrade(user) => assert_eq!(user.display_name, "Ola"),
        _ => panic!("not let in"),
    }
    assert!(connected.contains(SEVEN));
}

fn refused(room_id: &str, at: WsProgress) -> u16 {
    let mut connected = ConnectedRooms::new();
    let turn = ws_handler(&mut connected, room_id, at);
    assert!(!connected.contains(room_id));
    match turn {
        WsTurn::Refuse(status) => status,
        _ => panic!("not refused"),
    }
}

#[test]
fn entering_is_refused() {
    assert_eq!(refused(SEVEN, WsProgress::Start(None)), 401);
    assert_eq!(refused(SEVEN, WsProgress::UserAnswered(Err(down()))), 500);
    assert_eq!(refused("nowhere", WsProgress::UserAnswered(Ok(Some(user())))), 404);
    assert_eq!(refused(SEVEN, WsProgress::RoomAnswered(user(), Err(down()))), 404);
    assert_eq!(refused(SEVEN, WsProgress::RoomAnswered(user(), Ok(None))), 500);
}

#[test]
fn deciding_on_an_entry_leaves_the_rooms_alone() {
    assert!(!lets_in(&WsProgress::Start(None)));
    assert!(!lets_in(&WsProgress::UserAnswered(Ok(Some(user())))));
    assert!(!lets_in(&WsProgress::RoomAnswered(user(), Ok(None))));
    assert!(!lets_in(&WsProgress::RoomAnswered(user(), Err(down()))));
    let found = WsProgress::RoomAnswered(user(), Ok(Some(room(Some(7)))));
    assert!(lets_in(&found));
    assert!(matches!(ws_turn(SEVEN, found), WsTurn::Upgrade(_)));
    assert!(matches!(ws_turn(SEVEN, WsProgress::Start(None)), WsTurn::Refuse(401)));
    let known = WsProgress::UserAnswered(Ok(Some(user())));
    assert!(matches!(ws_turn("nowhere", known), WsTurn::Refuse(404)));
}
