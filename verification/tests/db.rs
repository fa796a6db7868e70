use listening_rooms::db::{
    add_room, create_user, find_or_create, get_room, get_room_with_name_and_user,
    get_rooms_by_user, get_user, insert_room, insert_user, DbError, Decision, Param, Progress,
    Reply, Room, SpotifyUser, Stage, Statement, Timestamp, Turn,
};
use listening_rooms::ids::Uuid;
use listening_rooms::spotify::SpotifyUserProfile;

fn profile() -> SpotifyUserProfile {
    SpotifyUserProfile {
        country: "PL".to_string(),
        display_name: "Ola".to_string(),
        email: "ola@example.com".to_string(),
        id: "ola-1".to_string(),
    }
}

fn user(n: u128) -> SpotifyUser {
    SpotifyUser {
        id: Some(Uuid { bits: n }),
        spotify_user_id: "ola-1".to_string(),
        display_name: "Ola".to_string(),
        created_at: Timestamp { micros: 5 },
    }
}

fn room() -> Room {
    Room { id: None, owner: Uuid { bits: 7 }, name: "loud".to_string(), created_at: None }
}

fn texts(statement: &Statement) -> Vec<String> {
    statement
        .params
        .iter()
        .map(|param| match param {
            Param::Text(text) => text.clone(),
            Param::Id(id) => id.to_text(),
        })
        .collect()
}

const SEVEN: &str = "00000000-0000-0000-0000-000000000007";

#[test]
fn statements_on_users() {
    let select = get_user("ola-1");
    assert_eq!(select.sql, "SELECT * FROM spotify_user WHERE spotify_user_id = $1");
    assert_eq!(texts(&select), vec!["ola-1"]);
    let insert = insert_user("ola-1", "Ola");
    assert_eq!(
        insert.sql,
        "INSERT INTO spotify_user(spotify_user_id, display_name) VALUES ($1, $2)"
    );
    assert_eq!(texts(&insert), vec!["ola-1", "Ola"]);
}

#[test]
fn statements_on_rooms() {
    let id = Uuid { bits: 7 };
    let by_id = get_room(&id);
    assert_eq!(by_id.sql, "SELECT * FROM room WHERE id = $1");
    assert_eq!(texts(&by_id), vec![SEVEN]);
    let by_name = get_room_with_name_and_user(&id, "loud");
    assert_eq!(by_name.sql, "SELECT * FROM room WHERE owner = $1 AND name = $2");
    assert_eq!(texts(&by_name), vec![SEVEN, "loud"]);
    let by_owner = get_rooms_by_user(&id);
    assert_eq!(by_owner.sql, "SELECT * FROM room WHERE owner = $1");
    assert_eq!(texts(&by_owner), vec![SEVEN]);
    let insert = insert_room(&room());
    assert_eq!(insert.sql, "INSERT INTO room(name, owner) VALUES ($1, $2)");
    assert_eq!(texts(&insert), vec!["loud", SEVEN]);
}

#[test]
fn known_user_is_given_back() {
    match create_user(&profile(), Progress::Start) {
        Turn::Ask(Stage::Find, statement) => {
            assert_eq!(statement.sql, "SELECT * FROM spotify_user WHERE spotify_user_id = $1");
            assert_eq!(texts(&statement), vec!["ola-1"]);
        }
        _ => panic!("not looked for"),
    }
    let found = Progress::After(Stage::Find, Reply::Selected(Ok(Some(user(3)))));
    match create_user(&profile(), found) {
        Turn::Finish(Ok(user)) => assert_eq!(user.id, Some(Uuid { bits: 3 })),
        _ => panic!("not given back"),
    }
}

#[test]
fn unknown_user_is_added_and_looked_for_again() {
    let missing = Progress::After(Stage::Find, Reply::Selected(Ok(None)));
    match create_user(&profile(), missing) {
        Turn::Ask(Stage::Insert, statement) => {
            assert_eq!(
                statement.sql,
                "INSERT INTO spotify_user(spotify_user_id, display_name) VALUES ($1, $2)"
            );
            assert_eq!(texts(&statement), vec!["ola-1", "Ola"]);
        }
        _ => panic!("not added"),
    }
    let added = Progress::After(Stage::Insert, Reply::Inserted(Ok(())));
    match create_user(&profile(), added) {
        Turn::Ask(Stage::FindAgain, statement) => assert_eq!(texts(&statement), vec!["ola-1"]),
        _ => panic!("not looked for again"),
    }
    let found = Progress::After(Stage::FindAgain, Reply::Selected(Ok(Some(user(4)))));
    match create_user(&profile(), found) {
        Turn::Finish(Ok(user)) => assert_eq!(user.id, Some(Uuid { bits: 4 })),
        _ => panic!("not given back"),
    }
}

fn failure(at: Progress<SpotifyUser>) -> String {
    match create_user(&profile(), at) {
        Turn::Finish(Err(e)) => e.msg(),
        _ => panic!("no failure"),
    }
}

#[test]
fn first_failure_ends_the_pursuit() {
    let down = || DbError::Query("down".to_string());
    assert_eq!(failure(Progress::After(Stage::Find, Reply::Selected(Err(down())))), "down");
    assert_eq!(failure(Progress::After(Stage::Insert, Reply::Inserted(Err(down())))), "down");
    assert_eq!(failure(Progress::After(Stage::FindAgain, Reply::Selected(Err(down())))), "down");
    assert_eq!(
        failure(Progress::After(Stage::FindAgain, Reply::Selected(Ok(None)))),
        "no rows returned by a query that expected to return at least one row"
    );
}

#[test]
fn errors_of_the_database_give_their_message() {
    assert_eq!(DbError::InvalidId("no id".to_string()).msg(), "no id");
    assert_eq!(
        DbError::RowNotFound.msg(),
        "no rows returned by a query that expected to return at least one row"
    );
}

#[test]
fn room_is_pursued_by_owner_and_name() {
    match add_room(&room(), Progress::Start) {
        Turn::Ask(Stage::Find, statement) => assert_eq!(texts(&statement), vec![SEVEN, "loud"]),
        _ => panic!("not looked for"),
    }
    match add_room(&room(), Progress::After(Stage::Find, Reply::Selected(Ok(None)))) {
        Turn::Ask(Stage::Insert, statement) => assert_eq!(texts(&statement), vec!["loud", SEVEN]),
        _ => panic!("not added"),
    }
    match add_room(&room(), Progress::After(Stage::Insert, Reply::Inserted(Ok(())))) {
        Turn::Ask(Stage::FindAgain, statement) => {
            assert_eq!(texts(&statement), vec![SEVEN, "loud"])
        }
        _ => panic!("not looked for again"),
    }
    let found = Progress::After(Stage::FindAgain, Reply::Selected(Ok(Some(room()))));
    assert!(matches!(add_room(&room(), found), Turn::Finish(Ok(_))));
}

/// A table of numbers that are found or added.
fn pursue(rows: &mut Vec<u32>, wanted: u32) -> (u32, usize) {
    let mut asked = 0;
    let mut at = Progress::Start;
    loop {
        at = match find_or_create(at) {
            Decision::Finish(r) => return (r.ok().unwrap(), asked),
            Decision::Ask(Stage::Insert) => {
                rows.push(wanted);
                Progress::After(Stage::Insert, Reply::Inserted(Ok(())))
            }
            Decision::Ask(stage) => {
                let found = rows.iter().copied().find(|row| *row == wanted);
                Progress::After(stage, Reply::Selected(Ok(found)))
            }
        };
        asked += 1;
    }
}

#[test]
fn pursuing_twice_adds_one_row() {
    let mut rows = vec![1, 2];
    assert_eq!(pursue(&mut rows, 3), (3, 3));
    assert_eq!(pursue(&mut rows, 3), (3, 1));
    assert_eq!(pursue(&mut rows, 1), (1, 1));
    assert_eq!(rows, vec![1, 2, 3]);
}
