//! What is asked of the database, and what its answers mean.

use vstd::prelude::*;

use crate::ids::Uuid;
use crate::spotify::SpotifyUserProfile;

pub use crate::ids::parse_uuid;

verus! {

/// A moment, in microseconds since the start of 1970 in UTC.
#[derive(Clone, Copy, Debug, PartialEq, Eq, Structural)]
pub struct Timestamp {
    pub micros: i64,
}

/// A row of the table of users.
#[derive(Debug)]
pub struct SpotifyUser {
    pub id: Option<Uuid>,
    pub spotify_user_id: String,
    pub display_name: String,
    pub created_at: Timestamp,
}

impl Clone for SpotifyUser {
    fn clone(&self) -> (copy: Self)
        ensures
            copy == *self,
    {
        SpotifyUser {
            id: self.id,
            spotify_user_id: self.spotify_user_id.clone(),
            display_name: self.display_name.clone(),
            created_at: self.created_at,
        }
    }
}

/// A row of the table of rooms. The database gives it its identifier and its date.
#[derive(Debug)]
pub struct Room {
    pub id: Option<Uuid>,
    pub owner: Uuid,
    pub name: String,
    pub created_at: Option<Timestamp>,
}

/// Why the database gave no answer.
pub enum DbError {
    /// A row that had to be there is not.
    RowNotFound,
    /// The statement failed, with this message.
    Query(String),
    /// A text is no identifier of a row, with this message.
    InvalidId(String),
}

/// The message of an error.
pub open spec fn error_text(e: DbError) -> Seq<char> {
    match e {
        DbError::RowNotFound =>
            "no rows returned by a query that expected to return at least one row"@,
        DbError::Query(message) => message@,
        DbError::InvalidId(message) => message@,
    }
}

/// Calls `to_string` on `sqlx::Error::RowNotFound`.
///
/// Trusted: the text is the one that sqlx gives for that error.
#[verifier::external_body]
fn row_not_found_text() -> (text: String)
    ensures
        text@ == "no rows returned by a query that expected to return at least one row"@,
{
    sqlx::Error::RowNotFound.to_string()
}

impl DbError {
    /// What went wrong.
    pub fn msg(self) -> (message: String)
        ensures
            message@ == error_text(self),
    {
        match self {
            DbError::RowNotFound => row_not_found_text(),
            DbError::Query(message) => message,
            DbError::InvalidId(message) => message,
        }
    }
}

/// A value bound to a place of a statement.
#[derive(Debug)]
pub enum Param {
    Text(String),
    Id(Uuid),
}

/// A statement and the values of its places, in order.
#[derive(Debug)]
pub struct Statement {
    pub sql: &'static str,
    pub params: Vec<Param>,
}

pub enum ParamView {
    Text(Seq<char>),
    Id(Uuid),
}

impl View for Param {
    type V = ParamView;

    open spec fn view(&self) -> ParamView {
        match *self {
            Param::Text(text) => ParamView::Text(text@),
            Param::Id(id) => ParamView::Id(id),
        }
    }
}

/// A statement as texts.
#[verifier::ext_equal]
pub struct StatementView {
    pub sql: Seq<char>,
    pub params: Seq<ParamView>,
}

impl View for Statement {
    type V = StatementView;

    open spec fn view(&self) -> StatementView {
        StatementView { sql: self.sql@, params: self.params@.map_values(|param: Param| param@) }
    }
}

pub const SELECT_USER: &'static str = "SELECT * FROM spotify_user WHERE spotify_user_id = $1";

pub const INSERT_USER: &'static str =
    "INSERT INTO spotify_user(spotify_user_id, display_name) VALUES ($1, $2)";

pub const SELECT_ROOM: &'static str = "SELECT * FROM room WHERE id = $1";

pub const SELECT_ROOM_OF_OWNER: &'static str =
    "SELECT * FROM room WHERE owner = $1 AND name = $2";

pub const SELECT_ROOMS_OF_OWNER: &'static str = "SELECT * FROM room WHERE owner = $1";

pub const INSERT_ROOM: &'static str = "INSERT INTO room(name, owner) VALUES ($1, $2)";

/// The statement that selects the user with a Spotify identifier.
pub open spec fn select_user(spotify_user_id: Seq<char>) -> StatementView {
    StatementView { sql: SELECT_USER@, params: seq![ParamView::Text(spotify_user_id)] }
}

/// The statement that adds a user.
pub open spec fn add_user(spotify_user_id: Seq<char>, display_name: Seq<char>) -> StatementView {
    StatementView {
        sql: INSERT_USER@,
        params: seq![ParamView::Text(spotify_user_id), ParamView::Text(display_name)],
    }
}

/// The statement that selects the room with an identifier.
pub open spec fn select_room(room_id: Uuid) -> StatementView {
    StatementView { sql: SELECT_ROOM@, params: seq![ParamView::Id(room_id)] }
}

/// The statement that selects the room that an owner gave a name.
pub open spec fn select_room_of_owner(owner: Uuid, name: Seq<char>) -> StatementView {
    StatementView {
        sql: SELECT_ROOM_OF_OWNER@,
        params: seq![ParamView::Id(owner), ParamView::Text(name)],
    }
}

/// The statement that selects all rooms of an owner.
pub open spec fn select_rooms_of_owner(owner: Uuid) -> StatementView {
    StatementView { sql: SELECT_ROOMS_OF_OWNER@, params: seq![ParamView::Id(owner)] }
}

/// The statement that adds a room.
pub open spec fn add_room_row(name: Seq<char>, owner: Uuid) -> StatementView {
    StatementView { sql: INSERT_ROOM@, params: seq![ParamView::Text(name), ParamView::Id(owner)] }
}

/// Asks for the user with a Spotify identifier.
pub fn get_user(spotify_user_id: &str) -> (statement: Statement)
    ensures
        statement@ == select_user(spotify_user_id@),
{
    let mut params: Vec<Param> = Vec::new();
    params.push(Param::Text(spotify_user_id.to_owned()));
    Statement { sql: SELECT_USER, params }
}

/// Asks to add a user.
pub fn insert_user(spotify_user_id: &str, display_name: &str) -> (statement: Statement)
    ensures
        statement@ == add_user(spotify_user_id@, display_name@),
{
    let mut params: Vec<Param> = Vec::new();
    params.push(Param::Text(spotify_user_id.to_owned()));
    params.push(Param::Text(display_name.to_owned()));
    Statement { sql: INSERT_USER, params }
}

/// Asks for the room with an identifier.
pub fn get_room(room_id: &Uuid) -> (statement: Statement)
    ensures
        statement@ == select_room(*room_id),
{
    let mut params: Vec<Param> = Vec::new();
    params.push(Param::Id(*room_id));
    Statement { sql: SELECT_ROOM, params }
}

/// Asks for the room that an owner gave a name.
pub fn get_room_with_name_and_user(user_id: &Uuid, room_name: &str) -> (statement: Statement)
    ensures
        statement@ == select_room_of_owner(*user_id, room_name@),
{
    let mut params: Vec<Param> = Vec::new();
    params.push(Param::Id(*user_id));
    params.push(Param::Text(room_name.to_owned()));
    Statement { sql: SELECT_ROOM_OF_OWNER, params }
}

/// Asks for all rooms of an owner.
pub fn get_rooms_by_user(user_id: &Uuid) -> (statement: Statement)
    ensures
        statement@ == select_rooms_of_owner(*user_id),
{
    let mut params: Vec<Param> = Vec::new();
    params.push(Param::Id(*user_id));
    Statement { sql: SELECT_ROOMS_OF_OWNER, params }
}

/// Asks to add a room.
pub fn insert_room(room: &Room) -> (statement: Statement)
    ensures
        statement@ == add_room_row(room.name@, room.owner),
{
    let mut params: Vec<Param> = Vec::new();
    params.push(Param::Text(room.name.clone()));
    params.push(Param::Id(room.owner));
    Statement { sql: INSERT_ROOM, params }
}

/// What a row that must exist in the end is looked for and added by.
#[derive(Clone, Copy, Debug, PartialEq, Eq, Structural)]
pub enum Stage {
    /// The row is looked for.
    Find,
    /// The row is added.
    Insert,
    /// The added row is looked for.
    FindAgain,
}

/// The answer of the database at a stage.
pub enum Reply<T> {
    /// The row that a selection gave, if any.
    Selected(Result<Option<T>, DbError>),
    /// Whether an insertion went through.
    Inserted(Result<(), DbError>),
}

/// How far the row has been pursued.
pub enum Progress<T> {
    Start,
    After(Stage, Reply<T>),
}

/// What comes next: a statement to execute at a stage, or the end.
pub enum Turn<T> {
    Ask(Stage, Statement),
    Finish(Result<T, DbError>),
}

/// What comes next, without the statement.
pub enum Decision<T> {
    Ask(Stage),
    Finish(Result<T, DbError>),
}

/// Whether the answer is one to what was asked: an insertion selects nothing.
pub open spec fn fits<T>(at: Progress<T>) -> bool {
    match at {
        Progress::Start => true,
        Progress::After(stage, reply) => (stage is Insert) == (reply is Inserted),
    }
}

/// A row is looked for first. It is added only if it is not there, and then looked for again. The
/// first failure ends the pursuit, and so does a row that is not there after it was added.
pub open spec fn decision<T>(at: Progress<T>) -> Decision<T>
    recommends
        fits(at),
{
    match at {
        Progress::Start => Decision::Ask(Stage::Find),
        Progress::After(_, Reply::Selected(Err(e))) => Decision::Finish(Err(e)),
        Progress::After(_, Reply::Selected(Ok(Some(row)))) => Decision::Finish(Ok(row)),
        Progress::After(Stage::Find, Reply::Selected(Ok(None))) => Decision::Ask(Stage::Insert),
        Progress::After(_, Reply::Selected(Ok(None))) => Decision::Finish(
            Err(DbError::RowNotFound),
        ),
        Progress::After(_, Reply::Inserted(Err(e))) => Decision::Finish(Err(e)),
        Progress::After(_, Reply::Inserted(Ok(_))) => Decision::Ask(Stage::FindAgain),
    }
}

/// Decides what comes next for a row that must exist in the end.
pub fn find_or_create<T>(at: Progress<T>) -> (next: Decision<T>)
    requires
        fits(at),
    ensures
        next == decision(at),
{
    match at {
        Progress::Start => Decision::Ask(Stage::Find),
        Progress::After(stage, reply) => match reply {
            Reply::Selected(selected) => match selected {
                Ok(found) => match found {
                    Some(row) => Decision::Finish(Ok(row)),
                    None => match stage {
                        Stage::Find => Decision::Ask(Stage::Insert),
                        _ => Decision::Finish(Err(DbError::RowNotFound)),
                    },
                },
                Err(e) => Decision::Finish(Err(e)),
            },
            Reply::Inserted(inserted) => match inserted {
                Ok(_) => Decision::Ask(Stage::FindAgain),
                Err(e) => Decision::Finish(Err(e)),
            },
        },
    }
}

/// Whether a turn is what was decided, with the statement that belongs to the stage.
pub open spec fn turn_of<T>(
    turn: Turn<T>,
    next: Decision<T>,
    select: StatementView,
    insert: StatementView,
) -> bool {
    match next {
        Decision::Ask(stage) => {
            &&& turn matches Turn::Ask(asked, statement)
            &&& asked == stage
            &&& statement@ == (if stage is Insert {
                insert
            } else {
                select
            })
        },
        Decision::Finish(r) => turn == Turn::<T>::Finish(r),
    }
}

/// Gives the owner of a profile a row in the table of users, unless there is one: the next turn.
pub fn create_user(user: &SpotifyUserProfile, at: Progress<SpotifyUser>) -> (turn: Turn<
    SpotifyUser,
>)
    requires
        fits(at),
    ensures
        turn_of(turn, decision(at), select_user(user.id@), add_user(user.id@, user.display_name@)),
{
    match find_or_create(at) {
        Decision::Ask(stage) => {
            let statement = match stage {
                Stage::Insert => insert_user(user.id.as_str(), user.display_name.as_str()),
                _ => get_user(user.id.as_str()),
            };
            Turn::Ask(stage, statement)
        },
        Decision::Finish(r) => Turn::Finish(r),
    }
}

/// Gives a room a row in the table of rooms, unless its owner has one of that name: the next turn.
pub fn add_room(room: &Room, at: Progress<Room>) -> (turn: Turn<Room>)
    requires
        fits(at),
    ensures
        turn_of(
            turn,
            decision(at),
            select_room_of_owner(room.owner, room.name@),
            add_room_row(room.name@, room.owner),
        ),
{
    match find_or_create(at) {
        Decision::Ask(stage) => {
            let statement = match stage {
                Stage::Insert => insert_room(room),
                _ => get_room_with_name_and_user(&room.owner, room.name.as_str()),
            };
            Turn::Ask(stage, statement)
        },
        Decision::Finish(r) => Turn::Finish(r),
    }
}

/// How many statements have been executed.
pub open spec fn asked<T>(at: Progress<T>) -> nat {
    match at {
        Progress::Start => 0,
        Progress::After(Stage::Find, _) => 1,
        Progress::After(Stage::Insert, _) => 2,
        Progress::After(Stage::FindAgain, _) => 3,
    }
}

/// What the pursuit of a row comes to if the database answers `first` to the first selection,
/// `inserted` to the insertion and `second` to the second selection.
pub open spec fn pursued<T>(
    at: Progress<T>,
    first: Result<Option<T>, DbError>,
    inserted: Result<(), DbError>,
    second: Result<Option<T>, DbError>,
) -> Result<T, DbError>
    decreases 3 - asked(at),
    when fits(at)
{
    match decision(at) {
        Decision::Finish(r) => r,
        Decision::Ask(Stage::Find) => pursued(
            Progress::After(Stage::Find, Reply::Selected(first)),
            first,
            inserted,
            second,
        ),
        Decision::Ask(Stage::Insert) => pursued(
            Progress::After(Stage::Insert, Reply::Inserted(inserted)),
            first,
            inserted,
            second,
        ),
        Decision::Ask(Stage::FindAgain) => pursued(
            Progress::After(Stage::FindAgain, Reply::Selected(second)),
            first,
            inserted,
            second,
        ),
    }
}

/// What is to come of the pursuit of a row: the row that is there, else the row that is there
/// once it was added, else the first failure.
pub open spec fn pursuit_outcome<T>(
    first: Result<Option<T>, DbError>,
    inserted: Result<(), DbError>,
    second: Result<Option<T>, DbError>,
) -> Result<T, DbError> {
    match first {
        Err(e) => Err(e),
        Ok(Some(row)) => Ok(row),
        Ok(None) => match (inserted, second) {
            (Err(e), _) => Err(e),
            (Ok(_), Err(e)) => Err(e),
            (Ok(_), Ok(Some(row))) => Ok(row),
            (Ok(_), Ok(None)) => Err(DbError::RowNotFound),
        },
    }
}

/// The turns of a pursuit, one after the other, come to its outcome.
pub proof fn law_pursuit_comes_to_outcome<T>(
    first: Result<Option<T>, DbError>,
    inserted: Result<(), DbError>,
    second: Result<Option<T>, DbError>,
)
    ensures
        pursued(Progress::Start, first, inserted, second) == pursuit_outcome(
            first,
            inserted,
            second,
        ),
{
    reveal_with_fuel(pursued, 4);
}

/// No statement is asked for twice, so that three at most are executed.
pub proof fn law_pursuit_ends<T>(at: Progress<T>, reply: Reply<T>)
    requires
        fits(at),
    ensures
        decision(at) matches Decision::Ask(stage) ==> asked(Progress::After(stage, reply)) == asked(
            at,
        ) + 1,
{
}

/// Whether `found` may be the answer to a statement that selects one user, when the table of
/// users has these rows.
pub open spec fn answers_user(
    rows: Seq<SpotifyUser>,
    statement: StatementView,
    found: Option<SpotifyUser>,
) -> bool {
    &&& statement.sql == SELECT_USER@
    &&& match found {
        Some(user) => rows.contains(user) && ParamView::Text(user.spotify_user_id@)
            == statement.params[0],
        None => forall|i: int|
            0 <= i < rows.len() ==> ParamView::Text((#[trigger] rows[i]).spotify_user_id@)
                != statement.params[0],
    }
}

/// Whether a statement that adds a user may take the table of users from `before` to `after`: it
/// adds a row with the given columns.
pub open spec fn adds_user(
    before: Seq<SpotifyUser>,
    statement: StatementView,
    after: Seq<SpotifyUser>,
) -> bool {
    &&& statement.sql == INSERT_USER@
    &&& after.len() == before.len() + 1
    &&& after.drop_last() == before
    &&& ParamView::Text(after.last().spotify_user_id@) == statement.params[0]
    &&& ParamView::Text(after.last().display_name@) == statement.params[1]
}

/// Whether every Spotify identifier has at most one row.
pub open spec fn one_row_per_user(rows: Seq<SpotifyUser>) -> bool {
    forall|i: int, j: int|
        0 <= i < j < rows.len() ==> (#[trigger] rows[i]).spotify_user_id@ != (
        #[trigger] rows[j]).spotify_user_id@
}

/// A user who is in the table is given back and nothing is added. One who is not is added once,
/// under the identifier and the name of the profile, and given back then; every Spotify
/// identifier still has at most one row, and whoever looks the user up from then on finds that
/// row.
pub proof fn law_create_user_keeps_one_row(
    profile: SpotifyUserProfile,
    before: Seq<SpotifyUser>,
    first: Option<SpotifyUser>,
    after: Seq<SpotifyUser>,
    second: Option<SpotifyUser>,
    later: Option<SpotifyUser>,
)
    requires
        one_row_per_user(before),
        answers_user(before, select_user(profile.id@), first),
        first is None ==> adds_user(before, add_user(profile.id@, profile.display_name@), after),
        first is None ==> answers_user(after, select_user(profile.id@), second),
        first is None ==> answers_user(after, select_user(profile.id@), later),
    ensures
        first matches Some(user) ==> user.spotify_user_id@ == profile.id@ && decision(
            Progress::After(Stage::Find, Reply::Selected(Ok(first))),
        ) == Decision::Finish(Ok::<SpotifyUser, DbError>(user)),
        first is None ==> {
            &&& decision(Progress::After(Stage::Find, Reply::Selected(Ok(first))))
                == Decision::<SpotifyUser>::Ask(Stage::Insert)
            &&& one_row_per_user(after)
            &&& second matches Some(user)
            &&& user.spotify_user_id@ == profile.id@
            &&& user.display_name@ == profile.display_name@
            &&& decision(Progress::After(Stage::FindAgain, Reply::Selected(Ok(second))))
                == Decision::Finish(Ok::<SpotifyUser, DbError>(user))
            &&& later == second
        },
{
    if first is None {
        let n = before.len() as int;
        assert forall|i: int| 0 <= i < n implies #[trigger] after[i] == before[i] by {
            assert(after.drop_last()[i] == before[i]);
        }
        assert(after[n] == after.last());
        assert(after[n].spotify_user_id@ == profile.id@);
        assert forall|i: int| 0 <= i < n implies (#[trigger] after[i]).spotify_user_id@
            != profile.id@ by {
            assert(after[i] == before[i]);
        }
        assert forall|i: int, j: int| 0 <= i < j < after.len() implies (
        #[trigger] after[i]).spotify_user_id@ != (#[trigger] after[j]).spotify_user_id@ by {
            if j == n {
                assert(after[i] == before[i]);
            } else {
                assert(after[i] == before[i] && after[j] == before[j]);
            }
        }
        assert(second is Some && second->0 == after[n]);
        assert(later is Some && later->0 == after[n]);
    }
}

/// Whether `found` may be the answer to a statement that selects the room that an owner gave a
/// name, when the table of rooms has these rows.
pub open spec fn answers_room(
    rows: Seq<Room>,
    statement: StatementView,
    found: Option<Room>,
) -> bool {
    &&& statement.sql == SELECT_ROOM_OF_OWNER@
    &&& match found {
        Some(room) => rows.contains(room) && ParamView::Id(room.owner) == statement.params[0]
            && ParamView::Text(room.name@) == statement.params[1],
        None => forall|i: int|
            0 <= i < rows.len() ==> ParamView::Id((#[trigger] rows[i]).owner) != statement.params[0]
                || ParamView::Text(rows[i].name@) != statement.params[1],
    }
}

/// Whether a statement that adds a room may take the table of rooms from `before` to `after`: it
/// adds a row with the given columns.
pub open spec fn adds_room(before: Seq<Room>, statement: StatementView, after: Seq<Room>) -> bool {
    &&& statement.sql == INSERT_ROOM@
    &&& after.len() == before.len() + 1
    &&& after.drop_last() == before
    &&& ParamView::Text(after.last().name@) == statement.params[0]
    &&& ParamView::Id(after.last().owner) == statement.params[1]
}

/// Whether no owner has two rooms of the same name.
pub open spec fn one_row_per_room(rows: Seq<Room>) -> bool {
    forall|i: int, j: int|
        0 <= i < j < rows.len() ==> (#[trigger] rows[i]).owner != (#[trigger] rows[j]).owner
            || rows[i].name@ != rows[j].name@
}

/// A room of that name that its owner has is given back and nothing is added. One that they have
/// not is added once and given back then; no owner has two rooms of the same name still, and
/// whoever looks the room up from then on finds that row.
pub proof fn law_add_room_keeps_one_row(
    room: Room,
    before: Seq<Room>,
    first: Option<Room>,
    after: Seq<Room>,
    second: Option<Room>,
    later: Option<Room>,
)
    requires
        one_row_per_room(before),
        answers_room(before, select_room_of_owner(room.owner, room.name@), first),
        first is None ==> adds_room(before, add_room_row(room.name@, room.owner), after),
        first is None ==> answers_room(
            after,
            select_room_of_owner(room.owner, room.name@),
            second,
        ),
        first is None ==> answers_room(after, select_room_of_owner(room.owner, room.name@), later),
    ensures
        first matches Some(row) ==> row.owner == room.owner && row.name@ == room.name@ && decision(
            Progress::After(Stage::Find, Reply::Selected(Ok(first))),
        ) == Decision::Finish(Ok::<Room, DbError>(row)),
        first is None ==> {
            &&& decision(Progress::After(Stage::Find, Reply::Selected(Ok(first)))) == Decision::<
                Room,
            >::Ask(Stage::Insert)
            &&& one_row_per_room(after)
            &&& second matches Some(row)
            &&& row.owner == room.owner
            &&& row.name@ == room.name@
            &&& decision(Progress::After(Stage::FindAgain, Reply::Selected(Ok(second))))
                == Decision::Finish(Ok::<Room, DbError>(row))
            &&& later == second
        },
{
    if first is None {
        let n = before.len() as int;
        assert forall|i: int| 0 <= i < n implies #[trigger] after[i] == before[i] by {
            assert(after.drop_last()[i] == before[i]);
        }
        assert(after[n] == after.last());
        assert forall|i: int| 0 <= i < n implies (#[trigger] after[i]).owner != room.owner
            || after[i].name@ != room.name@ by {
            assert(after[i] == before[i]);
        }
        assert forall|i: int, j: int| 0 <= i < j < after.len() implies (#[trigger] after[i]).owner
            != (#[trigger] after[j]).owner || after[i].name@ != after[j].name@ by {
            if j == n {
                assert(after[i] == before[i]);
            } else {
                assert(after[i] == before[i] && after[j] == before[j]);
            }
        }
        assert(second is Some && second->0 == after[n]);
        assert(later is Some && later->0 == after[n]);
    }
}

/// The view of a statement tells everything about it.
pub proof fn law_statement_view_tells_all(a: Statement, b: Statement)
    requires
        a@ == b@,
    ensures
        a.sql@ == b.sql@,
        a.params.len() == b.params.len(),
        forall|i: int|
            0 <= i < a.params.len() ==> match (#[trigger] a.params[i], b.params[i]) {
                (Param::Text(text1), Param::Text(text2)) => text1@ == text2@,
                (Param::Id(id1), Param::Id(id2)) => id1.bits == id2.bits,
                _ => false,
            },
{
    assert(a@.params.len() == a.params.len() && b@.params.len() == b.params.len());
    assert forall|i: int| 0 <= i < a.params.len() implies match (
        #[trigger] a.params[i],
        b.params[i],
    ) {
        (Param::Text(text1), Param::Text(text2)) => text1@ == text2@,
        (Param::Id(id1), Param::Id(id2)) => id1.bits == id2.bits,
        _ => false,
    } by {
        assert(a@.params[i] == a.params[i]@ && b@.params[i] == b.params[i]@);
    }
}

} // verus!
