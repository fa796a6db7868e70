//! What the statements mean: which rows a selection gives, and which row an insertion adds.

use vstd::prelude::*;

use crate::db::{ParamView, Reply, Room, SpotifyUser, StatementView};

verus! {

/// Whether a statement selects users.
pub open spec fn is_user_selection(statement: StatementView) -> bool {
    statement.sql == "SELECT * FROM spotify_user WHERE spotify_user_id = $1"@
        && statement.params.len() == 1
}

/// Whether a selection of users gives a row.
pub open spec fn selects_user(statement: StatementView, user: SpotifyUser) -> bool {
    is_user_selection(statement) && statement.params[0] == ParamView::Text(user.spotify_user_id@)
}

/// Whether a statement adds a user in the form of this row.
pub open spec fn inserts_user(statement: StatementView, user: SpotifyUser) -> bool {
    &&& statement.sql == "INSERT INTO spotify_user(spotify_user_id, display_name) VALUES ($1, $2)"@
    &&& statement.params.len() == 2
    &&& statement.params[0] == ParamView::Text(user.spotify_user_id@)
    &&& statement.params[1] == ParamView::Text(user.display_name@)
}

/// Whether a statement selects rooms by their identifier.
pub open spec fn is_selection_by_id(statement: StatementView) -> bool {
    statement.sql == "SELECT * FROM room WHERE id = $1"@ && statement.params.len() == 1
}

/// Whether a statement selects rooms by their owner.
pub open spec fn is_selection_by_owner(statement: StatementView) -> bool {
    statement.sql == "SELECT * FROM room WHERE owner = $1"@ && statement.params.len() == 1
}

/// Whether a statement selects rooms by their owner and their name.
pub open spec fn is_selection_by_name(statement: StatementView) -> bool {
    statement.sql == "SELECT * FROM room WHERE owner = $1 AND name = $2"@ && statement.params.len()
        == 2
}

/// Whether a statement selects rooms.
pub open spec fn is_room_selection(statement: StatementView) -> bool {
    is_selection_by_id(statement) || is_selection_by_owner(statement) || is_selection_by_name(
        statement,
    )
}

/// Whether a selection of rooms gives a row.
pub open spec fn selects_room(statement: StatementView, room: Room) -> bool {
    ||| is_selection_by_id(statement) && (room.id matches Some(id) && statement.params[0]
        == ParamView::Id(id))
    ||| is_selection_by_owner(statement) && statement.params[0] == ParamView::Id(room.owner)
    ||| is_selection_by_name(statement) && statement.params[0] == ParamView::Id(room.owner)
        && statement.params[1] == ParamView::Text(room.name@)
}

/// Whether a statement adds a room in the form of this row.
pub open spec fn inserts_room(statement: StatementView, room: Room) -> bool {
    &&& statement.sql == "INSERT INTO room(name, owner) VALUES ($1, $2)"@
    &&& statement.params.len() == 2
    &&& statement.params[0] == ParamView::Text(room.name@)
    &&& statement.params[1] == ParamView::Id(room.owner)
}

/// Whether a selection of users may give `found`: one of the rows that it selects, or none if there
/// are none.
pub open spec fn user_selected(
    rows: Seq<SpotifyUser>,
    statement: StatementView,
    found: Option<SpotifyUser>,
) -> bool {
    &&& is_user_selection(statement)
    &&& match found {
        Some(user) => rows.contains(user) && selects_user(statement, user),
        None => forall|user: SpotifyUser|
            rows.contains(user) ==> !(#[trigger] selects_user(statement, user)),
    }
}

/// Whether a selection of rooms may give `found`: one of the rows that it selects, or none if there
/// are none.
pub open spec fn room_selected(
    rows: Seq<Room>,
    statement: StatementView,
    found: Option<Room>,
) -> bool {
    &&& is_room_selection(statement)
    &&& match found {
        Some(room) => rows.contains(room) && selects_room(statement, room),
        None => forall|room: Room|
            rows.contains(room) ==> !(#[trigger] selects_room(statement, room)),
    }
}

/// Whether a selection of rooms gives these rows: all that it selects, and no others.
pub open spec fn rooms_selected(
    rows: Seq<Room>,
    statement: StatementView,
    found: Seq<Room>,
) -> bool {
    &&& is_room_selection(statement)
    &&& forall|room: Room| #[trigger]
        found.contains(room) <==> rows.contains(room) && selects_room(statement, room)
}

/// Whether a statement on the table of users goes through: it leaves the table from `before` as
/// `after`, and this is the reply.
pub open spec fn user_executed(
    before: Seq<SpotifyUser>,
    statement: StatementView,
    reply: Reply<SpotifyUser>,
    after: Seq<SpotifyUser>,
) -> bool {
    match reply {
        Reply::Selected(Ok(found)) => after == before && user_selected(before, statement, found),
        Reply::Inserted(Ok(_)) => after.len() == before.len() + 1 && after.drop_last() == before
            && inserts_user(statement, after.last()),
        _ => false,
    }
}

/// Whether a statement on the table of rooms goes through: it leaves the table from `before` as
/// `after`, and this is the reply.
pub open spec fn room_executed(
    before: Seq<Room>,
    statement: StatementView,
    reply: Reply<Room>,
    after: Seq<Room>,
) -> bool {
    match reply {
        Reply::Selected(Ok(found)) => after == before && room_selected(before, statement, found),
        Reply::Inserted(Ok(_)) => after.len() == before.len() + 1 && after.drop_last() == before
            && inserts_room(statement, after.last()),
        _ => false,
    }
}

/// The texts of the statements tell them apart.
pub proof fn lemma_statements_told_apart()
    ensures
        "SELECT * FROM room WHERE id = $1"@ != "SELECT * FROM room WHERE owner = $1"@,
        "SELECT * FROM room WHERE id = $1"@
            != "SELECT * FROM room WHERE owner = $1 AND name = $2"@,
        "SELECT * FROM room WHERE owner = $1"@
            != "SELECT * FROM room WHERE owner = $1 AND name = $2"@,
        "SELECT * FROM room WHERE owner = $1 AND name = $2"@
            != "INSERT INTO room(name, owner) VALUES ($1, $2)"@,
        "SELECT * FROM spotify_user WHERE spotify_user_id = $1"@
            != "INSERT INTO spotify_user(spotify_user_id, display_name) VALUES ($1, $2)"@,
        "SELECT * FROM room WHERE id = $1"@ != "INSERT INTO room(name, owner) VALUES ($1, $2)"@,
        "SELECT * FROM room WHERE owner = $1"@ != "INSERT INTO room(name, owner) VALUES ($1, $2)"@,
{
    reveal_strlit("SELECT * FROM room WHERE id = $1");
    reveal_strlit("SELECT * FROM room WHERE owner = $1");
    reveal_strlit("SELECT * FROM room WHERE owner = $1 AND name = $2");
    reveal_strlit("INSERT INTO room(name, owner) VALUES ($1, $2)");
    reveal_strlit("SELECT * FROM spotify_user WHERE spotify_user_id = $1");
    reveal_strlit("INSERT INTO spotify_user(spotify_user_id, display_name) VALUES ($1, $2)");
    assert("SELECT * FROM room WHERE id = $1"@.len() == 32);
    assert("SELECT * FROM room WHERE owner = $1"@.len() == 35);
    assert("SELECT * FROM room WHERE owner = $1 AND name = $2"@.len() == 49);
    assert("INSERT INTO room(name, owner) VALUES ($1, $2)"@.len() == 45);
    assert("SELECT * FROM spotify_user WHERE spotify_user_id = $1"@[0] == 'S');
    assert("INSERT INTO spotify_user(spotify_user_id, display_name) VALUES ($1, $2)"@[0] == 'I');
}

} // verus!
