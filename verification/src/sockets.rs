//! The connection of a listener to a room.

use tokio::sync::broadcast::{Receiver, Sender};
use vstd::prelude::*;

use crate::channel::sender_of;
use crate::db::SpotifyUser;
use crate::ids::{law_uuid_text_read_back, uuid_text, uuid_value};
use crate::rooms;
use crate::rooms::{
    channels_apart, entered, law_entering_keeps_channels_apart, listens, no_rooms, speaks,
    with_track, without_track, ConnectedRooms, Rooms,
};
use crate::string_map::StringMap;
use crate::tracks::{tracks_view, Track, TrackView, WsMessage};

verus! {

/// A user who has entered a room.
pub struct Listener {
    pub room_id: String,
    pub user: SpotifyUser,
    /// The text of the identifier of the user.
    pub user_id: String,
}

/// What comes in from a listener.
pub enum Frame {
    /// A text, and what it says if it is a message.
    Text(Option<WsMessage>),
    /// Anything else, a failure and the end of the connection among it.
    NotText,
}

/// What happens on a connection.
pub enum SocketEvent {
    /// A frame has come in.
    Received(Frame),
    /// The channel of the room has given a text, or can give none any more.
    Broadcast(Option<String>),
    /// A text has been sent to the listener, or could not be.
    Sent(bool),
}

/// What is to be done on a connection.
pub enum SocketAction {
    /// Send what is played in the room to everybody in it. The message is the one that came in,
    /// with the identifier of its sender.
    Publish(WsMessage, StringMap<Track>),
    /// Send the text to the listener.
    Deliver(String),
    /// Wait for what happens next.
    Wait,
    /// Close the connection.
    Close,
}

/// Whether an event ends the connection: a frame that is no message, a channel that gives no more,
/// or a listener who cannot be reached.
pub open spec fn closes(event: SocketEvent) -> bool {
    match event {
        SocketEvent::Received(Frame::Text(message)) => message is None,
        SocketEvent::Received(Frame::NotText) => true,
        SocketEvent::Broadcast(text) => text is None,
        SocketEvent::Sent(sent) => !sent,
    }
}

/// Whether an event ends the connection.
pub fn ends(event: &SocketEvent) -> (r: bool)
    ensures
        r == closes(*event),
{
    match event {
        SocketEvent::Received(Frame::Text(message)) => message.is_none(),
        SocketEvent::Received(Frame::NotText) => true,
        SocketEvent::Broadcast(text) => text.is_none(),
        SocketEvent::Sent(sent) => !*sent,
    }
}

/// The rooms after an event on the connection of a listener.
pub open spec fn rooms_after(
    rooms: Rooms,
    room_id: Seq<char>,
    display_name: Seq<char>,
    event: SocketEvent,
) -> Rooms {
    match event {
        SocketEvent::Received(Frame::Text(Some(message))) => with_track(
            rooms,
            room_id,
            display_name,
            message.track@,
        ),
        _ => if closes(event) {
            without_track(rooms, room_id, display_name)
        } else {
            rooms
        },
    }
}

/// What an event on the connection of a listener has sent to everybody in the room: everything that
/// is played there once the message is taken down, if the event is a message.
pub open spec fn shown(
    rooms: Rooms,
    room_id: Seq<char>,
    display_name: Seq<char>,
    event: SocketEvent,
) -> Option<Map<Seq<char>, TrackView>> {
    match event {
        SocketEvent::Received(Frame::Text(Some(_))) => Some(
            rooms_after(rooms, room_id, display_name, event)[room_id].tracks,
        ),
        _ => None,
    }
}

/// Whether a user has been connected to a room: as a listener with the text of their identifier, and
/// with both ends of the channel of the room.
pub open spec fn joined(
    rooms: Rooms,
    room_id: String,
    user: SpotifyUser,
    listener: Listener,
    tx: Sender<String>,
    rx: Receiver<String>,
) -> bool {
    &&& listener.room_id == room_id
    &&& listener.user == user
    &&& user.id matches Some(id) && listener.user_id@ == uuid_text(id.bits)
    &&& speaks(rooms, room_id@, tx)
    &&& listens(rooms, room_id@, rx)
}

/// Connects a user to a room: who listens, and both ends of the channel of the room.
pub fn connect(connected: &ConnectedRooms, room_id: String, user: SpotifyUser) -> (r: (
    Listener,
    Sender<String>,
    Receiver<String>,
))
    requires
        connected.wf(),
        connected@.contains_key(room_id@),
        user.id is Some,
    ensures
        joined(connected@, room_id, user, r.0, r.1, r.2),
{
    let rx = rooms::get_receiver(connected, room_id.as_str());
    let tx = rooms::get_sender(connected, room_id.as_str());
    let user_id = user.id.unwrap().to_text();
    (Listener { room_id, user, user_id }, tx, rx)
}

/// Whether an action follows from an event on the connection of a listener, and what becomes of the
/// rooms.
pub open spec fn handled(
    before: Rooms,
    listener: Listener,
    event: SocketEvent,
    after: Rooms,
    action: SocketAction,
) -> bool {
    let room_id = listener.room_id@;
    let display_name = listener.user.display_name@;
    &&& after == rooms_after(before, room_id, display_name, event)
    &&& action is Close <==> closes(event)
    &&& match shown(before, room_id, display_name, event) {
        Some(played) => action matches SocketAction::Publish(_, tracks) && tracks_view(tracks@)
            == played,
        None => action !is Publish,
    }
    &&& event matches SocketEvent::Received(Frame::Text(Some(message))) ==> {
        &&& action matches SocketAction::Publish(sent, tracks)
        &&& sent.track == message.track
        &&& sent.user_id == Some(listener.user_id)
        &&& tracks.wf()
        &&& tracks_view(tracks@) == after[room_id].tracks
    }
    &&& event matches SocketEvent::Broadcast(Some(text)) ==> action == SocketAction::Deliver(text)
    &&& event matches SocketEvent::Sent(true) ==> action is Wait
}

/// Decides what follows from an event on the connection of a listener.
pub fn handle_socket(
    connected: &mut ConnectedRooms,
    listener: &Listener,
    event: SocketEvent,
) -> (action: SocketAction)
    requires
        old(connected).wf(),
        old(connected)@.contains_key(listener.room_id@),
    ensures
        final(connected).wf(),
        handled(old(connected)@, *listener, event, final(connected)@, action),
{
    let room_id = listener.room_id.as_str();
    let display_name = listener.user.display_name.as_str();
    match event {
        SocketEvent::Received(Frame::Text(Some(message))) => {
            let mut message = message;
            message.user_id = Some(listener.user_id.clone());
            rooms::update_room(connected, room_id, display_name, &message.track);
            let tracks = rooms::get_room(connected, room_id);
            SocketAction::Publish(message, tracks)
        },
        SocketEvent::Broadcast(Some(text)) => SocketAction::Deliver(text),
        SocketEvent::Sent(true) => SocketAction::Wait,
        _ => {
            rooms::remove_user_from_room(connected, room_id, display_name);
            SocketAction::Close
        },
    }
}

/// The rooms after several events on the connection of a listener.
pub open spec fn rooms_after_all(
    rooms: Rooms,
    room_id: Seq<char>,
    display_name: Seq<char>,
    events: Seq<SocketEvent>,
) -> Rooms
    decreases events.len(),
{
    if events.len() == 0 {
        rooms
    } else {
        rooms_after(
            rooms_after_all(rooms, room_id, display_name, events.drop_last()),
            room_id,
            display_name,
            events.last(),
        )
    }
}

/// A connection touches the track of its own listener and nothing else: which rooms there are,
/// their channels, their users, the other rooms, and what anybody else plays stay as they were.
pub proof fn law_connection_stays_apart(
    rooms: Rooms,
    room_id: Seq<char>,
    display_name: Seq<char>,
    events: Seq<SocketEvent>,
)
    requires
        rooms.contains_key(room_id),
    ensures
        rooms_after_all(rooms, room_id, display_name, events).dom() == rooms.dom(),
        rooms_after_all(rooms, room_id, display_name, events)[room_id].tx == rooms[room_id].tx,
        rooms_after_all(rooms, room_id, display_name, events)[room_id].users
            == rooms[room_id].users,
        rooms_after_all(rooms, room_id, display_name, events)[room_id].tracks.remove(display_name)
            == rooms[room_id].tracks.remove(display_name),
        forall|k: Seq<char>|
            k != room_id && rooms.contains_key(k) ==> (#[trigger] rooms_after_all(
                rooms,
                room_id,
                display_name,
                events,
            )[k]) == rooms[k],
    decreases events.len(),
{
    if events.len() > 0 {
        let before = rooms_after_all(rooms, room_id, display_name, events.drop_last());
        let after = rooms_after_all(rooms, room_id, display_name, events);
        law_connection_stays_apart(rooms, room_id, display_name, events.drop_last());
        assert(before.contains_key(room_id));
        assert(after.dom() =~= before.dom());
        assert(after[room_id].tracks.remove(display_name) =~= before[room_id].tracks.remove(
            display_name,
        ));
        assert forall|k: Seq<char>| k != room_id && rooms.contains_key(k) implies (
        #[trigger] after[k]) == rooms[k] by {
            assert(before[k] == rooms[k]);
        }
    }
}

/// Something that happens to the rooms.
pub enum Happening {
    /// A room is entered.
    Entered(Seq<char>),
    /// There is an event on the connection of a listener, given by room and display name.
    Event(Seq<char>, Seq<char>, SocketEvent),
}

/// Whether a happening may take the rooms from `before` to `after`.
pub open spec fn happens(before: Rooms, happening: Happening, after: Rooms) -> bool {
    match happening {
        Happening::Entered(room_id) => entered(before, room_id, after),
        Happening::Event(room_id, display_name, event) => before.contains_key(room_id) && after
            == rooms_after(before, room_id, display_name, event),
    }
}

/// Whether the rooms pass through these states while this happens.
pub open spec fn history(states: Seq<Rooms>, happenings: Seq<Happening>) -> bool {
    &&& states.len() == happenings.len() + 1
    &&& forall|i: int|
        0 <= i < happenings.len() ==> happens(
            states[i],
            #[trigger] happenings[i],
            states[i + 1],
        )
}

/// Whoever enters, plays and leaves, a room that has been entered remains and keeps its channel.
pub proof fn law_history_keeps_channels(
    states: Seq<Rooms>,
    happenings: Seq<Happening>,
    earlier: int,
    later: int,
    room_id: Seq<char>,
)
    requires
        history(states, happenings),
        0 <= earlier <= later < states.len(),
        states[earlier].contains_key(room_id),
    ensures
        states[later].contains_key(room_id),
        states[later][room_id].tx == states[earlier][room_id].tx,
    decreases later,
{
    if earlier < later {
        law_history_keeps_channels(states, happenings, earlier, later - 1, room_id);
        assert(happens(states[later - 1], happenings[later - 1], states[later - 1 + 1]));
    }
}

/// Whoever enters, plays and leaves, every room has a channel of its own.
pub proof fn law_history_keeps_channels_apart(
    states: Seq<Rooms>,
    happenings: Seq<Happening>,
    later: int,
)
    requires
        history(states, happenings),
        0 <= later < states.len(),
        channels_apart(states[0]),
    ensures
        channels_apart(states[later]),
    decreases later,
{
    if later > 0 {
        law_history_keeps_channels_apart(states, happenings, later - 1);
        assert(happens(states[later - 1], happenings[later - 1], states[later - 1 + 1]));
        match happenings[later - 1] {
            Happening::Entered(room_id) => {
                law_entering_keeps_channels_apart(states[later - 1], states[later], room_id);
            },
            Happening::Event(_, _, _) => {},
        }
    }
}

/// What is sent in a room reaches those who listen in that room and nobody else: whatever happens
/// in between, and whichever of the two was there first, a sender of one room and a receiver of
/// another are ends of the same channel if and only if the rooms are the same.
pub proof fn law_listeners_share_channel(
    states: Seq<Rooms>,
    happenings: Seq<Happening>,
    i: int,
    heard: Seq<char>,
    rx: Receiver<String>,
    j: int,
    sent: Seq<char>,
    tx: Sender<String>,
)
    requires
        history(states, happenings),
        channels_apart(states[0]),
        0 <= i < states.len(),
        states[i].contains_key(heard),
        listens(states[i], heard, rx),
        0 <= j < states.len(),
        states[j].contains_key(sent),
        speaks(states[j], sent, tx),
    ensures
        sender_of(rx) == tx <==> heard == sent,
{
    let end = happenings.len() as int;
    law_history_keeps_channels(states, happenings, i, end, heard);
    law_history_keeps_channels(states, happenings, j, end, sent);
    law_history_keeps_channels_apart(states, happenings, end);
}

/// Whatever happened on a connection, once it is closed its listener plays nothing in the room and
/// the rooms are as if they had never played.
pub proof fn law_closing_leaves_no_trace(
    rooms: Rooms,
    room_id: Seq<char>,
    display_name: Seq<char>,
    events: Seq<SocketEvent>,
)
    requires
        rooms.contains_key(room_id),
        events.len() > 0,
        closes(events.last()),
    ensures
        rooms_after_all(rooms, room_id, display_name, events) == without_track(
            rooms,
            room_id,
            display_name,
        ),
        !rooms_after_all(rooms, room_id, display_name, events)[room_id].tracks.contains_key(
            display_name,
        ),
{
    let before = rooms_after_all(rooms, room_id, display_name, events.drop_last());
    law_connection_stays_apart(rooms, room_id, display_name, events.drop_last());
    assert(before.contains_key(room_id));
    let after = without_track(before, room_id, display_name);
    let never = without_track(rooms, room_id, display_name);
    assert(after[room_id] =~= never[room_id]);
    assert(after =~= never);
}

/// While a connection lasts, the room shows the track of the last message of its listener.
pub proof fn law_room_shows_last_track(
    rooms: Rooms,
    room_id: Seq<char>,
    display_name: Seq<char>,
    events: Seq<SocketEvent>,
    last: int,
)
    requires
        rooms.contains_key(room_id),
        0 <= last < events.len(),
        events[last] matches SocketEvent::Received(Frame::Text(Some(_))),
        forall|i: int|
            last < i < events.len() ==> !closes(#[trigger] events[i]) && !(events[i] is Received),
    ensures
        rooms_after_all(rooms, room_id, display_name, events)[room_id].tracks.contains_key(
            display_name,
        ),
        events[last] matches SocketEvent::Received(Frame::Text(Some(message))) && rooms_after_all(
            rooms,
            room_id,
            display_name,
            events,
        )[room_id].tracks[display_name] == message.track@,
    decreases events.len(),
{
    if last < events.len() - 1 {
        let earlier = events.drop_last();
        assert(earlier[last] == events[last]);
        assert forall|i: int| last < i < earlier.len() implies !closes(#[trigger] earlier[i]) && !(
        earlier[i] is Received) by {
            assert(earlier[i] == events[i]);
        }
        law_room_shows_last_track(rooms, room_id, display_name, earlier, last);
        assert(events.last() == events[events.len() - 1]);
    }
}

/// What has come of a connection.
#[verifier::ext_equal]
pub struct ConnectionRun {
    pub rooms: Rooms,
    /// What was sent to everybody in the room, one after the other.
    pub published: Seq<Map<Seq<char>, TrackView>>,
    pub closed: bool,
}

/// What comes of the connection of a listener. It ends with the first event that closes it: what
/// happens afterwards counts for nothing.
pub open spec fn connection_run(
    rooms: Rooms,
    room_id: Seq<char>,
    display_name: Seq<char>,
    events: Seq<SocketEvent>,
) -> ConnectionRun
    decreases events.len(),
{
    if events.len() == 0 {
        ConnectionRun { rooms, published: Seq::empty(), closed: false }
    } else {
        let before = connection_run(rooms, room_id, display_name, events.drop_last());
        let event = events.last();
        if before.closed {
            before
        } else {
            ConnectionRun {
                rooms: rooms_after(before.rooms, room_id, display_name, event),
                published: match shown(before.rooms, room_id, display_name, event) {
                    Some(tracks) => before.published.push(tracks),
                    None => before.published,
                },
                closed: closes(event),
            }
        }
    }
}

/// Whether no event closes the connection.
pub open spec fn lasts(events: Seq<SocketEvent>) -> bool {
    forall|i: int| 0 <= i < events.len() ==> !closes(#[trigger] events[i])
}

/// Whether the event is a message.
pub open spec fn is_message(event: SocketEvent) -> bool {
    event matches SocketEvent::Received(Frame::Text(Some(_)))
}

/// As long as no event closes a connection, all of them count and every message is published.
pub proof fn law_connection_lasts(
    rooms: Rooms,
    room_id: Seq<char>,
    display_name: Seq<char>,
    events: Seq<SocketEvent>,
)
    requires
        lasts(events),
    ensures
        !connection_run(rooms, room_id, display_name, events).closed,
        connection_run(rooms, room_id, display_name, events).rooms == rooms_after_all(
            rooms,
            room_id,
            display_name,
            events,
        ),
        connection_run(rooms, room_id, display_name, events).published.len() == events.filter(
            |event: SocketEvent| is_message(event),
        ).len(),
    decreases events.len(),
{
    reveal(Seq::filter);
    if events.len() > 0 {
        let earlier = events.drop_last();
        assert forall|i: int| 0 <= i < earlier.len() implies !closes(#[trigger] earlier[i]) by {
            assert(earlier[i] == events[i]);
        }
        law_connection_lasts(rooms, room_id, display_name, earlier);
        assert(!closes(events[events.len() - 1]));
    }
}

/// Nothing counts once a connection is closed.
pub proof fn law_closed_stays_closed(
    rooms: Rooms,
    room_id: Seq<char>,
    display_name: Seq<char>,
    events: Seq<SocketEvent>,
    more: Seq<SocketEvent>,
)
    requires
        connection_run(rooms, room_id, display_name, events).closed,
    ensures
        connection_run(rooms, room_id, display_name, events + more) == connection_run(
            rooms,
            room_id,
            display_name,
            events,
        ),
    decreases more.len(),
{
    if more.len() == 0 {
        assert(events + more =~= events);
    } else {
        law_closed_stays_closed(rooms, room_id, display_name, events, more.drop_last());
        assert((events + more).drop_last() =~= events + more.drop_last());
    }
}

/// The first event that closes a connection ends it, whatever comes after it: its listener plays
/// nothing in the room and the rooms are as if they had never played.
pub proof fn law_first_closing_ends_connection(
    rooms: Rooms,
    room_id: Seq<char>,
    display_name: Seq<char>,
    events: Seq<SocketEvent>,
    stop: SocketEvent,
    more: Seq<SocketEvent>,
)
    requires
        rooms.contains_key(room_id),
        lasts(events),
        closes(stop),
    ensures
        connection_run(rooms, room_id, display_name, events + seq![stop] + more).closed,
        connection_run(rooms, room_id, display_name, events + seq![stop] + more).rooms
            == without_track(rooms, room_id, display_name),
        connection_run(rooms, room_id, display_name, events + seq![stop] + more).published
            == connection_run(rooms, room_id, display_name, events).published,
{
    let stopped = events + seq![stop];
    assert(stopped.drop_last() =~= events);
    assert(stopped.last() == stop);
    law_connection_lasts(rooms, room_id, display_name, events);
    law_closing_leaves_no_trace(rooms, room_id, display_name, stopped);
    law_closed_stays_closed(rooms, room_id, display_name, stopped, more);
}

/// The messages before the first event that closes a connection are published, and no others: one
/// after the other, each as the track of the listener among what is played in the room besides.
pub proof fn law_messages_are_published(
    rooms: Rooms,
    room_id: Seq<char>,
    display_name: Seq<char>,
    texts: Seq<WsMessage>,
    stop: SocketEvent,
    more: Seq<SocketEvent>,
)
    requires
        rooms.contains_key(room_id),
        closes(stop),
    ensures
        connection_run(
            rooms,
            room_id,
            display_name,
            received(texts) + seq![stop] + more,
        ).published == texts.map_values(
            |message: WsMessage| rooms[room_id].tracks.insert(display_name, message.track@),
        ),
        connection_run(
            rooms,
            room_id,
            display_name,
            received(texts) + seq![stop] + more,
        ).published.len() == texts.len(),
{
    lemma_received_lasts(texts);
    law_first_closing_ends_connection(rooms, room_id, display_name, received(texts), stop, more);
    lemma_published(rooms, room_id, display_name, texts);
}

/// The events by which messages come in.
pub open spec fn received(texts: Seq<WsMessage>) -> Seq<SocketEvent> {
    texts.map_values(|message: WsMessage| SocketEvent::Received(Frame::Text(Some(message))))
}

proof fn lemma_received_lasts(texts: Seq<WsMessage>)
    ensures
        lasts(received(texts)),
{
}

proof fn lemma_published(
    rooms: Rooms,
    room_id: Seq<char>,
    display_name: Seq<char>,
    texts: Seq<WsMessage>,
)
    requires
        rooms.contains_key(room_id),
    ensures
        connection_run(rooms, room_id, display_name, received(texts)).published
            == texts.map_values(
            |message: WsMessage| rooms[room_id].tracks.insert(display_name, message.track@),
        ),
    decreases texts.len(),
{
    let played = |message: WsMessage|
        rooms[room_id].tracks.insert(display_name, message.track@);
    let events = received(texts);
    if texts.len() == 0 {
        assert(texts.map_values(played) =~= Seq::empty());
    } else {
        let earlier = texts.drop_last();
        assert(events.drop_last() =~= received(earlier));
        lemma_published(rooms, room_id, display_name, earlier);
        lemma_received_lasts(earlier);
        law_connection_lasts(rooms, room_id, display_name, received(earlier));
        law_connection_stays_apart(rooms, room_id, display_name, received(earlier));
        let before = rooms_after_all(rooms, room_id, display_name, received(earlier));
        let track = texts.last().track@;
        assert(before[room_id].tracks.insert(display_name, track) =~= before[room_id].tracks.remove(
            display_name,
        ).insert(display_name, track));
        assert(rooms[room_id].tracks.insert(display_name, track) =~= rooms[room_id].tracks.remove(
            display_name,
        ).insert(display_name, track));
        assert(texts.map_values(played) =~= earlier.map_values(played).push(played(texts.last())));
    }
}

/// A connection goes on as long as messages come in, the channel of the room gives texts and the
/// listener can be reached. Everything else ends it.
pub proof fn law_what_ends_connection(event: SocketEvent)
    ensures
        closes(event) <==> !((event matches SocketEvent::Received(Frame::Text(Some(_)))) || (
        event matches SocketEvent::Broadcast(Some(_))) || event == SocketEvent::Sent(true)),
{
}

/// A message puts its track under the display name of the listener, in their room and nowhere else,
/// and what is played in the room is then sent to everybody in it. The message bears the identifier
/// of the listener.
pub proof fn law_message_is_shown(
    before: Rooms,
    listener: Listener,
    message: WsMessage,
    after: Rooms,
    action: SocketAction,
    name: Seq<char>,
    k: Seq<char>,
)
    requires
        before.contains_key(listener.room_id@),
        handled(
            before,
            listener,
            SocketEvent::Received(Frame::Text(Some(message))),
            after,
            action,
        ),
    ensures
        after.contains_key(k) <==> before.contains_key(k),
        k != listener.room_id@ && before.contains_key(k) ==> after[k] == before[k],
        after[listener.room_id@].tx == before[listener.room_id@].tx,
        after[listener.room_id@].users == before[listener.room_id@].users,
        after[listener.room_id@].tracks.contains_key(listener.user.display_name@),
        after[listener.room_id@].tracks[listener.user.display_name@] == message.track@,
        name != listener.user.display_name@ ==> {
            &&& after[listener.room_id@].tracks.contains_key(name)
                <==> before[listener.room_id@].tracks.contains_key(name)
            &&& before[listener.room_id@].tracks.contains_key(name)
                ==> after[listener.room_id@].tracks[name]
                == before[listener.room_id@].tracks[name]
        },
        action matches SocketAction::Publish(sent, tracks) && {
            &&& sent.track == message.track
            &&& sent.user_id == Some(listener.user_id)
            &&& tracks@.contains_key(name)
                <==> after[listener.room_id@].tracks.contains_key(name)
            &&& tracks@.contains_key(name) ==> tracks@[name]@
                == after[listener.room_id@].tracks[name]
        },
{
}

/// A text of the channel is delivered to the listener and changes nothing. The end of a connection
/// takes the track of its listener out of their room, and nothing else.
pub proof fn law_other_events_are_handled(
    before: Rooms,
    listener: Listener,
    event: SocketEvent,
    after: Rooms,
    action: SocketAction,
    name: Seq<char>,
    k: Seq<char>,
)
    requires
        before.contains_key(listener.room_id@),
        handled(before, listener, event, after, action),
    ensures
        event matches SocketEvent::Broadcast(Some(text)) ==> after == before && action
            == SocketAction::Deliver(text),
        event == SocketEvent::Sent(true) ==> after == before && action == SocketAction::Wait,
        after.contains_key(k) <==> before.contains_key(k),
        k != listener.room_id@ && before.contains_key(k) ==> after[k] == before[k],
        after[listener.room_id@].tx == before[listener.room_id@].tx,
        action is Close ==> {
            &&& !after[listener.room_id@].tracks.contains_key(listener.user.display_name@)
            &&& name != listener.user.display_name@ ==> {
                &&& after[listener.room_id@].tracks.contains_key(name)
                    <==> before[listener.room_id@].tracks.contains_key(name)
                &&& before[listener.room_id@].tracks.contains_key(name)
                    ==> after[listener.room_id@].tracks[name]
                    == before[listener.room_id@].tracks[name]
            }
        },
        action is Close <==> !((event matches SocketEvent::Received(Frame::Text(Some(_)))) || (
        event matches SocketEvent::Broadcast(Some(_))) || event == SocketEvent::Sent(true)),
{
}

/// Whoever is connected to a room is in that room as themselves: the text of their identifier reads
/// as their identifier, and what they send goes where they listen.
pub proof fn law_listener_is_user(
    rooms: Rooms,
    room_id: String,
    user: SpotifyUser,
    listener: Listener,
    tx: Sender<String>,
    rx: Receiver<String>,
)
    requires
        joined(rooms, room_id, user, listener, tx, rx),
    ensures
        listener.room_id@ == room_id@,
        listener.user == user,
        user.id matches Some(id) && uuid_value(listener.user_id@) == Some(id.bits),
        tx == rooms[room_id@].tx,
        sender_of(rx) == tx,
{
    law_uuid_text_read_back(user.id->0);
}

/// Whether a happening is a message of a listener of that name in that room.
pub open spec fn plays_in(happening: Happening, room_id: Seq<char>, display_name: Seq<char>) -> bool {
    happening matches Happening::Event(room, name, SocketEvent::Received(Frame::Text(Some(_))))
        && room == room_id && name == display_name
}

/// Whether a happening ends a connection of a listener of that name to that room.
pub open spec fn leaves_from(
    happening: Happening,
    room_id: Seq<char>,
    display_name: Seq<char>,
) -> bool {
    happening matches Happening::Event(room, name, event) && room == room_id && name == display_name
        && !((event matches SocketEvent::Received(Frame::Text(Some(_)))) || (
    event matches SocketEvent::Broadcast(Some(_))) || event == SocketEvent::Sent(true))
}

/// Whether the `i`th of the first `n` happenings is the last message of a listener of that name in
/// that room, and they have not left since.
pub open spec fn is_playing(
    happenings: Seq<Happening>,
    n: int,
    room_id: Seq<char>,
    display_name: Seq<char>,
    i: int,
) -> bool {
    &&& 0 <= i < n
    &&& plays_in(happenings[i], room_id, display_name)
    &&& forall|l: int|
        i < l < n ==> !plays_in(#[trigger] happenings[l], room_id, display_name) && !leaves_from(
            happenings[l],
            room_id,
            display_name,
        )
}

/// Whether the room was entered in the first `n` happenings.
pub open spec fn was_entered(happenings: Seq<Happening>, n: int, room_id: Seq<char>) -> bool {
    exists|i: int| 0 <= i < n && #[trigger] happenings[i] == Happening::Entered(room_id)
}

/// From the start of the service on, the rooms are those that were entered, and what a room shows
/// under a display name is the track of the last message of a listener of that name in that same
/// room, if they have not left since; nothing else is shown.
pub proof fn law_rooms_show_what_is_played(
    states: Seq<Rooms>,
    happenings: Seq<Happening>,
    n: int,
    room_id: Seq<char>,
    display_name: Seq<char>,
)
    requires
        history(states, happenings),
        states[0] == no_rooms(),
        0 <= n < states.len(),
    ensures
        states[n].contains_key(room_id) <==> was_entered(happenings, n, room_id),
        states[n].contains_key(room_id) && states[n][room_id].tracks.contains_key(display_name)
            <==> exists|i: int| is_playing(happenings, n, room_id, display_name, i),
        forall|i: int| #[trigger]
            is_playing(happenings, n, room_id, display_name, i) ==> (
            happenings[i] matches Happening::Event(
                _,
                _,
                SocketEvent::Received(Frame::Text(Some(message))),
            ) && states[n][room_id].tracks[display_name] == message.track@),
    decreases n,
{
    if n > 0 {
        let m = n - 1;
        law_rooms_show_what_is_played(states, happenings, m, room_id, display_name);
        let last = happenings[m];
        assert(happens(states[m], last, states[m + 1]));
        assert(was_entered(happenings, n, room_id) <==> was_entered(happenings, m, room_id) || last
            == Happening::Entered(room_id)) by {
            if was_entered(happenings, m, room_id) {
                let i = choose|i: int|
                    0 <= i < m && #[trigger] happenings[i] == Happening::Entered(room_id);
                assert(0 <= i < n && happenings[i] == Happening::Entered(room_id));
            }
            if last == Happening::Entered(room_id) {
                assert(0 <= m < n && happenings[m] == Happening::Entered(room_id));
            }
        }
        let plays = plays_in(last, room_id, display_name);
        let leaves = leaves_from(last, room_id, display_name);
        assert forall|i: int|
            #[trigger] is_playing(happenings, n, room_id, display_name, i) <==> (if plays {
                i == m
            } else {
                !leaves && is_playing(happenings, m, room_id, display_name, i)
            }) by {
            if is_playing(happenings, n, room_id, display_name, i) && i < m {
                assert(!plays_in(happenings[m], room_id, display_name));
                assert(!leaves_from(happenings[m], room_id, display_name));
            }
        }
        if plays {
            assert(is_playing(happenings, n, room_id, display_name, m));
        } else if !leaves {
            if exists|i: int| is_playing(happenings, m, room_id, display_name, i) {
                let i = choose|i: int| is_playing(happenings, m, room_id, display_name, i);
                assert(is_playing(happenings, n, room_id, display_name, i));
            }
            if exists|i: int| is_playing(happenings, n, room_id, display_name, i) {
                let i = choose|i: int| is_playing(happenings, n, room_id, display_name, i);
                assert(is_playing(happenings, m, room_id, display_name, i));
            }
        }
    }
}

/// What is done about an event on a connection is what happens to the rooms.
pub proof fn law_events_happen(
    before: Rooms,
    listener: Listener,
    event: SocketEvent,
    after: Rooms,
    action: SocketAction,
)
    requires
        before.contains_key(listener.room_id@),
        handled(before, listener, event, after, action),
    ensures
        happens(
            before,
            Happening::Event(listener.room_id@, listener.user.display_name@, event),
            after,
        ),
{
}

} // verus!
