use listening_rooms::db::{SpotifyUser, Timestamp};
use listening_rooms::ids::Uuid;
use listening_rooms::rooms::{
    get_receiver, get_room, get_sender, insert_pool, remove_user_from_room, update_room,
    ConnectedRooms, Room,
};
use listening_rooms::sockets::{connect, ends, handle_socket, Frame, SocketAction, SocketEvent};
use listening_rooms::string_map::StringMap;
use listening_rooms::tracks::{Album, AlbumImage, Artist, Track, WsMessage};
use tokio::sync::broadcast::error::TryRecvError;

fn track(id: &str) -> Track {
    Track {
        id: id.to_string(),
        uri: format!("spotify:track:{}", id),
        name: format!("Song {}", id),
        artists: vec![Artist { name: "A".to_string() }, Artist { name: "B".to_string() }],
        album: Album { images: vec![AlbumImage { url: "https://image/1".to_string() }] },
    }
}

fn user() -> SpotifyUser {
    SpotifyUser {
        id: Some(Uuid { bits: 0xff }),
        spotify_user_id: "ola-1".to_string(),
        display_name: "Ola".to_string(),
        created_at: Timestamp { micros: 0 },
    }
}

fn played(tracks: &StringMap<Track>) -> Vec<(String, String)> {
    let mut shown: Vec<(String, String)> =
        tracks.entries().iter().map(|(name, track)| (name.clone(), track.id.clone())).collect();
    shown.sort();
    shown
}

fn pair(name: &str, id: &str) -> (String, String) {
    (name.to_string(), id.to_string())
}

#[test]
fn map_keeps_one_value_for_each_key() {
    let mut map: StringMap<u8> = StringMap::new();
    assert!(!map.contains_key("a"));
    assert_eq!(map.remove("a"), None);
    map.insert("a".to_string(), 1);
    map.insert("b".to_string(), 2);
    map.insert("a".to_string(), 3);
    assert_eq!(map.entries().len(), 2);
    assert_eq!(map.get("a"), Some(&3));
    assert_eq!(map.get("c"), None);
    *map.get_mut("b").unwrap() = 9;
    assert!(map.get_mut("c").is_none());
    assert_eq!(map.remove("b"), Some(9));
    assert!(!map.contains_key("b"));
    assert!(map.contains_key("a"));
}

#[test]
fn copied_track_is_whole() {
    let copy = track("1").clone();
    assert_eq!(copy.uri, "spotify:track:1");
    assert_eq!(copy.name, "Song 1");
    assert_eq!(copy.artists.len(), 2);
    assert_eq!(copy.artists[1].name, "B");
    assert_eq!(copy.album.images[0].url, "https://image/1");
}

#[test]
fn entered_room_is_empty_and_kept() {
    let mut connected = ConnectedRooms::new();
    assert!(!connected.contains("r"));
    insert_pool(&mut connected, "r");
    assert!(connected.contains("r"));
    assert!(played(&get_room(&connected, "r")).is_empty());
    update_room(&mut connected, "r", "Ola", &track("1"));
    let tx = get_sender(&connected, "r");
    insert_pool(&mut connected, "r");
    assert_eq!(played(&get_room(&connected, "r")), vec![pair("Ola", "1")]);
    assert!(tx.same_channel(&get_sender(&connected, "r")));
}

#[test]
fn rooms_have_channels_of_their_own() {
    let mut connected = ConnectedRooms::new();
    insert_pool(&mut connected, "r");
    insert_pool(&mut connected, "s");
    assert!(!get_sender(&connected, "r").same_channel(&get_sender(&connected, "s")));
    let mut here = get_receiver(&connected, "r");
    let mut there = get_receiver(&connected, "s");
    get_sender(&connected, "r").send("hello".to_string()).unwrap();
    assert_eq!(here.try_recv(), Ok("hello".to_string()));
    assert_eq!(there.try_recv(), Err(TryRecvError::Empty));
}

#[test]
fn channel_of_a_room_holds_128_messages() {
    let mut connected = ConnectedRooms::new();
    insert_pool(&mut connected, "r");
    let tx = get_sender(&connected, "r");
    let mut rx = get_receiver(&connected, "r");
    for i in 0..128 {
        tx.send(format!("{}", i)).unwrap();
    }
    assert_eq!(rx.try_recv(), Ok("0".to_string()));
    let mut late = get_receiver(&connected, "r");
    for i in 0..129 {
        tx.send(format!("{}", i)).unwrap();
    }
    assert_eq!(late.try_recv(), Err(TryRecvError::Lagged(1)));
}

#[test]
fn new_room_keeps_its_sender() {
    let (tx, _rx) = tokio::sync::broadcast::channel(1);
    let _room = Room::new(tx.clone());
    assert_eq!(tx.strong_count(), 2);
}

#[test]
fn room_shows_the_last_track_of_each_listener() {
    let mut connected = ConnectedRooms::new();
    insert_pool(&mut connected, "r");
    insert_pool(&mut connected, "s");
    update_room(&mut connected, "r", "Ola", &track("1"));
    update_room(&mut connected, "r", "Jan", &track("2"));
    update_room(&mut connected, "s", "Ola", &track("3"));
    update_room(&mut connected, "r", "Ola", &track("4"));
    assert_eq!(played(&get_room(&connected, "r")), vec![pair("Jan", "2"), pair("Ola", "4")]);
    assert_eq!(played(&get_room(&connected, "s")), vec![pair("Ola", "3")]);
}

#[test]
fn leaving_undoes_playing() {
    let mut connected = ConnectedRooms::new();
    insert_pool(&mut connected, "r");
    update_room(&mut connected, "r", "Jan", &track("2"));
    update_room(&mut connected, "r", "Ola", &track("1"));
    remove_user_from_room(&mut connected, "r", "Ola");
    assert_eq!(played(&get_room(&connected, "r")), vec![pair("Jan", "2")]);
    remove_user_from_room(&mut connected, "r", "Ola");
    assert_eq!(played(&get_room(&connected, "r")), vec![pair("Jan", "2")]);
}

#[test]
fn listener_is_connected_to_the_room() {
    let mut connected = ConnectedRooms::new();
    insert_pool(&mut connected, "r");
    let (listener, tx, mut rx) = connect(&connected, "r".to_string(), user());
    assert_eq!(listener.room_id, "r");
    assert_eq!(listener.user.display_name, "Ola");
    assert_eq!(listener.user_id, "00000000-0000-0000-0000-0000000000ff");
    assert!(tx.same_channel(&get_sender(&connected, "r")));
    tx.send("hello".to_string()).unwrap();
    assert_eq!(rx.try_recv(), Ok("hello".to_string()));
}

#[test]
fn message_is_taken_down_and_published() {
    let mut connected = ConnectedRooms::new();
    insert_pool(&mut connected, "r");
    update_room(&mut connected, "r", "Jan", &track("2"));
    let (listener, _tx, _rx) = connect(&connected, "r".to_string(), user());
    let message = WsMessage { track: track("1"), user_id: Some("somebody else".to_string()) };
    let event = SocketEvent::Received(Frame::Text(Some(message)));
    assert!(!ends(&event));
    match handle_socket(&mut connected, &listener, event) {
        SocketAction::Publish(message, tracks) => {
            assert_eq!(message.track.id, "1");
            assert_eq!(
                message.user_id,
                Some("00000000-0000-0000-0000-0000000000ff".to_string())
            );
            assert_eq!(played(&tracks), vec![pair("Jan", "2"), pair("Ola", "1")]);
        }
        _ => panic!("not published"),
    }
    assert_eq!(
        played(&get_room(&connected, "r")),
        vec![pair("Jan", "2"), pair("Ola", "1")]
    );
}

#[test]
fn what_is_broadcast_is_delivered() {
    let mut connected = ConnectedRooms::new();
    insert_pool(&mut connected, "r");
    let (listener, _tx, _rx) = connect(&connected, "r".to_string(), user());
    let heard = SocketEvent::Broadcast(Some("text".to_string()));
    match handle_socket(&mut connected, &listener, heard) {
        SocketAction::Deliver(text) => assert_eq!(text, "text"),
        _ => panic!("not delivered"),
    }
    assert!(!ends(&SocketEvent::Broadcast(Some("text".to_string()))));
    assert!(!ends(&SocketEvent::Sent(true)));
    let sent = handle_socket(&mut connected, &listener, SocketEvent::Sent(true));
    assert!(matches!(sent, SocketAction::Wait));
}

#[test]
fn closing_leaves_no_trace() {
    let endings: Vec<SocketEvent> = vec![
        SocketEvent::Received(Frame::Text(None)),
        SocketEvent::Received(Frame::NotText),
        SocketEvent::Broadcast(None),
        SocketEvent::Sent(false),
    ];
    for ending in endings {
        let mut connected = ConnectedRooms::new();
        insert_pool(&mut connected, "r");
        update_room(&mut connected, "r", "Jan", &track("2"));
        let (listener, _tx, _rx) = connect(&connected, "r".to_string(), user());
        let message = WsMessage { track: track("1"), user_id: None };
        handle_socket(
            &mut connected,
            &listener,
            SocketEvent::Received(Frame::Text(Some(message))),
        );
        assert!(ends(&ending));
        let action = handle_socket(&mut connected, &listener, ending);
        assert!(matches!(action, SocketAction::Close));
        assert_eq!(played(&get_room(&connected, "r")), vec![pair("Jan", "2")]);
    }
}

#[test]
fn listeners_share_the_channel_of_the_room() {
    let mut connected = ConnectedRooms::new();
    insert_pool(&mut connected, "r");
    let (listener, tx, _rx) = connect(&connected, "r".to_string(), user());
    let message = WsMessage { track: track("1"), user_id: None };
    handle_socket(
        &mut connected,
        &listener,
        SocketEvent::Received(Frame::Text(Some(message))),
    );
    insert_pool(&mut connected, "s");
    insert_pool(&mut connected, "r");
    let (_, _, mut later) = connect(&connected, "r".to_string(), user());
    let (_, _, mut elsewhere) = connect(&connected, "s".to_string(), user());
    tx.send("hello".to_string()).unwrap();
    assert_eq!(later.try_recv(), Ok("hello".to_string()));
    assert_eq!(elsewhere.try_recv(), Err(TryRecvError::Empty));
}

#[test]
fn every_room_keeps_a_channel_of_its_own() {
    let names = ["r", "s", "t", "u"];
    let mut connected = ConnectedRooms::new();
    let mut senders = Vec::new();
    for name in names {
        insert_pool(&mut connected, name);
        senders.push(get_sender(&connected, name));
        update_room(&mut connected, "r", name, &track(name));
    }
    for name in names {
        remove_user_from_room(&mut connected, "r", name);
        insert_pool(&mut connected, name);
    }
    for (i, heard) in names.iter().enumerate() {
        for (j, sent) in names.iter().enumerate() {
            let mut rx = get_receiver(&connected, heard);
            let tx = get_sender(&connected, sent);
            assert_eq!(tx.same_channel(&senders[i]), i == j);
            let _ = tx.send("hello".to_string());
            assert_eq!(rx.try_recv().is_ok(), i == j);
        }
    }
}

#[test]
fn nothing_counts_after_the_first_closing_event() {
    let received = |id: &str| {
        let message = WsMessage { track: track(id), user_id: None };
        SocketEvent::Received(Frame::Text(Some(message)))
    };
    let events = vec![
        received("1"),
        SocketEvent::Broadcast(Some("text".to_string())),
        SocketEvent::Sent(true),
        received("3"),
        SocketEvent::Sent(false),
        received("4"),
        SocketEvent::Broadcast(None),
    ];
    let mut connected = ConnectedRooms::new();
    insert_pool(&mut connected, "r");
    update_room(&mut connected, "r", "Jan", &track("2"));
    let (listener, _tx, _rx) = connect(&connected, "r".to_string(), user());
    let mut published = Vec::new();
    for event in events {
        let last = ends(&event);
        if let SocketAction::Publish(_, tracks) = handle_socket(&mut connected, &listener, event) {
            published.push(played(&tracks));
        }
        if last {
            break;
        }
    }
    assert_eq!(
        published,
        vec![
            vec![pair("Jan", "2"), pair("Ola", "1")],
            vec![pair("Jan", "2"), pair("Ola", "3")],
        ]
    );
    assert_eq!(played(&get_room(&connected, "r")), vec![pair("Jan", "2")]);
}
