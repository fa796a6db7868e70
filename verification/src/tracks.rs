//! What a listener plays.

use vstd::prelude::*;

use crate::string_map::{distinct_keys, entries_map, has_key, place, StringMap};

verus! {

#[derive(Debug)]
pub struct Artist {
    pub name: String,
}

#[derive(Debug)]
pub struct AlbumImage {
    pub url: String,
}

#[derive(Debug)]
pub struct Album {
    pub images: Vec<AlbumImage>,
}

#[derive(Debug)]
pub struct Track {
    pub id: String,
    pub uri: String,
    pub name: String,
    pub artists: Vec<Artist>,
    pub album: Album,
}

/// What a listener sends to a room.
#[derive(Debug)]
pub struct WsMessage {
    pub track: Track,
    pub user_id: Option<String>,
}

/// A track as texts.
#[verifier::ext_equal]
pub struct TrackView {
    pub id: Seq<char>,
    pub uri: Seq<char>,
    pub name: Seq<char>,
    pub artists: Seq<Seq<char>>,
    pub images: Seq<Seq<char>>,
}

impl View for Artist {
    type V = Seq<char>;

    open spec fn view(&self) -> Seq<char> {
        self.name@
    }
}

impl View for AlbumImage {
    type V = Seq<char>;

    open spec fn view(&self) -> Seq<char> {
        self.url@
    }
}

impl View for Album {
    type V = Seq<Seq<char>>;

    open spec fn view(&self) -> Seq<Seq<char>> {
        self.images@.map_values(|image: AlbumImage| image@)
    }
}

impl View for Track {
    type V = TrackView;

    open spec fn view(&self) -> TrackView {
        TrackView {
            id: self.id@,
            uri: self.uri@,
            name: self.name@,
            artists: self.artists@.map_values(|artist: Artist| artist@),
            images: self.album@,
        }
    }
}

impl Clone for Artist {
    fn clone(&self) -> (copy: Self)
        ensures
            copy == *self,
    {
        Artist { name: self.name.clone() }
    }
}

impl Clone for AlbumImage {
    fn clone(&self) -> (copy: Self)
        ensures
            copy == *self,
    {
        AlbumImage { url: self.url.clone() }
    }
}

impl Clone for Album {
    fn clone(&self) -> (copy: Self)
        ensures
            copy@ == self@,
    {
        let mut images: Vec<AlbumImage> = Vec::new();
        let mut i: usize = 0;
        while i < self.images.len()
            invariant
                i <= self.images@.len(),
                images@ == self.images@.take(i as int),
            decreases self.images@.len() - i,
        {
            images.push(self.images[i].clone());
            i += 1;
            assert(self.images@.take(i as int) =~= self.images@.take(i - 1).push(
                self.images@[i - 1],
            ));
        }
        assert(images@ =~= self.images@);
        Album { images }
    }
}

impl Clone for Track {
    fn clone(&self) -> (copy: Self)
        ensures
            copy@ == self@,
    {
        let mut artists: Vec<Artist> = Vec::new();
        let mut i: usize = 0;
        while i < self.artists.len()
            invariant
                i <= self.artists@.len(),
                artists@ == self.artists@.take(i as int),
            decreases self.artists@.len() - i,
        {
            artists.push(self.artists[i].clone());
            i += 1;
            assert(self.artists@.take(i as int) =~= self.artists@.take(i - 1).push(
                self.artists@[i - 1],
            ));
        }
        assert(artists@ =~= self.artists@);
        Track {
            id: self.id.clone(),
            uri: self.uri.clone(),
            name: self.name.clone(),
            artists,
            album: self.album.clone(),
        }
    }
}

/// The tracks of a room, by the display name of the listener who plays each.
pub open spec fn tracks_view(tracks: Map<Seq<char>, Track>) -> Map<Seq<char>, TrackView> {
    tracks.map_values(|track: Track| track@)
}

/// A copy of the tracks of a room.
pub fn copy_tracks(tracks: &StringMap<Track>) -> (copy: StringMap<Track>)
    requires
        tracks.wf(),
    ensures
        copy.wf(),
        tracks_view(copy@) == tracks_view(tracks@),
{
    let entries = tracks.entries();
    let mut copy: StringMap<Track> = StringMap::new();
    let mut i: usize = 0;
    while i < entries.len()
        invariant
            i <= entries@.len(),
            distinct_keys(entries@),
            copy.wf(),
            forall|key: Seq<char>|
                copy@.contains_key(key) <==> exists|j: int|
                    0 <= j < i && (#[trigger] entries@[j]).0@ == key,
            forall|j: int|
                0 <= j < i ==> copy@[(#[trigger] entries@[j]).0@]@ == entries@[j].1@,
        decreases entries@.len() - i,
    {
        let ghost before = copy@;
        let key = entries[i].0.clone();
        let track = entries[i].1.clone();
        copy.insert(key, track);
        i += 1;
        proof {
            let last = i - 1;
            assert forall|key: Seq<char>|
                copy@.contains_key(key) <==> exists|j: int|
                    0 <= j < i && (#[trigger] entries@[j]).0@ == key by {
                if key == entries@[last].0@ {
                    assert(copy@.contains_key(key));
                }
                if before.contains_key(key) {
                    let j = choose|j: int| 0 <= j < last && (#[trigger] entries@[j]).0@ == key;
                    assert(0 <= j < i && entries@[j].0@ == key);
                }
            }
        }
    }
    proof {
        assert(tracks@ == entries_map(entries@));
        assert forall|key: Seq<char>|
            #[trigger] tracks_view(copy@).contains_key(key) == tracks_view(tracks@).contains_key(
                key,
            ) by {
            assert(tracks@.contains_key(key) == has_key(entries@, key));
        }
        assert forall|key: Seq<char>| tracks_view(copy@).contains_key(key) implies tracks_view(
            copy@,
        )[key] == tracks_view(tracks@)[key] by {
            assert(has_key(entries@, key));
            let p = place(entries@, key);
            assert(0 <= p < entries@.len() && entries@[p].0@ == key);
            assert(copy@[entries@[p].0@]@ == entries@[p].1@);
            assert(tracks@[key] == entries@[p].1);
        }
        assert(tracks_view(copy@) =~= tracks_view(tracks@));
    }
    copy
}

/// The texts of a track tell everything about it.
pub proof fn law_track_texts_tell_all(a: Track, b: Track)
    ensures
        a@ == b@ <==> {
            &&& a.id@ == b.id@
            &&& a.uri@ == b.uri@
            &&& a.name@ == b.name@
            &&& a.artists.len() == b.artists.len()
            &&& forall|i: int|
                0 <= i < a.artists.len() ==> (#[trigger] a.artists[i]).name@ == b.artists[i].name@
            &&& a.album.images.len() == b.album.images.len()
            &&& forall|i: int|
                0 <= i < a.album.images.len() ==> (#[trigger] a.album.images[i]).url@
                    == b.album.images[i].url@
        },
{
    if a@ == b@ {
        assert(a@.artists.len() == a.artists.len() && b@.artists.len() == b.artists.len());
        assert(a@.images.len() == a.album.images.len() && b@.images.len() == b.album.images.len());
        assert forall|i: int| 0 <= i < a.artists.len() implies (#[trigger] a.artists[i]).name@
            == b.artists[i].name@ by {
            assert(a@.artists[i] == b@.artists[i]);
        }
        assert forall|i: int| 0 <= i < a.album.images.len() implies (
        #[trigger] a.album.images[i]).url@ == b.album.images[i].url@ by {
            assert(a@.images[i] == b@.images[i]);
        }
    }
    if a.artists.len() == b.artists.len() && a.album.images.len() == b.album.images.len() && (
    forall|i: int|
        0 <= i < a.artists.len() ==> (#[trigger] a.artists[i]).name@ == b.artists[i].name@) && (
    forall|i: int|
        0 <= i < a.album.images.len() ==> (#[trigger] a.album.images[i]).url@
            == b.album.images[i].url@) {
        assert(a@.artists =~= b@.artists);
        assert(a@.images =~= b@.images);
    }
}

/// The tracks of a room are shown under the names that they are kept under.
pub proof fn law_tracks_are_shown_by_name(tracks: Map<Seq<char>, Track>, name: Seq<char>)
    ensures
        tracks_view(tracks).contains_key(name) <==> tracks.contains_key(name),
        tracks.contains_key(name) ==> tracks_view(tracks)[name] == tracks[name]@,
{
}

} // verus!
