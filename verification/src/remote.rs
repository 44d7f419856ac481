//! The player-status payload pushed to the remote status service: the
//! current song and the queue, in the wire shape the service expects.

use vstd::prelude::*;
use crate::player::SongItem;
use crate::text::{compact_duration, compact_duration_of};

verus! {

/// One song in the wire shape.
pub struct Item {
    /// Name of the song.
    pub name: String,
    /// Artists of the song.
    pub artists: Option<String>,
    /// Track ID of the song.
    pub track_id: String,
    /// URL of the song.
    pub track_url: String,
    /// User who requested the song.
    pub user: Option<String>,
    /// Length of the song, rendered compactly.
    pub duration: String,
}

/// The catalog page of a track: the provider's track URL prefix followed by
/// the track id.
pub open spec fn track_url_of(track_id: Seq<char>) -> Seq<char> {
    "https://open.spotify.com/track/"@ + track_id
}

/// The wire item carries exactly the fields of the song, with the catalog
/// URL and the compact duration derived from them.
pub open spec fn item_of_song(it: Item, s: SongItem) -> bool {
    &&& it.name@ == s.name@
    &&& it.artists == s.artists
    &&& it.track_id@ == s.track_id@
    &&& it.track_url@ == track_url_of(s.track_id@)
    &&& it.user == s.user
    &&& it.duration@ == compact_duration_of(s.duration_secs as nat)
}

impl Item {
    /// Build the wire form of one queued song.
    pub fn from_song(i: &SongItem) -> (r: Item)
        ensures
            item_of_song(r, *i),
    {
        let mut url = String::new();
        url.append("https://open.spotify.com/track/");
        url.append(i.track_id.as_str());
        Item {
            name: i.name.clone(),
            artists: match &i.artists {
                Some(a) => Some(a.clone()),
                None => None,
            },
            track_id: i.track_id.clone(),
            track_url: url,
            user: match &i.user {
                Some(u) => Some(u.clone()),
                None => None,
            },
            duration: compact_duration(i.duration_secs),
        }
    }
}

/// One status push: the current song and the queued songs.
pub struct PlayerUpdate {
    /// Current song.
    pub current: Option<Item>,
    /// Queued songs.
    pub items: Vec<Item>,
}

impl PlayerUpdate {
    /// Build the payload from the modeled player state.
    pub fn from_player(current: &Option<SongItem>, queue: &Vec<SongItem>) -> (r: PlayerUpdate)
        ensures
            match (r.current, *current) {
                (Some(it), Some(s)) => item_of_song(it, s),
                (None, None) => true,
                _ => false,
            },
            r.items@.len() == queue@.len(),
            forall|i: int| 0 <= i < queue@.len() ==> item_of_song(#[trigger] r.items@[i], queue@[i]),
    {
        let cur = match current {
            Some(c) => Some(Item::from_song(c)),
            None => None,
        };
        let n = queue.len();
        let mut items: Vec<Item> = Vec::new();
        let mut i: usize = 0;
        while i < n
            invariant
                n == queue@.len(),
                i <= n,
                items@.len() == i,
                forall|j: int| 0 <= j < i ==> item_of_song(#[trigger] items@[j], queue@[j]),
            decreases n - i,
        {
            items.push(Item::from_song(&queue[i]));
            i = i + 1;
        }
        PlayerUpdate { current: cur, items }
    }
}

} // verus!
