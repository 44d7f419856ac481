//! The narrow surface of the music player that the engine consumes, modeled
//! as plain state: the queue of requested songs, the current song, the
//! volume and the play flag.  The player's own scheduling and eviction stay
//! outside; the process mirrors this model into the real player.

use vstd::prelude::*;
use crate::text::str_eq;

verus! {

/// One requested song.
pub struct SongItem {
    /// Track name.
    pub name: String,
    /// Artists, if known.
    pub artists: Option<String>,
    /// Identifier of the track at the catalog provider.
    pub track_id: String,
    /// Who requested it; none for pre-loaded songs.
    pub user: Option<String>,
    /// Length in seconds.
    pub duration_secs: u64,
}

impl SongItem {
    /// The display form of the song: its name, with the artists when known.
    pub open spec fn what_view(self) -> Seq<char> {
        match self.artists {
            Some(a) => self.name@ + " by "@ + a@,
            None => self.name@,
        }
    }

    /// Render the display form of the song.
    pub fn what(&self) -> (r: String)
        ensures
            r@ == self.what_view(),
    {
        let mut out = self.name.clone();
        match &self.artists {
            Some(a) => {
                out.append(" by ");
                out.append(a.as_str());
            }
            None => {}
        }
        out
    }

    /// An identical copy.
    pub fn duplicate(&self) -> (r: SongItem)
        ensures
            r == *self,
    {
        SongItem {
            name: self.name.clone(),
            artists: match &self.artists {
                Some(a) => Some(a.clone()),
                None => None,
            },
            track_id: self.track_id.clone(),
            user: match &self.user {
                Some(u) => Some(u.clone()),
                None => None,
            },
            duration_secs: self.duration_secs,
        }
    }

    /// Whether this song was requested by `u`.
    pub open spec fn by_user(self, u: Seq<char>) -> bool {
        match self.user {
            Some(s) => s@ == u,
            None => false,
        }
    }
}

/// Why a song request was not added to the queue.
#[derive(Clone, Copy, PartialEq, Eq, Structural, Debug)]
pub enum AddTrackError {
    /// The queue already holds this track, at this position.
    QueueContainsTrack(usize),
    /// The requester already has this many songs in the queue.
    TooManyUserTracks(usize),
    /// The queue is at its capacity.
    QueueFull,
    /// The player or the catalog provider failed.
    Failed,
}

/// The sum of the durations of the songs, in seconds.
pub open spec fn total_duration(items: Seq<SongItem>) -> int
    decreases items.len(),
{
    if items.len() == 0 {
        0
    } else {
        total_duration(items.drop_last()) + items.last().duration_secs
    }
}

/// The position of the first song at or after `i` with this track id, or -1.
pub open spec fn first_track_from(items: Seq<SongItem>, i: int, tid: Seq<char>) -> int
    decreases items.len() - i,
{
    if i < 0 || i >= items.len() {
        -1
    } else if items[i].track_id@ == tid {
        i
    } else {
        first_track_from(items, i + 1, tid)
    }
}

/// The position of the first song with this track id, or -1.
pub open spec fn first_track_index(items: Seq<SongItem>, tid: Seq<char>) -> int {
    first_track_from(items, 0, tid)
}

/// How many songs of the queue this user requested.
pub open spec fn count_by_user(items: Seq<SongItem>, u: Seq<char>) -> int
    decreases items.len(),
{
    if items.len() == 0 {
        0
    } else {
        count_by_user(items.drop_last(), u) + if items.last().by_user(u) {
            1int
        } else {
            0int
        }
    }
}

/// The position of the last song this user requested, or -1.
pub open spec fn last_user_index(items: Seq<SongItem>, u: Seq<char>) -> int
    decreases items.len(),
{
    if items.len() == 0 {
        -1
    } else if items.last().by_user(u) {
        items.len() - 1
    } else {
        last_user_index(items.drop_last(), u)
    }
}

/// The modeled player state.
pub struct PlayerModel {
    /// Upcoming songs, next first.
    pub queue: Vec<SongItem>,
    /// The song playing now.
    pub current: Option<SongItem>,
    /// Playback volume, 0 to 100.
    pub volume: u32,
    /// Whether playback runs.
    pub playing: bool,
    /// Most songs the queue accepts.
    pub max_queue: usize,
    /// Most queued songs one non-moderator may have.
    pub max_user_tracks: usize,
}

impl PlayerModel {
    /// The volume is a percentage.
    pub open spec fn wf(self) -> bool {
        self.volume <= 100
    }

    /// An idle player with an empty queue.
    pub fn new(volume: u32, max_queue: usize, max_user_tracks: usize) -> (r: PlayerModel)
        requires
            volume <= 100,
        ensures
            r.wf(),
            r.queue@ == Seq::<SongItem>::empty(),
            r.current is None,
            r.volume == volume,
            r.playing == false,
            r.max_queue == max_queue,
            r.max_user_tracks == max_user_tracks,
    {
        PlayerModel {
            queue: Vec::new(),
            current: None,
            volume,
            playing: false,
            max_queue,
            max_user_tracks,
        }
    }

    /// The current volume.
    pub fn current_volume(&self) -> (r: u32)
        ensures
            r == self.volume,
    {
        self.volume
    }

    /// Set the volume.
    pub fn set_volume(&mut self, v: u32)
        requires
            v <= 100,
        ensures
            *final(self) == (PlayerModel { volume: v, ..*old(self) }),
    {
        self.volume = v;
    }

    /// Start playback.
    pub fn play(&mut self)
        ensures
            *final(self) == (PlayerModel { playing: true, ..*old(self) }),
    {
        self.playing = true;
    }

    /// Pause playback.
    pub fn pause(&mut self)
        ensures
            *final(self) == (PlayerModel { playing: false, ..*old(self) }),
    {
        self.playing = false;
    }

    /// Toggle playback.
    pub fn toggle(&mut self)
        ensures
            *final(self) == (PlayerModel { playing: !old(self).playing, ..*old(self) }),
    {
        self.playing = !self.playing;
    }

    /// Skip to the next queued song, if any.
    pub fn skip(&mut self)
        ensures
            old(self).queue@.len() == 0 ==> *final(self) == (PlayerModel {
                current: None,
                ..*old(self)
            }),
            old(self).queue@.len() > 0 ==> final(self).queue@ == old(self).queue@.drop_first()
                && final(self).current == Some(old(self).queue@[0]) && final(self).volume == old(
                self,
            ).volume && final(self).playing == old(self).playing && final(self).max_queue == old(
                self,
            ).max_queue && final(self).max_user_tracks == old(self).max_user_tracks,
    {
        if self.queue.len() == 0 {
            self.current = None;
        } else {
            let item = self.queue.remove(0);
            proof {
                assert(old(self).queue@.remove(0) =~= old(self).queue@.drop_first());
            }
            self.current = Some(item);
        }
    }

    /// The number of queued songs and their total play time, saturated at
    /// the largest representable number of seconds.
    pub fn length(&self) -> (r: (usize, u64))
        ensures
            r.0 == self.queue@.len(),
            r.1 == if total_duration(self.queue@) <= u64::MAX {
                total_duration(self.queue@)
            } else {
                u64::MAX as int
            },
    {
        let n = self.queue.len();
        let mut secs: u64 = 0;
        let mut i: usize = 0;
        proof {
            assert(self.queue@.take(0) =~= Seq::<SongItem>::empty());
        }
        while i < n
            invariant
                n == self.queue@.len(),
                i <= n,
                secs == if total_duration(self.queue@.take(i as int)) <= u64::MAX {
                    total_duration(self.queue@.take(i as int))
                } else {
                    u64::MAX as int
                },
            decreases n - i,
        {
            proof {
                assert(self.queue@.take(i + 1).drop_last() =~= self.queue@.take(i as int));
                assert(self.queue@.take(i + 1).last() == self.queue@[i as int]);
                lemma_total_duration_nonneg(self.queue@.take(i as int));
            }
            secs = secs.saturating_add(self.queue[i].duration_secs);
            i = i + 1;
        }
        proof {
            assert(self.queue@.take(i as int) =~= self.queue@);
        }
        (n, secs)
    }

    /// Remove the newest queued song.
    pub fn remove_last(&mut self) -> (r: Option<SongItem>)
        ensures
            old(self).queue@.len() == 0 ==> r is None && final(self).queue@ == old(self).queue@,
            old(self).queue@.len() > 0 ==> r == Some(old(self).queue@.last())
                && final(self).queue@ == old(self).queue@.drop_last(),
            final(self).current == old(self).current,
            final(self).volume == old(self).volume,
            final(self).playing == old(self).playing,
            final(self).max_queue == old(self).max_queue,
            final(self).max_user_tracks == old(self).max_user_tracks,
    {
        self.queue.pop()
    }

    /// Remove the queued song at position `n`, if there is one.
    pub fn remove_at(&mut self, n: usize) -> (r: Option<SongItem>)
        ensures
            n >= old(self).queue@.len() ==> r is None && *final(self) == *old(self),
            n < old(self).queue@.len() ==> r == Some(old(self).queue@[n as int])
                && final(self).queue@ == old(self).queue@.remove(n as int),
            final(self).current == old(self).current,
            final(self).volume == old(self).volume,
            final(self).playing == old(self).playing,
            final(self).max_queue == old(self).max_queue,
            final(self).max_user_tracks == old(self).max_user_tracks,
    {
        if n < self.queue.len() {
            Some(self.queue.remove(n))
        } else {
            None
        }
    }

    /// Remove the newest queued song this user requested, if any.
    pub fn remove_last_by_user(&mut self, u: &str) -> (r: Option<SongItem>)
        ensures
            last_user_index(old(self).queue@, u@) == -1 ==> r is None && *final(self) == *old(
                self,
            ),
            last_user_index(old(self).queue@, u@) >= 0 ==> {
                let idx = last_user_index(old(self).queue@, u@);
                &&& r == Some(old(self).queue@[idx])
                &&& final(self).queue@ == old(self).queue@.remove(idx)
                &&& final(self).current == old(self).current
                &&& final(self).volume == old(self).volume
                &&& final(self).playing == old(self).playing
                &&& final(self).max_queue == old(self).max_queue
                &&& final(self).max_user_tracks == old(self).max_user_tracks
            },
    {
        let n = self.queue.len();
        let mut found: Option<usize> = None;
        let mut i: usize = 0;
        proof {
            assert(self.queue@.take(0) =~= Seq::<SongItem>::empty());
        }
        while i < n
            invariant
                n == self.queue@.len(),
                i <= n,
                match found {
                    Some(x) => x < i && last_user_index(self.queue@.take(i as int), u@) == x,
                    None => last_user_index(self.queue@.take(i as int), u@) == -1,
                },
            decreases n - i,
        {
            proof {
                assert(self.queue@.take(i + 1).drop_last() =~= self.queue@.take(i as int));
                assert(self.queue@.take(i + 1).last() == self.queue@[i as int]);
            }
            let matches = match &self.queue[i].user {
                Some(s) => str_eq(s.as_str(), u),
                None => false,
            };
            if matches {
                found = Some(i);
            }
            i = i + 1;
        }
        proof {
            assert(self.queue@.take(i as int) =~= self.queue@);
        }
        match found {
            Some(idx) => {
                let item = self.queue.remove(idx);
                Some(item)
            }
            None => None,
        }
    }

    /// Try to add a requested song at the end of the queue.  The request is
    /// refused when the queue already holds the track, when a non-moderator
    /// already has `max_user_tracks` songs queued, or when the queue is
    /// full; otherwise the song's queue position is returned.
    pub fn add_track(&mut self, requester: &str, item: SongItem, is_moderator: bool) -> (r: Result<
        usize,
        AddTrackError,
    >)
        requires
            item.by_user(requester@) || item.user is None,
        ensures
            ({
                let q = old(self).queue@;
                let dup = first_track_index(q, item.track_id@);
                let mine = count_by_user(q, requester@);
                if dup >= 0 {
                    &&& r == Result::<usize, AddTrackError>::Err(
                        AddTrackError::QueueContainsTrack(dup as usize),
                    )
                    &&& *final(self) == *old(self)
                } else if !is_moderator && mine >= old(self).max_user_tracks {
                    &&& r == Result::<usize, AddTrackError>::Err(
                        AddTrackError::TooManyUserTracks(mine as usize),
                    )
                    &&& *final(self) == *old(self)
                } else if q.len() >= old(self).max_queue {
                    &&& r == Result::<usize, AddTrackError>::Err(AddTrackError::QueueFull)
                    &&& *final(self) == *old(self)
                } else {
                    &&& r == Result::<usize, AddTrackError>::Ok(q.len() as usize)
                    &&& final(self).queue@ == q.push(item)
                    &&& final(self).current == old(self).current
                    &&& final(self).volume == old(self).volume
                    &&& final(self).playing == old(self).playing
                    &&& final(self).max_queue == old(self).max_queue
                    &&& final(self).max_user_tracks == old(self).max_user_tracks
                }
            }),
    {
        let n = self.queue.len();
        // duplicate check
        let mut i: usize = 0;
        while i < n
            invariant
                n == self.queue@.len(),
                i <= n,
                first_track_index(self.queue@, item.track_id@) == first_track_from(
                    self.queue@,
                    i as int,
                    item.track_id@,
                ),
            decreases n - i,
        {
            if str_eq(self.queue[i].track_id.as_str(), item.track_id.as_str()) {
                return Err(AddTrackError::QueueContainsTrack(i));
            }
            i = i + 1;
        }
        proof {
            assert(first_track_index(self.queue@, item.track_id@) == -1);
        }
        // per-user limit
        if !is_moderator {
            let mine = self.count_user_tracks(requester);
            if mine >= self.max_user_tracks {
                return Err(AddTrackError::TooManyUserTracks(mine));
            }
        }
        // capacity
        if n >= self.max_queue {
            return Err(AddTrackError::QueueFull);
        }
        self.queue.push(item);
        Ok(n)
    }

    /// How many queued songs this user requested.
    pub fn count_user_tracks(&self, u: &str) -> (r: usize)
        ensures
            r == count_by_user(self.queue@, u@),
    {
        let n = self.queue.len();
        let mut count: usize = 0;
        let mut i: usize = 0;
        proof {
            assert(self.queue@.take(0) =~= Seq::<SongItem>::empty());
            lemma_count_by_user_bound(self.queue@, u@);
        }
        while i < n
            invariant
                n == self.queue@.len(),
                i <= n,
                count == count_by_user(self.queue@.take(i as int), u@),
                count <= i,
            decreases n - i,
        {
            proof {
                assert(self.queue@.take(i + 1).drop_last() =~= self.queue@.take(i as int));
                assert(self.queue@.take(i + 1).last() == self.queue@[i as int]);
            }
            let matches = match &self.queue[i].user {
                Some(s) => str_eq(s.as_str(), u),
                None => false,
            };
            if matches {
                count = count + 1;
            }
            i = i + 1;
        }
        proof {
            assert(self.queue@.take(i as int) =~= self.queue@);
        }
        count
    }
}

/// Play time is never negative.
proof fn lemma_total_duration_nonneg(items: Seq<SongItem>)
    ensures
        total_duration(items) >= 0,
    decreases items.len(),
{
    if items.len() > 0 {
        lemma_total_duration_nonneg(items.drop_last());
    }
}

/// A user's songs are no more than the whole queue.
proof fn lemma_count_by_user_bound(items: Seq<SongItem>, u: Seq<char>)
    ensures
        0 <= count_by_user(items, u) <= items.len(),
    decreases items.len(),
{
    if items.len() > 0 {
        lemma_count_by_user_bound(items.drop_last(), u);
    }
}

} // verus!
