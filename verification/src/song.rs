//! Handler for the `!song` command: queue display, deletion, volume,
//! playback control and requests.
//!
//! Everything that only touches the modeled player state is decided and done
//! here.  Resolving a request against the catalog provider is slow platform
//! work: the handler records a task, and the process later feeds the outcome
//! to `respond_add_track_outcome`.

use vstd::prelude::*;
use crate::command::{check_moderator, HandlerError, Task, TaskV};
use crate::player::{AddTrackError, PlayerModel, SongItem, last_user_index, total_duration};
use crate::sender::{MessageV, Sender, User, respond_text};
use crate::text::{
    all_digits, chars_of, dec_of, dec_value, display_u64, human_time, human_time_of, join_strings,
    join_with, lower_of, lowercase, parse_u32_at, parse_usize_at, str_eq,
};
use crate::tokens::Line;

verus! {

/// One line of the queue display: position, song, and requester when known.
pub open spec fn song_line(i: int, it: SongItem) -> Seq<char> {
    let base = "#"@ + dec_of(i as nat) + ": "@ + it.what_view();
    match it.user {
        Some(u) => base + " ("@ + u@ + ")"@,
        None => base,
    }
}

/// The numbered lines of a queue display.
pub open spec fn song_lines(items: Seq<SongItem>) -> Seq<Seq<char>> {
    Seq::new(items.len(), |i: int| song_line(i, items[i]))
}

/// The queue display for the shown items: empty-queue notice, or the lines
/// joined, with a trailing count when more songs were held back.
pub open spec fn songs_reply(items: Seq<SongItem>, has_more: Option<usize>) -> Seq<char> {
    if items.len() == 0 {
        "Song queue is empty."@
    } else {
        match has_more {
            Some(m) => join_with(song_lines(items), "; "@) + " ... and "@ + dec_of(m as nat)
                + " more."@,
            None => join_with(song_lines(items), "; "@) + "."@,
        }
    }
}

/// Display the given songs to the user: each with its queue position and
/// requester, joined by semicolons; an empty collection gets the empty-queue
/// notice, and `has_more` adds a note that more songs were held back.
pub fn display_songs(
    sender: &mut Sender,
    user: &User,
    has_more: Option<usize>,
    items: &Vec<SongItem>,
)
    ensures
        final(sender).queue_view() == old(sender).queue_view().push(
            MessageV::Privmsg {
                target: user.target@,
                text: respond_text(user.name@, songs_reply(items@, has_more)),
            },
        ),
{
    let n = items.len();
    if n == 0 {
        proof {
            assert(songs_reply(items@, has_more) == "Song queue is empty."@);
        }
        user.respond(sender, "Song queue is empty.");
        return;
    }
    let mut lines: Vec<String> = Vec::new();
    let mut i: usize = 0;
    proof {
        assert(lines.deep_view() =~= song_lines(items@).take(0));
    }
    while i < n
        invariant
            n == items@.len(),
            i <= n,
            lines.deep_view() =~= song_lines(items@).take(i as int),
        decreases n - i,
    {
        let mut l = String::new();
        l.append("#");
        let d = display_u64(i as u64);
        l.append(d.as_str());
        l.append(": ");
        let what = items[i].what();
        l.append(what.as_str());
        match &items[i].user {
            Some(u) => {
                l.append(" (");
                l.append(u.as_str());
                l.append(")");
            }
            None => {}
        }
        proof {
            assert(l@ =~= song_line(i as int, items@[i as int]));
        }
        let ghost prev = lines.deep_view();
        let ghost lv = l@;
        lines.push(l);
        i = i + 1;
        proof {
            assert(lines.deep_view() =~= prev.push(lv));
            assert(song_lines(items@).take(i as int) =~= song_lines(items@).take(i - 1).push(
                song_line(i - 1, items@[i - 1]),
            ));
            assert(lines.deep_view() =~= song_lines(items@).take(i as int));
        }
    }
    proof {
        assert(lines.deep_view() =~= song_lines(items@));
    }
    let joined = join_strings(&lines, "; ");
    let mut m = joined;
    match has_more {
        Some(more) => {
            m.append(" ... and ");
            let d = display_u64(more as u64);
            m.append(d.as_str());
            m.append(" more.");
            proof {
                assert(m@ =~= songs_reply(items@, has_more));
            }
        }
        None => {
            m.append(".");
            proof {
                assert(m@ =~= songs_reply(items@, has_more));
            }
        }
    }
    user.respond_owned(sender, m);
}

/// A queue position argument, parsed: positions are one-based, and the
/// current song (position zero) cannot be removed.
pub open spec fn queue_position_of(s: Seq<char>) -> Option<int> {
    if s.len() > 0 && all_digits(s) && dec_value(s) <= usize::MAX {
        if dec_value(s) == 0 {
            None
        } else {
            Some(dec_value(s) - 1)
        }
    } else {
        None
    }
}

/// Parse a one-based queue position.  Zero and non-numbers are refused with
/// a scripted reply.
pub fn parse_queue_position(user: &User, sender: &mut Sender, n: &str) -> (r: Result<
    usize,
    HandlerError,
>)
    ensures
        match queue_position_of(n@) {
            Some(p) => {
                &&& r == Result::<usize, HandlerError>::Ok(p as usize)
                &&& final(sender).queue_view() == old(sender).queue_view()
            },
            None => {
                &&& r == Result::<usize, HandlerError>::Err(HandlerError::BadCommand)
                &&& final(sender).queue_view() == old(sender).queue_view().push(
                    MessageV::Privmsg {
                        target: user.target@,
                        text: respond_text(
                            user.name@,
                            if n@.len() > 0 && all_digits(n@) && dec_value(n@) <= usize::MAX {
                                "Can't remove the current song :("@
                            } else {
                                "Expected whole number argument"@
                            },
                        ),
                    },
                )
            },
        },
{
    let w = chars_of(n);
    match parse_usize_at(&w, 0) {
        Some(0) => {
            proof {
                assert(w@.skip(0) =~= n@);
            }
            user.respond(sender, "Can't remove the current song :(");
            Err(HandlerError::BadCommand)
        }
        Some(v) => {
            proof {
                assert(w@.skip(0) =~= n@);
            }
            Ok(v - 1)
        }
        None => {
            proof {
                assert(w@.skip(0) =~= n@);
            }
            user.respond(sender, "Expected whole number argument");
            Err(HandlerError::BadCommand)
        }
    }
}

/// The volume a `!song volume` argument asks for, relative to the current
/// one: a leading `+` adds, a leading `-` subtracts (saturating at zero), a
/// bare number sets; the result is clamped to 100.  `None` when the number
/// part does not parse.
pub open spec fn volume_target(cur: int, arg: Seq<char>) -> Option<int> {
    if arg.len() > 0 && arg[0] == '+' {
        match parsed_u32(arg.drop_first()) {
            Some(v) => Some(min100(cur + v)),
            None => None,
        }
    } else if arg.len() > 0 && arg[0] == '-' {
        match parsed_u32(arg.drop_first()) {
            Some(v) => Some(if cur - v >= 0 { min100(cur - v) } else { 0 }),
            None => None,
        }
    } else {
        match parsed_u32(arg) {
            Some(v) => Some(min100(v)),
            None => None,
        }
    }
}

/// A decimal string's value, when it is one and fits a `u32`.
pub open spec fn parsed_u32(s: Seq<char>) -> Option<int> {
    if s.len() > 0 && all_digits(s) && dec_value(s) <= u32::MAX {
        Some(dec_value(s) as int)
    } else {
        None
    }
}

/// The smaller of `v` and 100.
pub open spec fn min100(v: int) -> int {
    if v >= 100 {
        100
    } else {
        v
    }
}

/// The scripted reply for the outcome of one song request.
pub open spec fn add_track_reply(r: Result<(usize, SongItem), AddTrackError>) -> Seq<char> {
    match r {
        Ok((pos, item)) => "Added "@ + item.what_view() + " at position #"@ + dec_of(
            (pos + 1) as nat,
        ) + "!"@,
        Err(AddTrackError::QueueContainsTrack(pos)) => "Player already contains that track (position #"@
            + dec_of((pos + 1) as nat) + ")."@,
        Err(AddTrackError::TooManyUserTracks(count)) => {
            if count == 0 {
                "Unfortunately you are not allowed to add tracks :("@
            } else if count == 1 {
                "<3 your enthusiasm, but you already have a track in the queue."@
            } else {
                "<3 your enthusiasm, but you already have "@ + dec_of(count as nat)
                    + " tracks in the queue."@
            }
        },
        Err(AddTrackError::QueueFull) => "Player is full, try again later!"@,
        Err(AddTrackError::Failed) => "There was a problem adding your song :("@,
    }
}

/// Report the outcome of a song request to its requester, with the scripted
/// reply for each case.
pub fn respond_add_track_outcome(
    user: &User,
    sender: &mut Sender,
    outcome: Result<(usize, SongItem), AddTrackError>,
) -> (r: Result<(usize, SongItem), AddTrackError>)
    requires
        match outcome {
            Ok((pos, _)) => pos < usize::MAX,
            Err(AddTrackError::QueueContainsTrack(pos)) => pos < usize::MAX,
            _ => true,
        },
    ensures
        r == outcome,
        final(sender).queue_view() == old(sender).queue_view().push(
            MessageV::Privmsg {
                target: user.target@,
                text: respond_text(user.name@, add_track_reply(outcome)),
            },
        ),
{
    match &outcome {
        Ok((pos, item)) => {
            let mut m = String::new();
            m.append("Added ");
            let what = item.what();
            m.append(what.as_str());
            m.append(" at position #");
            let d = display_u64((*pos + 1) as u64);
            m.append(d.as_str());
            m.append("!");
            proof {
                assert(m@ =~= add_track_reply(outcome));
            }
            user.respond_owned(sender, m);
        }
        Err(AddTrackError::QueueContainsTrack(pos)) => {
            let mut m = String::new();
            m.append("Player already contains that track (position #");
            let d = display_u64((*pos + 1) as u64);
            m.append(d.as_str());
            m.append(").");
            proof {
                assert(m@ =~= add_track_reply(outcome));
            }
            user.respond_owned(sender, m);
        }
        Err(AddTrackError::TooManyUserTracks(count)) => {
            if *count == 0 {
                user.respond(sender, "Unfortunately you are not allowed to add tracks :(");
            } else if *count == 1 {
                user.respond(
                    sender,
                    "<3 your enthusiasm, but you already have a track in the queue.",
                );
            } else {
                let mut m = String::new();
                m.append("<3 your enthusiasm, but you already have ");
                let d = display_u64(*count as u64);
                m.append(d.as_str());
                m.append(" tracks in the queue.");
                proof {
                    assert(m@ =~= add_track_reply(outcome));
                }
                user.respond_owned(sender, m);
            }
        }
        Err(AddTrackError::QueueFull) => {
            user.respond(sender, "Player is full, try again later!");
        }
        Err(AddTrackError::Failed) => {
            user.respond(sender, "There was a problem adding your song :(");
        }
    }
    outcome
}

/// The scripted reply when a request matched no track at all.
pub fn respond_no_track(user: &User, sender: &mut Sender)
    ensures
        final(sender).queue_view() == old(sender).queue_view().push(
            MessageV::Privmsg {
                target: user.target@,
                text: respond_text(
                    user.name@,
                    "Could not find a track matching your request, sorry :("@,
                ),
            },
        ),
{
    user.respond(sender, "Could not find a track matching your request, sorry :(");
}

/// The reply to a song deletion attempt.
pub open spec fn removed_reply(removed: Option<SongItem>) -> Seq<char> {
    match removed {
        None => "No song removed, sorry :("@,
        Some(item) => "Removed: "@ + item.what_view() + "!"@,
    }
}

fn respond_removed(user: &User, sender: &mut Sender, removed: &Option<SongItem>)
    ensures
        final(sender).queue_view() == old(sender).queue_view().push(
            MessageV::Privmsg {
                target: user.target@,
                text: respond_text(user.name@, removed_reply(*removed)),
            },
        ),
{
    match removed {
        None => {
            user.respond(sender, "No song removed, sorry :(");
        }
        Some(item) => {
            let mut m = String::new();
            m.append("Removed: ");
            let what = item.what();
            m.append(what.as_str());
            m.append("!");
            proof {
                assert(m@ =~= removed_reply(*removed));
            }
            user.respond_owned(sender, m);
        }
    }
}

/// The reply to `!song current`.
pub open spec fn current_reply(current: Option<SongItem>) -> Seq<char> {
    match current {
        None => "No song :("@,
        Some(item) => match item.user {
            Some(u) => "Current song: "@ + item.what_view() + ", requested by "@ + u@ + "."@,
            None => "Current song: "@ + item.what_view(),
        },
    }
}

/// The reply to `!song length`.
pub open spec fn length_reply(count: int, secs: nat) -> Seq<char> {
    if count == 0 {
        "No songs in queue :("@
    } else if count == 1 {
        "One song in queue with "@ + human_time_of(secs) + " of play time."@
    } else {
        dec_of(count as nat) + " songs in queue with "@ + human_time_of(secs) + " of play time."@
    }
}

/// Handler state of the `!song` command: the modeled player it controls.
pub struct Song {
    pub player: PlayerModel,
}

/// The non-queue fields of the player are untouched.
pub open spec fn keeps_meta(a: PlayerModel, b: PlayerModel) -> bool {
    &&& b.current == a.current
    &&& b.volume == a.volume
    &&& b.playing == a.playing
    &&& b.max_queue == a.max_queue
    &&& b.max_user_tracks == a.max_user_tracks
}

/// The player state is unchanged.
pub open spec fn unchanged_player(a: PlayerModel, b: PlayerModel) -> bool {
    b.queue@ == a.queue@ && keeps_meta(a, b)
}

/// One song was removed at `idx`, or nothing happened when `idx` is -1.
pub open spec fn removal_rel(a: PlayerModel, b: PlayerModel, idx: int, removed: Option<
    SongItem,
>) -> bool {
    if idx == -1 {
        removed is None && unchanged_player(a, b)
    } else {
        &&& 0 <= idx < a.queue@.len()
        &&& removed == Some(a.queue@[idx])
        &&& b.queue@ == a.queue@.remove(idx)
        &&& keeps_meta(a, b)
    }
}

/// The newest queued song was removed, or nothing on an empty queue.
pub open spec fn removal_last_rel(a: PlayerModel, b: PlayerModel, removed: Option<
    SongItem,
>) -> bool {
    if a.queue@.len() == 0 {
        removed is None && unchanged_player(a, b)
    } else {
        &&& removed == Some(a.queue@.last())
        &&& b.queue@ == a.queue@.drop_last()
        &&& keeps_meta(a, b)
    }
}

/// One message was appended to the sender queue: the reply `text` to the
/// user.
pub open spec fn replied(
    pre: Seq<MessageV>,
    post: Seq<MessageV>,
    user: User,
    text: Seq<char>,
) -> bool {
    post == pre.push(
        MessageV::Privmsg { target: user.target@, text: respond_text(user.name@, text) },
    )
}

/// The song at `idx`, or nothing when `idx` is -1.
pub open spec fn removed_at(p: PlayerModel, idx: int) -> Option<SongItem> {
    if idx == -1 {
        None
    } else {
        Some(p.queue@[idx])
    }
}

/// The last index a user's song can have is within the queue.
proof fn lemma_last_user_index_bounds(items: Seq<SongItem>, u: Seq<char>)
    ensures
        -1 <= last_user_index(items, u) < items.len(),
    decreases items.len(),
{
    if items.len() > 0 && !items.last().by_user(u) {
        lemma_last_user_index_bounds(items.drop_last(), u);
    }
}

/// What one `!song` dispatch does, relating the player, sender queue and
/// task list before and after, for the subcommand at word `k` of the line.
pub open spec fn song_handle_post(
    p0: PlayerModel,
    p1: PlayerModel,
    q0: Seq<MessageV>,
    q1: Seq<MessageV>,
    t0: Seq<TaskV>,
    t1: Seq<TaskV>,
    user: User,
    line: Line,
    k: int,
    is_mod: bool,
    r: Result<(), HandlerError>,
) -> bool {
    let w = line.words_view();
    let refusal = MessageV::Privmsg {
        target: user.target@,
        text: crate::command::moderator_refusal(user.name@),
    };
    if k >= w.len() {
        &&& r is Ok
        &&& unchanged_player(p0, p1)
        &&& t1 == t0
        &&& replied(q0, q1, user, "Expected: skip, request, or toggle."@)
    } else if w[k] == "mine"@ {
        &&& r is Ok
        &&& unchanged_player(p0, p1)
        &&& t1 == t0
        &&& q1 == q0
    } else if w[k] == "current"@ {
        &&& r is Ok
        &&& unchanged_player(p0, p1)
        &&& t1 == t0
        &&& replied(q0, q1, user, current_reply(p0.current))
    } else if w[k] == "length"@ {
        &&& r is Ok
        &&& unchanged_player(p0, p1)
        &&& t1 == t0
        &&& replied(
            q0,
            q1,
            user,
            length_reply(
                p0.queue@.len() as int,
                (if total_duration(p0.queue@) <= u64::MAX {
                    total_duration(p0.queue@)
                } else {
                    u64::MAX as int
                }) as nat,
            ),
        )
    } else if w[k] == "skip"@ {
        if !is_mod {
            &&& r == Result::<(), HandlerError>::Err(HandlerError::ModeratorRequired)
            &&& unchanged_player(p0, p1)
            &&& t1 == t0
            &&& q1 == q0.push(refusal)
        } else {
            &&& r is Ok
            &&& t1 == t0
            &&& q1 == q0
            &&& if p0.queue@.len() == 0 {
                p1 == (PlayerModel { current: None, ..p0 })
            } else {
                p1.queue@ == p0.queue@.drop_first() && p1.current == Some(p0.queue@[0])
                    && p1.volume == p0.volume && p1.playing == p0.playing
                    && p1.max_queue == p0.max_queue && p1.max_user_tracks
                    == p0.max_user_tracks
            }
        }
    } else if w[k] == "play"@ {
        if !is_mod {
            &&& r == Result::<(), HandlerError>::Err(HandlerError::ModeratorRequired)
            &&& unchanged_player(p0, p1)
            &&& t1 == t0
            &&& q1 == q0.push(refusal)
        } else {
            &&& r is Ok
            &&& t1 == t0
            &&& q1 == q0
            &&& p1 == (PlayerModel { playing: true, ..p0 })
        }
    } else if w[k] == "pause"@ {
        if !is_mod {
            &&& r == Result::<(), HandlerError>::Err(HandlerError::ModeratorRequired)
            &&& unchanged_player(p0, p1)
            &&& t1 == t0
            &&& q1 == q0.push(refusal)
        } else {
            &&& r is Ok
            &&& t1 == t0
            &&& q1 == q0
            &&& p1 == (PlayerModel { playing: false, ..p0 })
        }
    } else if w[k] == "toggle"@ {
        if !is_mod {
            &&& r == Result::<(), HandlerError>::Err(HandlerError::ModeratorRequired)
            &&& unchanged_player(p0, p1)
            &&& t1 == t0
            &&& q1 == q0.push(refusal)
        } else {
            &&& r is Ok
            &&& t1 == t0
            &&& q1 == q0
            &&& p1 == (PlayerModel { playing: !p0.playing, ..p0 })
        }
    } else if w[k] == "volume"@ {
        &&& t1 == t0
        &&& if k + 1 >= w.len() {
            &&& r is Ok
            &&& unchanged_player(p0, p1)
            &&& replied(
                q0,
                q1,
                user,
                "Current volume: "@ + dec_of(p0.volume as nat) + "."@,
            )
        } else if !is_mod {
            &&& r == Result::<(), HandlerError>::Err(HandlerError::ModeratorRequired)
            &&& unchanged_player(p0, p1)
            &&& q1 == q0.push(refusal)
        } else {
            match volume_target(p0.volume as int, w[k + 1]) {
                Some(v) => {
                    &&& r is Ok
                    &&& p1 == (PlayerModel { volume: v as u32, ..p0 })
                    &&& replied(
                        q0,
                        q1,
                        user,
                        "Volume set to "@ + dec_of(v as nat) + "."@,
                    )
                },
                None => {
                    &&& r == Result::<(), HandlerError>::Err(HandlerError::BadCommand)
                    &&& unchanged_player(p0, p1)
                    &&& replied(q0, q1, user, "expected numeric argument"@)
                },
            }
        }
    } else if w[k] == "request"@ {
        &&& unchanged_player(p0, p1)
        &&& if k + 1 >= w.len() {
            &&& r == Result::<(), HandlerError>::Err(HandlerError::BadCommand)
            &&& t1 == t0
            &&& replied(q0, q1, user, "expected: !song request <id>|<text>"@)
        } else {
            &&& r is Ok
            &&& q1 == q0
            &&& t1 == t0.push(
                TaskV::SearchTrack {
                    channel: user.target@,
                    query: line.rest_view(k + 1),
                    requester: user.name@,
                    is_moderator: is_mod,
                },
            )
        }
    } else if w[k] == "list"@ {
        &&& t1 == t0
        &&& if k + 1 < w.len() && !is_mod {
            &&& r == Result::<(), HandlerError>::Err(HandlerError::ModeratorRequired)
            &&& unchanged_player(p0, p1)
            &&& q1 == q0.push(refusal)
        } else {
            let limit = if k + 1 < w.len() {
                match parsed_u32(w[k + 1]) {
                    Some(v) => v,
                    None => 3,
                }
            } else {
                3
            };
            let shown = if p0.queue@.len() <= limit {
                p0.queue@.len() as int
            } else {
                limit
            };
            &&& r is Ok
            &&& unchanged_player(p0, p1)
            &&& replied(
                q0,
                q1,
                user,
                songs_reply(
                    p0.queue@.take(shown),
                    if p0.queue@.len() > limit {
                        Some(1usize)
                    } else {
                        None
                    },
                ),
            )
        }
    } else if w[k] == "delete"@ {
        &&& t1 == t0
        &&& if k + 1 >= w.len() {
            &&& r == Result::<(), HandlerError>::Err(HandlerError::BadCommand)
            &&& unchanged_player(p0, p1)
            &&& replied(q0, q1, user, "Expected: last, last <user>, or mine"@)
        } else if w[k + 1] == "mine"@ {
            let idx = last_user_index(p0.queue@, user.name@);
            let removed = removed_at(p0, idx);
            &&& removal_rel(p0, p1, idx, removed)
            &&& r is Ok
            &&& replied(q0, q1, user, removed_reply(removed))
        } else if !is_mod {
            &&& r == Result::<(), HandlerError>::Err(HandlerError::ModeratorRequired)
            &&& unchanged_player(p0, p1)
            &&& q1 == q0.push(refusal)
        } else if w[k + 1] == "last"@ {
            if k + 2 < w.len() {
                let idx = last_user_index(p0.queue@, lower_of(w[k + 2]));
                let removed = removed_at(p0, idx);
                &&& removal_rel(p0, p1, idx, removed)
                &&& r is Ok
                &&& replied(q0, q1, user, removed_reply(removed))
            } else {
                let removed = if p0.queue@.len() == 0 {
                    None
                } else {
                    Some(p0.queue@.last())
                };
                &&& removal_last_rel(p0, p1, removed)
                &&& r is Ok
                &&& replied(q0, q1, user, removed_reply(removed))
            }
        } else {
            match queue_position_of(w[k + 1]) {
                Some(p) => {
                    let idx = if p < p0.queue@.len() {
                        p
                    } else {
                        -1
                    };
                    let removed = removed_at(p0, idx);
                    &&& removal_rel(p0, p1, idx, removed)
                    &&& r is Ok
                    &&& replied(q0, q1, user, removed_reply(removed))
                },
                None => {
                    &&& r == Result::<(), HandlerError>::Err(HandlerError::BadCommand)
                    &&& unchanged_player(p0, p1)
                    &&& replied(
                        q0,
                        q1,
                        user,
                        if w[k + 1].len() > 0 && all_digits(w[k + 1]) && dec_value(
                            w[k + 1],
                        ) <= usize::MAX {
                            "Can't remove the current song :("@
                        } else {
                            "Expected whole number argument"@
                        },
                    )
                },
            }
        }
    } else {
        &&& r is Ok
        &&& unchanged_player(p0, p1)
        &&& t1 == t0
        &&& replied(q0, q1, user, "Expected: skip, request, or toggle."@)
    }
}

impl Song {
    fn handle_volume(
        &mut self,
        is_mod: bool,
        user: &User,
        line: &Line,
        k: usize,
        sender: &mut Sender,
    ) -> (r: Result<(), HandlerError>)
        requires
            line.wf(),
            old(self).player.wf(),
            k + 2 <= usize::MAX,
        ensures
            final(self).player.wf(),
            ({
                let w = line.words_view();
                let p0 = old(self).player;
                let p1 = final(self).player;
                let q0 = old(sender).queue_view();
                let q1 = final(sender).queue_view();
                if k + 1 >= w.len() {
                    &&& r is Ok
                    &&& unchanged_player(p0, p1)
                    &&& replied(q0, q1, *user, "Current volume: "@ + dec_of(p0.volume as nat) + "."@)
                } else if !is_mod {
                    &&& r == Result::<(), HandlerError>::Err(HandlerError::ModeratorRequired)
                    &&& unchanged_player(p0, p1)
                    &&& q1 == q0.push(
                        MessageV::Privmsg {
                            target: user.target@,
                            text: crate::command::moderator_refusal(user.name@),
                        },
                    )
                } else {
                    match volume_target(p0.volume as int, w[k + 1]) {
                        Some(v) => {
                            &&& r is Ok
                            &&& p1 == (PlayerModel { volume: v as u32, ..p0 })
                            &&& replied(q0, q1, *user, "Volume set to "@ + dec_of(v as nat) + "."@)
                        },
                        None => {
                            &&& r == Result::<(), HandlerError>::Err(HandlerError::BadCommand)
                            &&& unchanged_player(p0, p1)
                            &&& replied(q0, q1, *user, "expected numeric argument"@)
                        },
                    }
                }
            }),
    {
        let arg = match line.word(k + 1) {
            None => {
                let mut m = String::new();
                m.append("Current volume: ");
                let d = display_u64(self.player.current_volume() as u64);
                m.append(d.as_str());
                m.append(".");
                proof {
                    assert(m@ =~= "Current volume: "@ + dec_of(self.player.volume as nat) + "."@);
                }
                user.respond_owned(sender, m);
                return Ok(());
            }
            Some(arg) => arg,
        };
        match check_moderator(is_mod, user, sender) {
            Ok(()) => {}
            Err(e) => {
                return Err(e);
            }
        }
        let a = chars_of(arg.as_str());
        let ghost av = line.words_view()[k + 1];
        proof {
            assert(a@ == av);
        }
        let mut start: usize = 0;
        let mut mode: u8 = 0;  // 0 absolute, 1 add, 2 subtract
        if a.len() > 0 && a[0] == '+' {
            start = 1;
            mode = 1;
        } else if a.len() > 0 && a[0] == '-' {
            start = 1;
            mode = 2;
        }
        let parsed = parse_u32_at(&a, start);
        proof {
            if start == 1 {
                assert(a@.skip(1) =~= av.drop_first());
            } else {
                assert(a@.skip(0) =~= av);
            }
        }
        let v = match parsed {
            Some(v) => v,
            None => {
                proof {
                    assert(volume_target(self.player.volume as int, av) is None);
                }
                user.respond(sender, "expected numeric argument");
                return Err(HandlerError::BadCommand);
            }
        };
        let cur = self.player.current_volume();
        let raw: u32 = if mode == 1 {
            cur.saturating_add(v)
        } else if mode == 2 {
            cur.saturating_sub(v)
        } else {
            v
        };
        let tv: u32 = if raw > 100 {
            100
        } else {
            raw
        };
        proof {
            assert(volume_target(self.player.volume as int, av) == Some(tv as int));
        }
        let mut m = String::new();
        m.append("Volume set to ");
        let d = display_u64(tv as u64);
        m.append(d.as_str());
        m.append(".");
        proof {
            assert(m@ =~= "Volume set to "@ + dec_of(tv as nat) + "."@);
        }
        user.respond_owned(sender, m);
        self.player.set_volume(tv);
        Ok(())
    }

    fn handle_list(
        &mut self,
        is_mod: bool,
        user: &User,
        line: &Line,
        k: usize,
        sender: &mut Sender,
    ) -> (r: Result<(), HandlerError>)
        requires
            line.wf(),
            old(self).player.wf(),
            k + 2 <= usize::MAX,
        ensures
            final(self).player.wf(),
            ({
                let w = line.words_view();
                let p0 = old(self).player;
                let p1 = final(self).player;
                let q0 = old(sender).queue_view();
                let q1 = final(sender).queue_view();
                if k + 1 < w.len() && !is_mod {
                    &&& r == Result::<(), HandlerError>::Err(HandlerError::ModeratorRequired)
                    &&& unchanged_player(p0, p1)
                    &&& q1 == q0.push(
                        MessageV::Privmsg {
                            target: user.target@,
                            text: crate::command::moderator_refusal(user.name@),
                        },
                    )
                } else {
                    let limit = if k + 1 < w.len() {
                        match parsed_u32(w[k + 1]) {
                            Some(v) => v,
                            None => 3,
                        }
                    } else {
                        3
                    };
                    let shown = if p0.queue@.len() <= limit {
                        p0.queue@.len() as int
                    } else {
                        limit
                    };
                    &&& r is Ok
                    &&& unchanged_player(p0, p1)
                    &&& replied(
                        q0,
                        q1,
                        *user,
                        songs_reply(
                            p0.queue@.take(shown),
                            if p0.queue@.len() > limit {
                                Some(1usize)
                            } else {
                                None
                            },
                        ),
                    )
                }
            }),
    {
        let mut limit: usize = 3;
        match line.word(k + 1) {
            Some(arg) => {
                match check_moderator(is_mod, user, sender) {
                    Ok(()) => {}
                    Err(e) => {
                        return Err(e);
                    }
                }
                let a = chars_of(arg.as_str());
                proof {
                    assert(a@.skip(0) =~= a@);
                }
                match parse_u32_at(&a, 0) {
                    Some(v) => {
                        limit = v as usize;
                        proof {
                            assert(parsed_u32(line.words_view()[k + 1]) == Some(v as int));
                        }
                    }
                    None => {
                        proof {
                            assert(parsed_u32(line.words_view()[k + 1]) is None);
                        }
                    }
                }
            }
            None => {}
        }
        let qlen = self.player.queue.len();
        let shown = if qlen <= limit {
            qlen
        } else {
            limit
        };
        let mut items: Vec<SongItem> = Vec::new();
        let mut t: usize = 0;
        proof {
            assert(items@ =~= self.player.queue@.take(0));
        }
        while t < shown
            invariant
                shown <= qlen == self.player.queue@.len(),
                t <= shown,
                items@ =~= self.player.queue@.take(t as int),
            decreases shown - t,
        {
            items.push(self.player.queue[t].duplicate());
            t = t + 1;
            proof {
                assert(items@ =~= self.player.queue@.take(t as int));
            }
        }
        let has_more = if qlen > limit {
            Some(1usize)
        } else {
            None
        };
        display_songs(sender, user, has_more, &items);
        Ok(())
    }

    fn handle_delete(
        &mut self,
        is_mod: bool,
        user: &User,
        line: &Line,
        k: usize,
        sender: &mut Sender,
    ) -> (r: Result<(), HandlerError>)
        requires
            line.wf(),
            old(self).player.wf(),
            k + 2 <= usize::MAX,
        ensures
            final(self).player.wf(),
            ({
                let w = line.words_view();
                let p0 = old(self).player;
                let p1 = final(self).player;
                let q0 = old(sender).queue_view();
                let q1 = final(sender).queue_view();
                if k + 1 >= w.len() {
                    &&& r == Result::<(), HandlerError>::Err(HandlerError::BadCommand)
                    &&& unchanged_player(p0, p1)
                    &&& replied(q0, q1, *user, "Expected: last, last <user>, or mine"@)
                } else if w[k + 1] == "mine"@ {
                    let idx = last_user_index(p0.queue@, user.name@);
                    let removed = removed_at(p0, idx);
                    &&& removal_rel(p0, p1, idx, removed)
                    &&& r is Ok
                    &&& replied(q0, q1, *user, removed_reply(removed))
                } else if !is_mod {
                    &&& r == Result::<(), HandlerError>::Err(HandlerError::ModeratorRequired)
                    &&& unchanged_player(p0, p1)
                    &&& q1 == q0.push(
                        MessageV::Privmsg {
                            target: user.target@,
                            text: crate::command::moderator_refusal(user.name@),
                        },
                    )
                } else if w[k + 1] == "last"@ {
                    if k + 2 < w.len() {
                        let idx = last_user_index(p0.queue@, lower_of(w[k + 2]));
                        let removed = removed_at(p0, idx);
                        &&& removal_rel(p0, p1, idx, removed)
                        &&& r is Ok
                        &&& replied(q0, q1, *user, removed_reply(removed))
                    } else {
                        let removed = if p0.queue@.len() == 0 {
                            None
                        } else {
                            Some(p0.queue@.last())
                        };
                        &&& removal_last_rel(p0, p1, removed)
                        &&& r is Ok
                        &&& replied(q0, q1, *user, removed_reply(removed))
                    }
                } else {
                    match queue_position_of(w[k + 1]) {
                        Some(p) => {
                            let idx = if p < p0.queue@.len() {
                                p
                            } else {
                                -1
                            };
                            let removed = removed_at(p0, idx);
                            &&& removal_rel(p0, p1, idx, removed)
                            &&& r is Ok
                            &&& replied(q0, q1, *user, removed_reply(removed))
                        },
                        None => {
                            &&& r == Result::<(), HandlerError>::Err(HandlerError::BadCommand)
                            &&& unchanged_player(p0, p1)
                            &&& replied(
                                q0,
                                q1,
                                *user,
                                if w[k + 1].len() > 0 && all_digits(w[k + 1]) && dec_value(
                                    w[k + 1],
                                ) <= usize::MAX {
                                    "Can't remove the current song :("@
                                } else {
                                    "Expected whole number argument"@
                                },
                            )
                        },
                    }
                }
            }),
    {
        proof {
            reveal_strlit("mine");
            reveal_strlit("last");
        }
        let arg = match line.word(k + 1) {
            None => {
                user.respond(sender, "Expected: last, last <user>, or mine");
                return Err(HandlerError::BadCommand);
            }
            Some(arg) => arg,
        };
        proof {
            lemma_last_user_index_bounds(self.player.queue@, user.name@);
        }
        if str_eq_lit(arg, "mine") {
            let removed = self.player.remove_last_by_user(user.name.as_str());
            respond_removed(user, sender, &removed);
            return Ok(());
        }
        match check_moderator(is_mod, user, sender) {
            Ok(()) => {}
            Err(e) => {
                return Err(e);
            }
        }
        if str_eq_lit(arg, "last") {
            match line.word(k + 2) {
                Some(last_user) => {
                    let lu = lowercase(last_user.as_str());
                    proof {
                        lemma_last_user_index_bounds(
                            self.player.queue@,
                            lower_of(line.words_view()[k + 2]),
                        );
                    }
                    let removed = self.player.remove_last_by_user(lu.as_str());
                    respond_removed(user, sender, &removed);
                    Ok(())
                }
                None => {
                    let removed = self.player.remove_last();
                    respond_removed(user, sender, &removed);
                    Ok(())
                }
            }
        } else {
            let p = match parse_queue_position(user, sender, arg.as_str()) {
                Ok(p) => p,
                Err(e) => {
                    return Err(e);
                }
            };
            let removed = self.player.remove_at(p);
            respond_removed(user, sender, &removed);
            Ok(())
        }
    }

    /// Dispatch one `!song` subcommand, starting at word `k` of the line.
    ///
    /// Subcommands that change playback or other users' requests demand a
    /// moderator; a non-moderator gets the scripted refusal and a handled
    /// failure that aborts only this command.
    #[verifier::rlimit(100)]
    #[verifier::spinoff_prover]
    pub fn handle(
        &mut self,
        is_mod: bool,
        user: &User,
        line: &Line,
        k: usize,
        sender: &mut Sender,
        tasks: &mut Vec<Task>,
    ) -> (r: Result<(), HandlerError>)
        requires
            line.wf(),
            old(self).player.wf(),
            k + 2 <= usize::MAX,
        ensures
            final(self).player.wf(),
            song_handle_post(
                old(self).player,
                final(self).player,
                old(sender).queue_view(),
                final(sender).queue_view(),
                old(tasks).deep_view(),
                final(tasks).deep_view(),
                *user,
                *line,
                k as int,
                is_mod,
                r,
            ),
    {
        let sub = match line.word(k) {
            Some(s) => s,
            None => {
                user.respond(sender, "Expected: skip, request, or toggle.");
                return Ok(());
            }
        };
        if str_eq_lit(sub, "mine") {
            Ok(())
        } else if str_eq_lit(sub, "current") {
            match &self.player.current {
                None => {
                    user.respond(sender, "No song :(");
                }
                Some(item) => {
                    let mut m = String::new();
                    m.append("Current song: ");
                    let what = item.what();
                    m.append(what.as_str());
                    match &item.user {
                        Some(u) => {
                            m.append(", requested by ");
                            m.append(u.as_str());
                            m.append(".");
                        }
                        None => {}
                    }
                    proof {
                        assert(m@ =~= current_reply(self.player.current));
                    }
                    user.respond_owned(sender, m);
                }
            }
            Ok(())
        } else if str_eq_lit(sub, "length") {
            let (count, secs) = self.player.length();
            if count == 0 {
                user.respond(sender, "No songs in queue :(");
            } else if count == 1 {
                let mut m = String::new();
                m.append("One song in queue with ");
                let t = human_time(secs);
                m.append(t.as_str());
                m.append(" of play time.");
                proof {
                    assert(m@ =~= length_reply(count as int, secs as nat));
                }
                user.respond_owned(sender, m);
            } else {
                let mut m = display_u64(count as u64);
                m.append(" songs in queue with ");
                let t = human_time(secs);
                m.append(t.as_str());
                m.append(" of play time.");
                proof {
                    assert(m@ =~= length_reply(count as int, secs as nat));
                }
                user.respond_owned(sender, m);
            }
            Ok(())
        } else if str_eq_lit(sub, "skip") {
            match check_moderator(is_mod, user, sender) {
                Ok(()) => {}
                Err(e) => {
                    return Err(e);
                }
            }
            self.player.skip();
            Ok(())
        } else if str_eq_lit(sub, "play") {
            match check_moderator(is_mod, user, sender) {
                Ok(()) => {}
                Err(e) => {
                    return Err(e);
                }
            }
            self.player.play();
            Ok(())
        } else if str_eq_lit(sub, "pause") {
            match check_moderator(is_mod, user, sender) {
                Ok(()) => {}
                Err(e) => {
                    return Err(e);
                }
            }
            self.player.pause();
            Ok(())
        } else if str_eq_lit(sub, "toggle") {
            match check_moderator(is_mod, user, sender) {
                Ok(()) => {}
                Err(e) => {
                    return Err(e);
                }
            }
            self.player.toggle();
            Ok(())
        } else if str_eq_lit(sub, "volume") {
            self.handle_volume(is_mod, user, line, k, sender)
        } else if str_eq_lit(sub, "request") {
            match line.word(k + 1) {
                None => {
                    user.respond(sender, "expected: !song request <id>|<text>");
                    Err(HandlerError::BadCommand)
                }
                Some(_) => {
                    let ghost prev = tasks.deep_view();
                    let query = line.rest(k + 1).clone();
                    tasks.push(
                        Task::SearchTrack {
                            channel: user.target.clone(),
                            query,
                            requester: user.name.clone(),
                            is_moderator: is_mod,
                        },
                    );
                    proof {
                        assert(tasks.deep_view() =~= prev.push(
                            TaskV::SearchTrack {
                                channel: user.target@,
                                query: line.rest_view(k + 1),
                                requester: user.name@,
                                is_moderator: is_mod,
                            },
                        ));
                    }
                    Ok(())
                }
            }
        } else if str_eq_lit(sub, "list") {
            self.handle_list(is_mod, user, line, k, sender)
        } else if str_eq_lit(sub, "delete") {
            self.handle_delete(is_mod, user, line, k, sender)
        } else {
            user.respond(sender, "Expected: skip, request, or toggle.");
            Ok(())
        }
    }
}

/// Compare a word against a literal subcommand.
fn str_eq_lit(s: &String, lit: &str) -> (r: bool)
    ensures
        r == (s@ == lit@),
{
    str_eq(s.as_str(), lit)
}

} // verus!

