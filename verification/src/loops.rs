//! Decisions of the periodic loops and the player event bridge.
//!
//! The process drives each loop on its timer and performs the platform
//! calls; the functions here make the per-tick decisions.  A failed tick is
//! logged by the process and the loop simply waits for its next tick —
//! failures never terminate a loop, and a failed status refresh leaves the
//! previous value intact.

use vstd::prelude::*;
use crate::player::SongItem;
use crate::sender::{Message, MessageV, Sender};
use crate::stores::{balance_or_zero, sat_add_i32, union_distinct, balances_increment, Balances};
use crate::text::{dec_int_of, display_i64, seq_has_str};

verus! {

/// Whether `x` is among the present chat participants.
pub open spec fn present_in(
    x: Seq<char>,
    viewers: Seq<Seq<char>>,
    chat_mods: Seq<Seq<char>>,
    broadcaster: Seq<Seq<char>>,
) -> bool {
    seq_has_str(viewers, x) || seq_has_str(chat_mods, x) || seq_has_str(broadcaster, x)
}

/// The reward announcement.
pub open spec fn reward_announcement(reward: int, currency: Seq<char>) -> Seq<char> {
    "/me has given "@ + dec_int_of(reward) + " "@ + currency + " to all viewers!"@
}

/// One tick of a channel's reward loop, after the participant rosters were
/// fetched: an empty roster is a skip; otherwise every participant's balance
/// grows by `reward` at once, and channels that opted in get a public
/// announcement.  Returns whether anyone was rewarded.
pub fn reward_tick(
    balances: &mut Balances,
    sender: &mut Sender,
    channel: &str,
    notify: bool,
    currency: &str,
    reward: i32,
    viewers: &Vec<String>,
    chat_mods: &Vec<String>,
    broadcaster: &Vec<String>,
) -> (rewarded: bool)
    requires
        old(balances).wf(),
    ensures
        final(balances).wf(),
        !rewarded ==> {
            &&& forall|x: Seq<char>|
                !#[trigger] present_in(x, viewers.deep_view(), chat_mods.deep_view(), broadcaster.deep_view())
            &&& forall|c: Seq<char>, n: Seq<char>|
                final(balances).spec_get(c, n) == old(balances).spec_get(c, n)
            &&& final(sender).queue_view() == old(sender).queue_view()
        },
        rewarded ==> {
            &&& exists|x: Seq<char>|
                #[trigger] present_in(x, viewers.deep_view(), chat_mods.deep_view(), broadcaster.deep_view())
            &&& forall|x: Seq<char>|
                #[trigger] present_in(x, viewers.deep_view(), chat_mods.deep_view(), broadcaster.deep_view())
                    ==> final(balances).spec_get(channel@, x) == Some(
                    sat_add_i32(
                        balance_or_zero(old(balances).spec_get(channel@, x)),
                        reward as int,
                    ) as i32,
                )
            &&& forall|c: Seq<char>, n: Seq<char>|
                (c != channel@ || !present_in(
                    n,
                    viewers.deep_view(),
                    chat_mods.deep_view(),
                    broadcaster.deep_view(),
                )) ==> final(balances).spec_get(c, n) == old(balances).spec_get(c, n)
            &&& if notify {
                final(sender).queue_view() == old(sender).queue_view().push(
                    MessageV::Privmsg {
                        target: channel@,
                        text: reward_announcement(reward as int, currency@),
                    },
                )
            } else {
                final(sender).queue_view() == old(sender).queue_view()
            }
        },
{
    let users = union_distinct(viewers, chat_mods, broadcaster);
    if users.len() == 0 {
        proof {
            assert forall|x: Seq<char>|
                !#[trigger] present_in(x, viewers.deep_view(), chat_mods.deep_view(), broadcaster.deep_view()) by {
                if present_in(x, viewers.deep_view(), chat_mods.deep_view(), broadcaster.deep_view()) {
                    assert(seq_has_str(users.deep_view(), x));
                    let w = choose|w: int|
                        0 <= w < users.deep_view().len() && #[trigger] users.deep_view()[w] == x;
                }
            }
        }
        return false;
    }
    proof {
        assert(seq_has_str(users.deep_view(), users.deep_view()[0])) by {
            assert(users.deep_view()[0] == users.deep_view()[0]);
        }
        assert(present_in(
            users.deep_view()[0],
            viewers.deep_view(),
            chat_mods.deep_view(),
            broadcaster.deep_view(),
        ));
    }
    balances_increment(balances, channel, &users, reward);
    proof {
        assert forall|x: Seq<char>|
            #[trigger] present_in(x, viewers.deep_view(), chat_mods.deep_view(), broadcaster.deep_view())
                implies balances.spec_get(channel@, x) == Some(
            sat_add_i32(balance_or_zero(old(balances).spec_get(channel@, x)), reward as int) as i32,
        ) by {
            assert(seq_has_str(users.deep_view(), x));
        }
        assert forall|c: Seq<char>, n: Seq<char>|
            (c != channel@ || !present_in(
                n,
                viewers.deep_view(),
                chat_mods.deep_view(),
                broadcaster.deep_view(),
            )) implies balances.spec_get(c, n) == old(balances).spec_get(c, n) by {
            if c == channel@ && seq_has_str(users.deep_view(), n) {
                assert(present_in(
                    n,
                    viewers.deep_view(),
                    chat_mods.deep_view(),
                    broadcaster.deep_view(),
                ));
            }
        }
    }
    if notify {
        let mut msg = String::new();
        msg.append("/me has given ");
        let rv = display_i64(reward as i64);
        msg.append(rv.as_str());
        msg.append(" ");
        msg.append(currency);
        msg.append(" to all viewers!");
        proof {
            assert(msg@ =~= reward_announcement(reward as int, currency@));
        }
        sender.privmsg(channel, msg);
    }
    true
}

/// One event from the player's push feed.
pub enum PlayerEvent {
    /// A song started playing.
    Playing(SongItem),
    /// Playback paused.
    Pausing,
    /// The queue ran dry.
    Empty,
}

/// The announcement each player event translates to.
pub open spec fn player_event_text(e: PlayerEvent) -> Seq<char> {
    match e {
        PlayerEvent::Playing(item) => match item.user {
            Some(u) => "Now playing: "@ + item.what_view() + ", requested by "@ + u@ + "."@,
            None => "Now playing: "@ + item.what_view() + "."@,
        },
        PlayerEvent::Pausing => "Pausing playback."@,
        PlayerEvent::Empty => "Song queue is empty (use !song request <spotify-id> to add more)."@,
    }
}

/// Translate one player event into exactly one outbound announcement for the
/// channel.
pub fn player_event_message(channel: &str, e: &PlayerEvent) -> (r: Message)
    ensures
        r@ == (MessageV::Privmsg { target: channel@, text: player_event_text(*e) }),
{
    let text: String = match e {
        PlayerEvent::Playing(item) => {
            let mut t = String::new();
            t.append("Now playing: ");
            let what = item.what();
            t.append(what.as_str());
            match &item.user {
                Some(u) => {
                    t.append(", requested by ");
                    t.append(u.as_str());
                    t.append(".");
                }
                None => {
                    t.append(".");
                }
            }
            proof {
                assert(t@ =~= player_event_text(*e));
            }
            t
        }
        PlayerEvent::Pausing => {
            let mut t = String::new();
            t.append("Pausing playback.");
            proof {
                assert(t@ =~= player_event_text(*e));
            }
            t
        }
        PlayerEvent::Empty => {
            let mut t = String::new();
            t.append("Song queue is empty (use !song request <spotify-id> to add more).");
            proof {
                assert(t@ =~= player_event_text(*e));
            }
            t
        }
    };
    let mut ch = String::new();
    ch.append(channel);
    Message::Privmsg { target: ch, text }
}

} // verus!
