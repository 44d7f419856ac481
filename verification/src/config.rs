//! Per-channel configuration: identity, currency, features and aliases.
//! Immutable for the process lifetime once loaded.

use vstd::prelude::*;
use crate::features::FeatureSet;
use crate::table::Table1;
use crate::tokens::Line;

verus! {

/// A channel's currency.
pub struct Currency {
    /// Its display name; also the lookup word in chat.
    pub name: String,
}

/// Configuration of one channel.
pub struct Channel {
    /// Channel name, as the transport addresses it.
    pub name: String,
    /// Per-channel override of the streamer identity.
    pub streamer: Option<String>,
    /// Per-channel currency.
    pub currency: Option<Currency>,
    /// Whether to announce currency rewards.
    pub notify_rewards: bool,
    /// Whether a player is configured for the channel.
    pub has_player: bool,
    /// Features to enable.
    pub features: FeatureSet,
    /// Alias table: first word of a line to its substitute text.
    pub aliases: Table1<String>,
}

/// The whole engine configuration.
pub struct Config {
    /// Nickname the bot connects as.
    pub bot: String,
    /// The configured channels.
    pub channels: Vec<Channel>,
    /// Names of the moderators.
    pub moderators: Vec<String>,
    /// Hosts whose URLs are allowed.
    pub whitelisted_hosts: Vec<String>,
}

/// The substitute a line resolves to: when the first word is an alias name,
/// its text, with the rest of the line carried over verbatim.
pub open spec fn alias_substitute(aliases: Table1<String>, words: Seq<Seq<char>>, rest1: Seq<char>) -> Option<
    Seq<char>,
> {
    if words.len() == 0 {
        None
    } else {
        match aliases.spec_get(words[0]) {
            Some(t) => Some(
                if rest1.len() == 0 {
                    t@
                } else {
                    t@ + " "@ + rest1
                },
            ),
            None => None,
        }
    }
}

/// Resolve the alias of a line, if its first word names one.  Dispatch must
/// run this before command-prefix detection and re-tokenize from the
/// substitute.
pub fn resolve_alias(aliases: &Table1<String>, line: &Line) -> (r: Option<String>)
    requires
        line.wf(),
    ensures
        match r {
            Some(s) => alias_substitute(*aliases, line.words_view(), line.rest_view(1)) == Some(
                s@,
            ),
            None => alias_substitute(*aliases, line.words_view(), line.rest_view(1)) is None,
        },
{
    let first = match line.word(0) {
        Some(w) => w,
        None => {
            return None;
        }
    };
    match aliases.get(first.as_str()) {
        Some(text) => {
            let mut out = text.clone();
            let rest = line.rest(1);
            if !rest.as_str().is_empty() {
                out.append(" ");
                out.append(rest.as_str());
            }
            proof {
                if line.rest_view(1).len() == 0 {
                    assert(out@ =~= text@);
                } else {
                    assert(out@ =~= text@ + " "@ + line.rest_view(1));
                }
            }
            Some(out)
        }
        None => None,
    }
}

/// The channels, in configuration order, whose plans include a reward loop:
/// those with a currency.
pub open spec fn reward_channels_from(channels: Seq<Channel>, i: int) -> Seq<Seq<char>>
    decreases channels.len() - i,
{
    if i < 0 || i >= channels.len() {
        seq![]
    } else if channels[i].currency is Some {
        seq![channels[i].name@] + reward_channels_from(channels, i + 1)
    } else {
        reward_channels_from(channels, i + 1)
    }
}

/// The channels whose plans include a player bridge: song feature enabled
/// and a player configured.
pub open spec fn player_channels_from(channels: Seq<Channel>, i: int) -> Seq<Seq<char>>
    decreases channels.len() - i,
{
    if i < 0 || i >= channels.len() {
        seq![]
    } else if channels[i].features.song && channels[i].has_player {
        seq![channels[i].name@] + player_channels_from(channels, i + 1)
    } else {
        player_channels_from(channels, i + 1)
    }
}

/// The channels whose plans include a status-refresh loop, in configuration
/// order, each paired with the streamer identity its loop polls.
pub open spec fn status_channels_from(
    channels: Seq<Channel>,
    default: Option<Seq<char>>,
    i: int,
) -> Seq<(Seq<char>, Seq<char>)>
    decreases channels.len() - i,
{
    if i < 0 || i >= channels.len() {
        seq![]
    } else {
        match resolved_streamer(channels[i], default) {
            Some(s) => seq![(channels[i].name@, s)] + status_channels_from(channels, default, i + 1),
            None => status_channels_from(channels, default, i + 1),
        }
    }
}

/// The setup decisions of the engine driver: which channels get which
/// periodic loop or bridge.
pub struct EnginePlan {
    /// Channels that run a reward loop.
    pub reward_channels: Vec<String>,
    /// Channels that run a status-refresh loop, with the streamer identity
    /// the loop polls.
    pub status_channels: Vec<(String, String)>,
    /// Channels that run a player event bridge.
    pub player_channels: Vec<String>,
}

/// The streamer whose status a channel's loop polls: the per-channel
/// override, or the default.
pub open spec fn resolved_streamer(c: Channel, default: Option<Seq<char>>) -> Option<Seq<char>> {
    match c.streamer {
        Some(s) => Some(s@),
        None => default,
    }
}

/// Decide the per-channel loops from the configuration: a reward loop for
/// every channel with a currency, a status loop for every channel with a
/// resolvable streamer identity, and a player bridge where the song feature
/// and a player are both present.
pub fn plan(config: &Config, default_streamer: Option<&String>) -> (r: EnginePlan)
    ensures
        r.reward_channels.deep_view() == reward_channels_from(config.channels@, 0),
        r.player_channels.deep_view() == player_channels_from(config.channels@, 0),
        r.status_channels.deep_view() == status_channels_from(
            config.channels@,
            match default_streamer {
                Some(d) => Some(d@),
                None => None,
            },
            0,
        ),
{
    let ghost dflt: Option<Seq<char>> = match default_streamer {
        Some(d) => Some(d@),
        None => None,
    };
    let n = config.channels.len();
    let mut reward: Vec<String> = Vec::new();
    let mut status: Vec<(String, String)> = Vec::new();
    let mut player: Vec<String> = Vec::new();
    let mut i: usize = 0;
    while i < n
        invariant
            n == config.channels@.len(),
            i <= n,
            dflt == (match default_streamer {
                Some(d) => Some(d@),
                None => None,
            }),
            reward.deep_view() + reward_channels_from(config.channels@, i as int)
                =~= reward_channels_from(config.channels@, 0),
            player.deep_view() + player_channels_from(config.channels@, i as int)
                =~= player_channels_from(config.channels@, 0),
            status.deep_view() + status_channels_from(config.channels@, dflt, i as int)
                =~= status_channels_from(config.channels@, dflt, 0),
        decreases n - i,
    {
        let c = &config.channels[i];
        if c.currency.is_some() {
            let ghost m = reward.deep_view().len() as int;
            reward.push(c.name.clone());
            proof {
                assert(reward.deep_view() =~= reward.deep_view().subrange(0, m) + seq![
                    config.channels@[i as int].name@,
                ]);
            }
        }
        if c.features.song && c.has_player {
            let ghost m = player.deep_view().len() as int;
            player.push(c.name.clone());
            proof {
                assert(player.deep_view() =~= player.deep_view().subrange(0, m) + seq![
                    config.channels@[i as int].name@,
                ]);
            }
        }
        let streamer: Option<String> = match &c.streamer {
            Some(s) => Some(s.clone()),
            None => match default_streamer {
                Some(d) => Some(d.clone()),
                None => None,
            },
        };
        match streamer {
            Some(s) => {
                let ghost m = status.deep_view().len() as int;
                let ghost sv = s@;
                status.push((c.name.clone(), s));
                proof {
                    assert(resolved_streamer(config.channels@[i as int], dflt) == Some(sv));
                    assert(status.deep_view() =~= status.deep_view().subrange(0, m) + seq![
                        (config.channels@[i as int].name@, sv),
                    ]);
                }
            }
            None => {
                proof {
                    assert(resolved_streamer(config.channels@[i as int], dflt) is None);
                }
            }
        }
        i = i + 1;
        proof {
            assert(reward.deep_view() + reward_channels_from(config.channels@, i as int)
                =~= reward_channels_from(config.channels@, 0));
            assert(player.deep_view() + player_channels_from(config.channels@, i as int)
                =~= player_channels_from(config.channels@, 0));
            assert(status.deep_view() + status_channels_from(config.channels@, dflt, i as int)
                =~= status_channels_from(config.channels@, dflt, 0));
        }
    }
    proof {
        assert(reward.deep_view() =~= reward_channels_from(config.channels@, 0));
        assert(player.deep_view() =~= player_channels_from(config.channels@, 0));
        assert(status.deep_view() =~= status_channels_from(config.channels@, dflt, 0));
    }
    EnginePlan { reward_channels: reward, status_channels: status, player_channels: player }
}

} // verus!
