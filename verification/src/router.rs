//! The message handler: routing of inbound chat messages to command
//! handlers, the moderation check, and the deletion decision.

use vstd::prelude::*;
use crate::bad_word::{bad_word_post, BadWord};
use crate::command::{
    check_moderator, is_moderator, is_moderator_spec, moderator_refusal, HandlerError, Task, TaskV,
};
use crate::config::{alias_substitute, Channel};
use crate::features::{Feature, FeatureSet, Features};
use crate::message::{extract_tags, message_id_of, response_target_of, ChatCommand, ChatMessage, Tags};
use crate::moderation::{spec_bad_link, spec_bad_word, test_bad_words, has_bad_link};
use crate::sender::{MessageV, Sender, User, respond_text};
use crate::song::{song_handle_post, Song};
use crate::status::{now_timestamp, compute_uptime, StreamInfo, StreamInfos};
use crate::stores::{
    balance_or_zero, sat_add_i32, AfterStream, Balances, Commands, CounterDef, Counters,
};
use crate::table::Table1;
use crate::template::{render, render_counter, rendered, rendered_counter, CounterVars, TemplateVars};
use crate::text::{
    dec_int_of, display_i64, human_time, human_time_of, join_strings, join_with, sort_strings,
    sort_strs, str_eq, string_from_chars, chars_of,
};
use crate::tokens::{rest_of, tokenize, words_of, Line};

verus! {

/// The player of one channel.
pub struct PlayerSlot {
    pub channel: String,
    pub song: Song,
}

/// The first slot holding this channel's player, or -1.
pub open spec fn player_index(slots: Seq<PlayerSlot>, c: Seq<char>, i: int) -> int
    decreases slots.len() - i,
{
    if i < 0 || i >= slots.len() {
        -1
    } else if slots[i].channel@ == c {
        i
    } else {
        player_index(slots, c, i + 1)
    }
}

/// Handler for incoming messages: the per-dispatch decision pipeline and the
/// state it owns.
pub struct MessageHandler {
    /// Names of the moderators.
    pub moderators: Vec<String>,
    /// Hosts whose links are allowed.
    pub whitelisted_hosts: Vec<String>,
    /// Per-channel features.
    pub features: Features,
    /// Per-channel currency names.
    pub currencies: Table1<String>,
    /// Per-channel cached stream status.
    pub stream_infos: StreamInfos,
    /// All registered custom commands.
    pub commands: Commands,
    /// All registered counters.
    pub counters: Counters,
    /// The bad-words filter and its admin handler.
    pub bad_word: BadWord,
    /// Music players, one per configured channel.
    pub players: Vec<PlayerSlot>,
    /// Per-channel configurations.
    pub configs: Table1<Channel>,
    /// Currency balances.
    pub balances: Balances,
    /// After-stream reminders, oldest first.
    pub afterstreams: Vec<AfterStream>,
    /// The outbound queue.
    pub sender: Sender,
    /// Slow platform work decided on but not yet performed.
    pub tasks: Vec<Task>,
}

impl MessageHandler {
    /// All owned tables are well formed.
    pub open spec fn wf(self) -> bool {
        &&& self.features.wf()
        &&& self.currencies.wf()
        &&& self.stream_infos.wf()
        &&& self.commands.wf()
        &&& self.counters.wf()
        &&& self.bad_word.bad_words.wf()
        &&& self.balances.wf()
        &&& self.configs.wf()
        &&& forall|i: int|
            0 <= i < self.players@.len() ==> (#[trigger] self.players@[i]).song.player.wf()
    }

    /// Build a new handler around the given state.
    pub fn new(
        moderators: Vec<String>,
        whitelisted_hosts: Vec<String>,
        features: Features,
        currencies: Table1<String>,
        stream_infos: StreamInfos,
        commands: Commands,
        counters: Counters,
        bad_word: BadWord,
        players: Vec<PlayerSlot>,
        configs: Table1<Channel>,
        balances: Balances,
    ) -> (r: MessageHandler)
        requires
            features.wf(),
            currencies.wf(),
            stream_infos.wf(),
            commands.wf(),
            counters.wf(),
            bad_word.bad_words.wf(),
            balances.wf(),
            configs.wf(),
            forall|i: int| 0 <= i < players@.len() ==> (#[trigger] players@[i]).song.player.wf(),
        ensures
            r.wf(),
            r.moderators == moderators,
            r.whitelisted_hosts == whitelisted_hosts,
            r.features == features,
            r.currencies == currencies,
            r.stream_infos == stream_infos,
            r.commands == commands,
            r.counters == counters,
            r.bad_word == bad_word,
            r.players == players,
            r.configs == configs,
            r.balances == balances,
            r.afterstreams@ == Seq::<AfterStream>::empty(),
            r.sender.queue_view() == Seq::<MessageV>::empty(),
            r.tasks.deep_view() == Seq::<TaskV>::empty(),
    {
        let r = MessageHandler {
            moderators,
            whitelisted_hosts,
            features,
            currencies,
            stream_infos,
            commands,
            counters,
            bad_word,
            players,
            configs,
            balances,
            afterstreams: Vec::new(),
            sender: Sender::new(),
            tasks: Vec::new(),
        };
        proof {
            assert(r.afterstreams@ =~= Seq::<AfterStream>::empty());
            assert(r.tasks.deep_view() =~= Seq::<TaskV>::empty());
        }
        r
    }

    /// Whether the sender of this dispatch is a moderator.
    pub fn is_moderator(&self, user: &User) -> (r: bool)
        ensures
            r == is_moderator_spec(self.moderators.deep_view(), user.name@),
    {
        is_moderator(&self.moderators, user)
    }

    /// The sender and reply target of a message, when the transport provides
    /// both.
    pub fn as_user(m: &ChatMessage) -> (r: Option<User>)
        ensures
            match r {
                Some(u) => m.source_nickname is Some && response_target_of(*m) is Some
                    && Some(u.name@) == user_name_of(*m) && Some(u.target@) == response_target_of(
                    *m,
                ),
                None => m.source_nickname is None || response_target_of(*m) is None,
            },
    {
        let name = match &m.source_nickname {
            Some(n) => n.clone(),
            None => {
                return None;
            }
        };
        let target = match m.response_target() {
            Some(t) => t.clone(),
            None => {
                return None;
            }
        };
        Some(User { name, target })
    }
}

/// The sender name a message carries.
pub open spec fn user_name_of(m: ChatMessage) -> Option<Seq<char>> {
    match m.source_nickname {
        Some(n) => Some(n@),
        None => None,
    }
}

/// The names of a channel's entries, each with the command prefix.
pub open spec fn bang_names(names: Seq<Seq<char>>) -> Seq<Seq<char>> {
    Seq::new(names.len(), |i: int| seq!['!'] + names[i])
}

/// The reply to a `list` subcommand: the entries under `label`, or the
/// `empty` notice.
pub open spec fn list_reply(names: Seq<Seq<char>>, label: Seq<char>, empty: Seq<char>) -> Seq<
    char,
> {
    if names.len() == 0 {
        empty
    } else {
        label + join_with(bang_names(names), ", "@)
    }
}

/// Prefix each name with the command prefix.
fn bang_name_vec(names: &Vec<String>) -> (r: Vec<String>)
    ensures
        r.deep_view() == bang_names(names.deep_view()),
{
    let n = names.len();
    let mut out: Vec<String> = Vec::new();
    let mut i: usize = 0;
    proof {
        assert(out.deep_view() =~= bang_names(names.deep_view()).take(0));
    }
    while i < n
        invariant
            n == names@.len(),
            i <= n,
            out.deep_view() =~= bang_names(names.deep_view()).take(i as int),
        decreases n - i,
    {
        let mut s = String::new();
        s.append("!");
        s.append(names[i].as_str());
        proof {
            reveal_strlit("!");
            assert(s@ =~= seq!['!'] + names.deep_view()[i as int]);
        }
        let ghost prev = out.deep_view();
        let ghost sv = s@;
        out.push(s);
        i = i + 1;
        proof {
            assert(out.deep_view() =~= prev.push(sv));
            assert(bang_names(names.deep_view()).take(i as int) =~= bang_names(
                names.deep_view(),
            ).take(i - 1).push(bang_names(names.deep_view())[i - 1]));
            assert(out.deep_view() =~= bang_names(names.deep_view()).take(i as int));
        }
    }
    proof {
        assert(out.deep_view() =~= bang_names(names.deep_view()));
    }
    out
}

/// What a `!command` admin dispatch does to the command table and the
/// sender queue: list, edit or delete at word `k`, moderator-gated for the
/// mutating forms.
pub open spec fn command_admin_post(
    c0: Commands,
    c1: Commands,
    channel: Seq<char>,
    q0: Seq<MessageV>,
    q1: Seq<MessageV>,
    user: User,
    line: Line,
    k: int,
    is_mod: bool,
    r: Result<(), HandlerError>,
) -> bool {
    let w = line.words_view();
    let refusal = MessageV::Privmsg { target: user.target@, text: moderator_refusal(user.name@) };
    let reply = |text: Seq<char>|
        q1 == q0.push(
            MessageV::Privmsg { target: user.target@, text: respond_text(user.name@, text) },
        );
    if k < w.len() && w[k] == "list"@ {
        &&& r is Ok
        &&& c1 == c0
        &&& reply(list_reply(
            sort_strs(c0.spec_names(channel)),
            "Custom commands: "@,
            "No custom commands."@,
        ))
    } else if k < w.len() && w[k] == "edit"@ {
        if !is_mod {
            &&& r == Result::<(), HandlerError>::Err(HandlerError::ModeratorRequired)
            &&& c1 == c0
            &&& q1 == q0.push(refusal)
        } else if k + 1 >= w.len() {
            &&& r == Result::<(), HandlerError>::Err(HandlerError::BadCommand)
            &&& c1 == c0
            &&& reply("Expected name."@)
        } else {
            &&& r is Ok
            &&& c1.wf()
            &&& match c1.spec_get(channel, w[k + 1]) {
                Some(t) => t@ == line.rest_view(k + 2),
                None => false,
            }
            &&& forall|c2: Seq<char>, n2: Seq<char>|
                !(c2 == channel && n2 == w[k + 1]) ==> c1.spec_get(c2, n2) == c0.spec_get(c2, n2)
            &&& reply("Edited command."@)
        }
    } else if k < w.len() && w[k] == "delete"@ {
        if !is_mod {
            &&& r == Result::<(), HandlerError>::Err(HandlerError::ModeratorRequired)
            &&& c1 == c0
            &&& q1 == q0.push(refusal)
        } else if k + 1 >= w.len() {
            &&& r == Result::<(), HandlerError>::Err(HandlerError::BadCommand)
            &&& c1 == c0
            &&& reply("Expected name."@)
        } else {
            &&& r is Ok
            &&& c1.wf()
            &&& c1.spec_get(channel, w[k + 1]) is None
            &&& forall|c2: Seq<char>, n2: Seq<char>|
                !(c2 == channel && n2 == w[k + 1]) ==> c1.spec_get(c2, n2) == c0.spec_get(c2, n2)
            &&& if c0.spec_get(channel, w[k + 1]) is Some {
                reply("Deleted command `"@ + w[k + 1] + "`."@)
            } else {
                reply("No such command."@)
            }
        }
    } else {
        &&& r is Ok
        &&& c1 == c0
        &&& reply("Expected: list, edit, or delete."@)
    }
}

/// What a `!counter` admin dispatch does to the counter table and the sender
/// queue.  Editing keeps an existing counter\'s count and replaces its
/// template; a new counter starts at zero.
pub open spec fn counter_admin_post(
    c0: Counters,
    c1: Counters,
    channel: Seq<char>,
    q0: Seq<MessageV>,
    q1: Seq<MessageV>,
    user: User,
    line: Line,
    k: int,
    is_mod: bool,
    r: Result<(), HandlerError>,
) -> bool {
    let w = line.words_view();
    let refusal = MessageV::Privmsg { target: user.target@, text: moderator_refusal(user.name@) };
    let reply = |text: Seq<char>|
        q1 == q0.push(
            MessageV::Privmsg { target: user.target@, text: respond_text(user.name@, text) },
        );
    if k < w.len() && w[k] == "list"@ {
        &&& r is Ok
        &&& c1 == c0
        &&& reply(list_reply(
            sort_strs(c0.spec_names(channel)),
            "Custom counters: "@,
            "No custom counters."@,
        ))
    } else if k < w.len() && w[k] == "edit"@ {
        if !is_mod {
            &&& r == Result::<(), HandlerError>::Err(HandlerError::ModeratorRequired)
            &&& c1 == c0
            &&& q1 == q0.push(refusal)
        } else if k + 1 >= w.len() {
            &&& r == Result::<(), HandlerError>::Err(HandlerError::BadCommand)
            &&& c1 == c0
            &&& reply("Expected name."@)
        } else {
            &&& r is Ok
            &&& c1.wf()
            &&& match c1.spec_get(channel, w[k + 1]) {
                Some(d) => d.template@ == line.rest_view(k + 2) && d.count as int == (match c0.spec_get(
                    channel,
                    w[k + 1],
                ) {
                    Some(d0) => d0.count as int,
                    None => 0,
                }),
                None => false,
            }
            &&& forall|c2: Seq<char>, n2: Seq<char>|
                !(c2 == channel && n2 == w[k + 1]) ==> c1.spec_get(c2, n2) == c0.spec_get(c2, n2)
            &&& reply("Edited command."@)
        }
    } else if k < w.len() && w[k] == "delete"@ {
        if !is_mod {
            &&& r == Result::<(), HandlerError>::Err(HandlerError::ModeratorRequired)
            &&& c1 == c0
            &&& q1 == q0.push(refusal)
        } else if k + 1 >= w.len() {
            &&& r == Result::<(), HandlerError>::Err(HandlerError::BadCommand)
            &&& c1 == c0
            &&& reply("Expected name."@)
        } else {
            &&& r is Ok
            &&& c1.wf()
            &&& c1.spec_get(channel, w[k + 1]) is None
            &&& forall|c2: Seq<char>, n2: Seq<char>|
                !(c2 == channel && n2 == w[k + 1]) ==> c1.spec_get(c2, n2) == c0.spec_get(c2, n2)
            &&& if c0.spec_get(channel, w[k + 1]) is Some {
                reply("Deleted command `"@ + w[k + 1] + "`."@)
            } else {
                reply("No such command."@)
            }
        }
    } else {
        &&& r is Ok
        &&& c1 == c0
        &&& reply("Expected: list, edit, or delete."@)
    }
}

impl MessageHandler {
    /// Handle `!command`: administration of the custom text commands.
    fn handle_command(&mut self, is_mod: bool, user: &User, line: &Line, k: usize) -> (r: Result<
        (),
        HandlerError,
    >)
        requires
            line.wf(),
            old(self).commands.wf(),
            k + 2 <= usize::MAX,
        ensures
            final(self).commands.wf(),
            *final(self) == (MessageHandler {
                commands: final(self).commands,
                sender: final(self).sender,
                ..*old(self)
            }),
            command_admin_post(
                old(self).commands,
                final(self).commands,
                user.target@,
                old(self).sender.queue_view(),
                final(self).sender.queue_view(),
                *user,
                *line,
                k as int,
                is_mod,
                r,
            ),
    {
        let sub = match line.word(k) {
            Some(s) => s,
            None => {
                user.respond(&mut self.sender, "Expected: list, edit, or delete.");
                return Ok(());
            }
        };
        if str_eq(sub.as_str(), "list") {
            let unsorted = self.commands.names_for(user.target.as_str());
            let names = sort_strings(&unsorted);
            proof {
                crate::text::lemma_sort_strs_props(unsorted.deep_view());
            }
            if names.len() == 0 {
                user.respond(&mut self.sender, "No custom commands.");
            } else {
                let banged = bang_name_vec(&names);
                let joined = join_strings(&banged, ", ");
                let mut msg = String::new();
                msg.append("Custom commands: ");
                msg.append(joined.as_str());
                proof {
                    assert(msg@ =~= "Custom commands: "@ + join_with(
                        bang_names(names.deep_view()),
                        ", "@,
                    ));
                }
                user.respond_owned(&mut self.sender, msg);
            }
            Ok(())
        } else if str_eq(sub.as_str(), "edit") {
            match check_moderator(is_mod, user, &mut self.sender) {
                Ok(()) => {}
                Err(e) => {
                    return Err(e);
                }
            }
            let name = match line.word(k + 1) {
                Some(n) => n.clone(),
                None => {
                    user.respond(&mut self.sender, "Expected name.");
                    return Err(HandlerError::BadCommand);
                }
            };
            let template = line.rest(k + 2).clone();
            let channel = user.target.clone();
            self.commands.set(channel, name, template);
            user.respond(&mut self.sender, "Edited command.");
            Ok(())
        } else if str_eq(sub.as_str(), "delete") {
            match check_moderator(is_mod, user, &mut self.sender) {
                Ok(()) => {}
                Err(e) => {
                    return Err(e);
                }
            }
            let name = match line.word(k + 1) {
                Some(n) => n,
                None => {
                    user.respond(&mut self.sender, "Expected name.");
                    return Err(HandlerError::BadCommand);
                }
            };
            if self.commands.remove(user.target.as_str(), name.as_str()) {
                let mut msg = String::new();
                msg.append("Deleted command `");
                msg.append(name.as_str());
                msg.append("`.");
                proof {
                    assert(msg@ =~= "Deleted command `"@ + line.words_view()[k + 1] + "`."@);
                }
                user.respond_owned(&mut self.sender, msg);
            } else {
                user.respond(&mut self.sender, "No such command.");
            }
            Ok(())
        } else {
            user.respond(&mut self.sender, "Expected: list, edit, or delete.");
            Ok(())
        }
    }

    /// Handle `!counter`: administration of the counters.
    fn handle_counter(&mut self, is_mod: bool, user: &User, line: &Line, k: usize) -> (r: Result<
        (),
        HandlerError,
    >)
        requires
            line.wf(),
            old(self).counters.wf(),
            k + 2 <= usize::MAX,
        ensures
            final(self).counters.wf(),
            *final(self) == (MessageHandler {
                counters: final(self).counters,
                sender: final(self).sender,
                ..*old(self)
            }),
            counter_admin_post(
                old(self).counters,
                final(self).counters,
                user.target@,
                old(self).sender.queue_view(),
                final(self).sender.queue_view(),
                *user,
                *line,
                k as int,
                is_mod,
                r,
            ),
    {
        let sub = match line.word(k) {
            Some(s) => s,
            None => {
                user.respond(&mut self.sender, "Expected: list, edit, or delete.");
                return Ok(());
            }
        };
        if str_eq(sub.as_str(), "list") {
            let unsorted = self.counters.names_for(user.target.as_str());
            let names = sort_strings(&unsorted);
            proof {
                crate::text::lemma_sort_strs_props(unsorted.deep_view());
            }
            if names.len() == 0 {
                user.respond(&mut self.sender, "No custom counters.");
            } else {
                let banged = bang_name_vec(&names);
                let joined = join_strings(&banged, ", ");
                let mut msg = String::new();
                msg.append("Custom counters: ");
                msg.append(joined.as_str());
                proof {
                    assert(msg@ =~= "Custom counters: "@ + join_with(
                        bang_names(names.deep_view()),
                        ", "@,
                    ));
                }
                user.respond_owned(&mut self.sender, msg);
            }
            Ok(())
        } else if str_eq(sub.as_str(), "edit") {
            match check_moderator(is_mod, user, &mut self.sender) {
                Ok(()) => {}
                Err(e) => {
                    return Err(e);
                }
            }
            let name = match line.word(k + 1) {
                Some(n) => n.clone(),
                None => {
                    user.respond(&mut self.sender, "Expected name.");
                    return Err(HandlerError::BadCommand);
                }
            };
            let template = line.rest(k + 2).clone();
            let count: i32 = match self.counters.get(user.target.as_str(), name.as_str()) {
                Some(d) => d.count,
                None => 0,
            };
            let channel = user.target.clone();
            self.counters.set(channel, name, CounterDef { count, template });
            user.respond(&mut self.sender, "Edited command.");
            Ok(())
        } else if str_eq(sub.as_str(), "delete") {
            match check_moderator(is_mod, user, &mut self.sender) {
                Ok(()) => {}
                Err(e) => {
                    return Err(e);
                }
            }
            let name = match line.word(k + 1) {
                Some(n) => n,
                None => {
                    user.respond(&mut self.sender, "Expected name.");
                    return Err(HandlerError::BadCommand);
                }
            };
            if self.counters.remove(user.target.as_str(), name.as_str()) {
                let mut msg = String::new();
                msg.append("Deleted command `");
                msg.append(name.as_str());
                msg.append("`.");
                proof {
                    assert(msg@ =~= "Deleted command `"@ + line.words_view()[k + 1] + "`."@);
                }
                user.respond_owned(&mut self.sender, msg);
            } else {
                user.respond(&mut self.sender, "No such command.");
            }
            Ok(())
        } else {
            user.respond(&mut self.sender, "Expected: list, edit, or delete.");
            Ok(())
        }
    }
}

/// The start time a channel's status cell holds, when the cell exists, was
/// filled, and the stream is live.
pub open spec fn started_at_of(infos: StreamInfos, channel: Seq<char>) -> Option<int> {
    match infos.spec_get(channel) {
        Some(cell) => match cell {
            Some(info) => match info.started_at {
                Some(s) => Some(s as int),
                None => None,
            },
            None => None,
        },
        None => None,
    }
}

/// The title a channel's status cell holds, if any.
pub open spec fn title_of(infos: StreamInfos, channel: Seq<char>) -> Option<Seq<char>> {
    match infos.spec_get(channel) {
        Some(cell) => match cell {
            Some(info) => Some(info.title@),
            None => None,
        },
        None => None,
    }
}

/// The game a channel's status cell holds, if any.
pub open spec fn game_of(infos: StreamInfos, channel: Seq<char>) -> Option<Seq<char>> {
    match infos.spec_get(channel) {
        Some(cell) => match cell {
            Some(info) => match info.game {
                Some(g) => Some(g@),
                None => None,
            },
            None => None,
        },
        None => None,
    }
}

/// The number of leading `#` characters of `s` from `i` on.
pub open spec fn hash_prefix_end(s: Seq<char>, i: int) -> int
    decreases s.len() - i,
{
    if i < 0 || i >= s.len() {
        s.len() as int
    } else if s[i] == '#' {
        hash_prefix_end(s, i + 1)
    } else {
        i
    }
}

/// `s` with its leading `#` characters removed: the channel identifier the
/// platform API expects.
pub open spec fn hash_stripped(s: Seq<char>) -> Seq<char> {
    s.skip(hash_prefix_end(s, 0))
}

/// Strip the leading `#` characters off a channel name.
fn strip_hashes(s: &str) -> (r: String)
    ensures
        r@ == hash_stripped(s@),
{
    let w = chars_of(s);
    let n = w.len();
    let mut i: usize = 0;
    while i < n && w[i] == '#'
        invariant
            n == w@.len(),
            w@ == s@,
            i <= n,
            hash_prefix_end(s@, 0) == hash_prefix_end(s@, i as int),
        decreases n - i,
    {
        i = i + 1;
    }
    proof {
        assert(hash_prefix_end(s@, i as int) == i as int);
    }
    let mut out: Vec<char> = Vec::new();
    let mut t = i;
    while t < n
        invariant
            i <= t <= n,
            n == w@.len(),
            w@ == s@,
            out@ =~= s@.subrange(i as int, t as int),
        decreases n - t,
    {
        out.push(w[t]);
        t = t + 1;
        proof {
            assert(out@ =~= s@.subrange(i as int, t as int));
        }
    }
    proof {
        assert(out@ =~= hash_stripped(s@));
    }
    string_from_chars(&out)
}

/// Whether this dispatch must end in deletion: the sender is no moderator,
/// and the message trips the bad-words filter or carries a URL whose host is
/// off the whitelist.
pub open spec fn deletion_decision(
    moderators: Seq<Seq<char>>,
    filter: crate::moderation::WordFilter,
    whitelist: Seq<Seq<char>>,
    features: FeatureSet,
    m: ChatMessage,
    text: Seq<char>,
) -> bool {
    let is_mod = match m.source_nickname {
        Some(u) => is_moderator_spec(moderators, u@),
        None => false,
    };
    !is_mod && ((features.bad_words && spec_bad_word(filter, text) is Some) || (!(features.bad_words
        && spec_bad_word(filter, text) is Some) && features.url_whitelist && spec_bad_link(
        text,
        whitelist,
    )))
}

/// The public warning a bad-word hit provokes: the stored reason rendered
/// against the sender and target, sent when the hit has a reason and the
/// message names both.
pub open spec fn moderation_warning(
    moderators: Seq<Seq<char>>,
    filter: crate::moderation::WordFilter,
    features: FeatureSet,
    m: ChatMessage,
    text: Seq<char>,
) -> Option<(Seq<char>, Seq<char>)> {
    let is_mod = match m.source_nickname {
        Some(u) => is_moderator_spec(moderators, u@),
        None => false,
    };
    if !is_mod && features.bad_words {
        match spec_bad_word(filter, text) {
            Some(hit) => match (hit.1, m.source_nickname, response_target_of(m)) {
                (Some(why), Some(u), Some(t)) => Some((t, rendered(why, u@, t))),
                _ => None,
            },
            None => None,
        }
    } else {
        None
    }
}

/// The deletion directive for one message.
pub open spec fn delete_directive(id: Seq<char>) -> Seq<char> {
    "/delete "@ + id
}

impl MessageHandler {
    /// Handle `!uptime`: report how long the stream has been live, from the
    /// cached status and the clock.
    fn handle_uptime(&mut self, user: &User)
        ensures
            *final(self) == (MessageHandler { sender: final(self).sender, ..*old(self) }),
            match started_at_of(old(self).stream_infos, user.target@) {
                Some(s) => exists|d: nat|
                    final(self).sender.queue_view() == old(self).sender.queue_view().push(
                        MessageV::Privmsg {
                            target: user.target@,
                            text: respond_text(
                                user.name@,
                                "Stream has been live for "@ + human_time_of(d) + "."@,
                            ),
                        },
                    ),
                None => final(self).sender.queue_view() == old(self).sender.queue_view().push(
                    MessageV::Privmsg {
                        target: user.target@,
                        text: respond_text(
                            user.name@,
                            "Stream is not live right now, try again later!"@,
                        ),
                    },
                ),
            },
    {
        let started: Option<i64> = match self.stream_infos.get(user.target.as_str()) {
            Some(cell) => match cell {
                Some(info) => info.started_at,
                None => None,
            },
            None => None,
        };
        match started {
            Some(s) => {
                let now = now_timestamp();
                let d = compute_uptime(s, now);
                let mut msg = String::new();
                msg.append("Stream has been live for ");
                let ht = human_time(d);
                msg.append(ht.as_str());
                msg.append(".");
                proof {
                    assert(msg@ =~= "Stream has been live for "@ + human_time_of(d as nat) + "."@);
                }
                user.respond_owned(&mut self.sender, msg);
                proof {
                    let dd = d as nat;
                    assert(final(self).sender.queue_view() == old(self).sender.queue_view().push(
                        MessageV::Privmsg {
                            target: user.target@,
                            text: respond_text(
                                user.name@,
                                "Stream has been live for "@ + human_time_of(dd) + "."@,
                            ),
                        },
                    ));
                }
            }
            None => {
                user.respond(&mut self.sender, "Stream is not live right now, try again later!");
            }
        }
    }

    /// Handle `!title` without arguments: report the cached title.
    fn handle_title(&mut self, user: &User)
        ensures
            *final(self) == (MessageHandler { sender: final(self).sender, ..*old(self) }),
            final(self).sender.queue_view() == old(self).sender.queue_view().push(
                MessageV::Privmsg {
                    target: user.target@,
                    text: respond_text(
                        user.name@,
                        match title_of(old(self).stream_infos, user.target@) {
                            Some(t) => t,
                            None => "Stream is not live right now, try again later!"@,
                        },
                    ),
                },
            ),
    {
        let title: Option<String> = match self.stream_infos.get(user.target.as_str()) {
            Some(cell) => match cell {
                Some(info) => Some(info.title.clone()),
                None => None,
            },
            None => None,
        };
        match title {
            Some(t) => {
                user.respond_owned(&mut self.sender, t);
            }
            None => {
                user.respond(&mut self.sender, "Stream is not live right now, try again later!");
            }
        }
    }

    /// Handle `!game` without arguments: report the cached game.
    fn handle_game(&mut self, user: &User)
        ensures
            *final(self) == (MessageHandler { sender: final(self).sender, ..*old(self) }),
            final(self).sender.queue_view() == old(self).sender.queue_view().push(
                MessageV::Privmsg {
                    target: user.target@,
                    text: respond_text(
                        user.name@,
                        match game_of(old(self).stream_infos, user.target@) {
                            Some(g) => g,
                            None => "Unfortunately I don't know the game, sorry!"@,
                        },
                    ),
                },
            ),
    {
        let game: Option<String> = match self.stream_infos.get(user.target.as_str()) {
            Some(cell) => match cell {
                Some(info) => match &info.game {
                    Some(g) => Some(g.clone()),
                    None => None,
                },
                None => None,
            },
            None => None,
        };
        match game {
            Some(g) => {
                user.respond_owned(&mut self.sender, g);
            }
            None => {
                user.respond(&mut self.sender, "Unfortunately I don't know the game, sorry!");
            }
        }
    }

    /// Handle a `!title` update: record the platform call to perform; the
    /// confirmation is sent when the call comes back.
    fn handle_update_title(&mut self, user: &User, title: &String)
        ensures
            *final(self) == (MessageHandler { tasks: final(self).tasks, ..*old(self) }),
            final(self).tasks.deep_view() == old(self).tasks.deep_view().push(
                TaskV::UpdateTitle {
                    channel_id: hash_stripped(user.target@),
                    title: title@,
                    requester: user.name@,
                    target: user.target@,
                },
            ),
    {
        let ghost prev = self.tasks.deep_view();
        let channel_id = strip_hashes(user.target.as_str());
        self.tasks.push(
            Task::UpdateTitle {
                channel_id,
                title: title.clone(),
                requester: user.name.clone(),
                target: user.target.clone(),
            },
        );
        proof {
            assert(self.tasks.deep_view() =~= prev.push(
                TaskV::UpdateTitle {
                    channel_id: hash_stripped(user.target@),
                    title: title@,
                    requester: user.name@,
                    target: user.target@,
                },
            ));
        }
    }

    /// Handle a `!game` update: record the platform call to perform.
    fn handle_update_game(&mut self, user: &User, game: &String)
        ensures
            *final(self) == (MessageHandler { tasks: final(self).tasks, ..*old(self) }),
            final(self).tasks.deep_view() == old(self).tasks.deep_view().push(
                TaskV::UpdateGame {
                    channel_id: hash_stripped(user.target@),
                    game: game@,
                    requester: user.name@,
                    target: user.target@,
                },
            ),
    {
        let ghost prev = self.tasks.deep_view();
        let channel_id = strip_hashes(user.target.as_str());
        self.tasks.push(
            Task::UpdateGame {
                channel_id,
                game: game.clone(),
                requester: user.name.clone(),
                target: user.target.clone(),
            },
        );
        proof {
            assert(self.tasks.deep_view() =~= prev.push(
                TaskV::UpdateGame {
                    channel_id: hash_stripped(user.target@),
                    game: game@,
                    requester: user.name@,
                    target: user.target@,
                },
            ));
        }
    }

    /// Test whether the message must be deleted: moderators are exempt, then
    /// the bad-words filter is consulted, then the URL whitelist.  A
    /// bad-word hit with a stored reason provokes one public warning when
    /// the transport names the sender and a target.
    pub fn should_be_deleted(&mut self, features: &FeatureSet, m: &ChatMessage, message: &str) -> (r:
        bool)
        ensures
            *final(self) == (MessageHandler { sender: final(self).sender, ..*old(self) }),
            r == deletion_decision(
                old(self).moderators.deep_view(),
                old(self).bad_word.bad_words,
                old(self).whitelisted_hosts.deep_view(),
                *features,
                *m,
                message@,
            ),
            match moderation_warning(
                old(self).moderators.deep_view(),
                old(self).bad_word.bad_words,
                *features,
                *m,
                message@,
            ) {
                Some(w) => final(self).sender.queue_view() == old(self).sender.queue_view().push(
                    MessageV::Privmsg { target: w.0, text: w.1 },
                ),
                None => final(self).sender.queue_view() == old(self).sender.queue_view(),
            },
    {
        // moderators can say whatever they want
        match &m.source_nickname {
            Some(u) => {
                if crate::text::contains_str(&self.moderators, u.as_str()) {
                    return false;
                }
            }
            None => {}
        }
        if features.contains(Feature::BadWords) {
            match test_bad_words(&self.bad_word.bad_words, message) {
                Some(hit) => {
                    match (&hit.why, &m.source_nickname, m.response_target()) {
                        (Some(why), Some(u), Some(t)) => {
                            let vars = TemplateVars { name: u.as_str(), target: t.as_str() };
                            let warning = render(why.as_str(), &vars);
                            let target = t.clone();
                            self.sender.privmsg(target.as_str(), warning);
                        }
                        _ => {}
                    }
                    return true;
                }
                None => {}
            }
        }
        if features.contains(Feature::UrlWhitelist) {
            if has_bad_link(&self.whitelisted_hosts, message) {
                return true;
            }
        }
        false
    }

    /// Send the deletion directive for the given message, addressed to the
    /// original target; without a message identifier this is a no-op.
    pub fn delete_message(&mut self, source: &str, tags: &Tags)
        ensures
            *final(self) == (MessageHandler { sender: final(self).sender, ..*old(self) }),
            match tags.message_id {
                Some(id) => final(self).sender.queue_view() == old(self).sender.queue_view().push(
                    MessageV::Privmsg { target: source@, text: delete_directive(id@) },
                ),
                None => final(self).sender.queue_view() == old(self).sender.queue_view(),
            },
    {
        match &tags.message_id {
            Some(id) => {
                let mut d = String::new();
                d.append("/delete ");
                d.append(id.as_str());
                proof {
                    assert(d@ =~= delete_directive(tags.message_id.unwrap()@));
                }
                self.sender.privmsg(source, d);
            }
            None => {}
        }
    }
}


/// What one command dispatch does to the handler state, for the command
/// named by the first token and arguments from word `k` of the line on.
pub open spec fn process_command_post(
    pre: MessageHandler,
    post: MessageHandler,
    features: FeatureSet,
    command: Seq<char>,
    user: User,
    line: Line,
    k: int,
    r: Result<(), HandlerError>,
) -> bool {
    let q0 = pre.sender.queue_view();
    let q1 = post.sender.queue_view();
    let t0 = pre.tasks.deep_view();
    let t1 = post.tasks.deep_view();
    let is_mod = is_moderator_spec(pre.moderators.deep_view(), user.name@);
    let target = user.target@;
    let reply = |text: Seq<char>|
        q1 == q0.push(
            MessageV::Privmsg { target: user.target@, text: respond_text(user.name@, text) },
        );
    let refusal = MessageV::Privmsg { target: user.target@, text: moderator_refusal(user.name@) };
    if command == "ping"@ {
        &&& r is Ok
        &&& post == (MessageHandler { sender: post.sender, tasks: post.tasks, ..pre })
        &&& reply("What do you want?"@)
        &&& t1 == t0.push(TaskV::NotifyPing)
    } else if command == "song"@ && features.song {
        let pi = player_index(pre.players@, target, 0);
        if pi == -1 {
            r is Ok && post == pre
        } else {
            &&& post == (MessageHandler {
                players: post.players,
                sender: post.sender,
                tasks: post.tasks,
                ..pre
            })
            &&& post.players@.len() == pre.players@.len()
            &&& forall|j: int|
                0 <= j < pre.players@.len() && j != pi ==> post.players@[j] == pre.players@[j]
            &&& post.players@[pi].channel == pre.players@[pi].channel
            &&& song_handle_post(
                pre.players@[pi].song.player,
                post.players@[pi].song.player,
                q0,
                q1,
                t0,
                t1,
                user,
                line,
                k,
                is_mod,
                r,
            )
        }
    } else if command == "command"@ && features.command {
        &&& post == (MessageHandler { commands: post.commands, sender: post.sender, ..pre })
        &&& command_admin_post(pre.commands, post.commands, target, q0, q1, user, line, k, is_mod, r)
    } else if command == "counter"@ {
        &&& post == (MessageHandler { counters: post.counters, sender: post.sender, ..pre })
        &&& counter_admin_post(pre.counters, post.counters, target, q0, q1, user, line, k, is_mod, r)
    } else if command == "afterstream"@ && features.after_stream {
        &&& r is Ok
        &&& post == (MessageHandler {
            afterstreams: post.afterstreams,
            sender: post.sender,
            ..pre
        })
        &&& post.afterstreams@.len() == pre.afterstreams@.len() + 1
        &&& post.afterstreams@.subrange(0, pre.afterstreams@.len() as int) == pre.afterstreams@
        &&& post.afterstreams@.last().user@ == user.name@
        &&& post.afterstreams@.last().text@ == line.rest_view(k)
        &&& reply("Reminder added."@)
    } else if command == "badword"@ && features.bad_words {
        &&& post == (MessageHandler { bad_word: post.bad_word, sender: post.sender, ..pre })
        &&& bad_word_post(
            pre.bad_word.bad_words,
            post.bad_word.bad_words,
            q0,
            q1,
            user,
            line,
            k,
            is_mod,
            r,
        )
    } else if command == "uptime"@ && features.admin {
        &&& r is Ok
        &&& post == (MessageHandler { sender: post.sender, ..pre })
        &&& match started_at_of(pre.stream_infos, target) {
            Some(s) => exists|d: nat|
                q1 == q0.push(
                    MessageV::Privmsg {
                        target: user.target@,
                        text: respond_text(
                            user.name@,
                            "Stream has been live for "@ + human_time_of(d) + "."@,
                        ),
                    },
                ),
            None => reply("Stream is not live right now, try again later!"@),
        }
    } else if command == "title"@ && features.admin {
        if line.rest_view(k).len() == 0 {
            &&& r is Ok
            &&& post == (MessageHandler { sender: post.sender, ..pre })
            &&& reply(
                match title_of(pre.stream_infos, target) {
                    Some(t) => t,
                    None => "Stream is not live right now, try again later!"@,
                },
            )
        } else if !is_mod {
            &&& r == Result::<(), HandlerError>::Err(HandlerError::ModeratorRequired)
            &&& post == (MessageHandler { sender: post.sender, ..pre })
            &&& q1 == q0.push(refusal)
        } else {
            &&& r is Ok
            &&& post == (MessageHandler { tasks: post.tasks, sender: post.sender, ..pre })
            &&& q1 == q0
            &&& t1 == t0.push(
                TaskV::UpdateTitle {
                    channel_id: hash_stripped(target),
                    title: line.rest_view(k),
                    requester: user.name@,
                    target: user.target@,
                },
            )
        }
    } else if command == "game"@ && features.admin {
        if line.rest_view(k).len() == 0 {
            &&& r is Ok
            &&& post == (MessageHandler { sender: post.sender, ..pre })
            &&& reply(
                match game_of(pre.stream_infos, target) {
                    Some(g) => g,
                    None => "Unfortunately I don't know the game, sorry!"@,
                },
            )
        } else if !is_mod {
            &&& r == Result::<(), HandlerError>::Err(HandlerError::ModeratorRequired)
            &&& post == (MessageHandler { sender: post.sender, ..pre })
            &&& q1 == q0.push(refusal)
        } else {
            &&& r is Ok
            &&& post == (MessageHandler { tasks: post.tasks, sender: post.sender, ..pre })
            &&& q1 == q0
            &&& t1 == t0.push(
                TaskV::UpdateGame {
                    channel_id: hash_stripped(target),
                    game: line.rest_view(k),
                    requester: user.name@,
                    target: user.target@,
                },
            )
        }
    } else {
        // fallback lookups: currency name, custom command, counter — every
        // applicable branch runs
        let cur = match pre.currencies.spec_get(target) {
            Some(cn) => if cn@ == command {
                Some(cn@)
            } else {
                None
            },
            None => None,
        };
        let bal = balance_or_zero(pre.balances.spec_get(target, user.name@));
        let q_a = match cur {
            Some(cn) => q0.push(
                MessageV::Privmsg {
                    target: user.target@,
                    text: respond_text(
                        user.name@,
                        "You have "@ + dec_int_of(bal) + " "@ + cn + "."@,
                    ),
                },
            ),
            None => q0,
        };
        let tpl = if features.command {
            pre.commands.spec_get(target, command)
        } else {
            None
        };
        let q_b = match tpl {
            Some(t) => q_a.push(
                MessageV::Privmsg { target: user.target@, text: rendered(t@, user.name@, target) },
            ),
            None => q_a,
        };
        let ctr = if features.counter {
            pre.counters.spec_get(target, command)
        } else {
            None
        };
        &&& r is Ok
        &&& post == (MessageHandler { counters: post.counters, sender: post.sender, ..pre })
        &&& match ctr {
            Some(d) => {
                let nc = sat_add_i32(d.count as int, 1);
                &&& q1 == q_b.push(
                    MessageV::Privmsg {
                        target: user.target@,
                        text: rendered_counter(d.template@, user.name@, target, nc),
                    },
                )
                &&& post.counters.wf()
                &&& match post.counters.spec_get(target, command) {
                    Some(d1) => d1.count as int == nc && d1.template@ == d.template@,
                    None => false,
                }
                &&& forall|c2: Seq<char>, n2: Seq<char>|
                    !(c2 == target && n2 == command) ==> post.counters.spec_get(c2, n2)
                        == pre.counters.spec_get(c2, n2)
            },
            None => q1 == q_b && post.counters == pre.counters,
        }
    }
}

impl MessageHandler {
    /// The slot of a channel's player, if one is configured.
    fn find_player(&self, c: &str) -> (r: Option<usize>)
        ensures
            match r {
                Some(i) => i < self.players@.len() && player_index(self.players@, c@, 0)
                    == i as int && self.players@[i as int].channel@ == c@,
                None => player_index(self.players@, c@, 0) == -1,
            },
    {
        let n = self.players.len();
        let mut pi: usize = 0;
        while pi < n
            invariant
                n == self.players@.len(),
                pi <= n,
                player_index(self.players@, c@, 0) == player_index(
                    self.players@,
                    c@,
                    pi as int,
                ),
            decreases n - pi,
        {
            if str_eq(self.players[pi].channel.as_str(), c) {
                return Some(pi);
            }
            pi = pi + 1;
        }
        None
    }

    /// Route one parsed command: built-ins, feature-gated handlers, and the
    /// fallback lookups against currency name, custom commands and counters.
    /// A handled failure aborts only this command.
    pub fn process_command(
        &mut self,
        features: &FeatureSet,
        command: &str,
        user: &User,
        line: &Line,
        k: usize,
    ) -> (r: Result<(), HandlerError>)
        requires
            line.wf(),
            old(self).wf(),
            k <= line.words_view().len(),
            k + 2 <= usize::MAX,
        ensures
            final(self).wf(),
            process_command_post(
                *old(self),
                *final(self),
                *features,
                command@,
                *user,
                *line,
                k as int,
                r,
            ),
    {
        let is_mod = self.is_moderator(user);
        if str_eq(command, "ping") {
            user.respond(&mut self.sender, "What do you want?");
            let ghost prev = self.tasks.deep_view();
            self.tasks.push(Task::NotifyPing);
            proof {
                assert(self.tasks.deep_view() =~= prev.push(TaskV::NotifyPing));
            }
            proof {
                assert(process_command_post(
                    *old(self),
                    *self,
                    *features,
                    command@,
                    *user,
                    *line,
                    k as int,
                    Result::<(), HandlerError>::Ok(()),
                ));
            }
            Ok(())
        } else if str_eq(command, "song") && features.contains(Feature::Song) {
            let pi = match self.find_player(user.target.as_str()) {
                Some(pi) => pi,
                None => {
                    return Ok(());
                }
            };
            let ghost pre_players = self.players@;
            proof {
                assert(pre_players[pi as int].song.player.wf());
            }
            let mut slot = self.players.remove(pi);
            let res = slot.song.handle(is_mod, user, line, k, &mut self.sender, &mut self.tasks);
            let ghost gslot = slot;
            self.players.insert(pi, slot);
            proof {
                assert(self.players@.len() == pre_players.len());
                assert(forall|j: int|
                    0 <= j < pre_players.len() && j != pi as int ==> self.players@[j]
                        == pre_players[j]);
                assert(self.players@[pi as int] == gslot);
                assert(self.players@[pi as int].channel == pre_players[pi as int].channel);
                assert(song_handle_post(
                    pre_players[pi as int].song.player,
                    self.players@[pi as int].song.player,
                    old(self).sender.queue_view(),
                    self.sender.queue_view(),
                    old(self).tasks.deep_view(),
                    self.tasks.deep_view(),
                    *user,
                    *line,
                    k as int,
                    is_mod,
                    res,
                ));
                assert(forall|i2: int|
                    0 <= i2 < self.players@.len() ==> (#[trigger] self.players@[i2]).song.player.wf());
                assert(process_command_post(
                    *old(self),
                    *self,
                    *features,
                    command@,
                    *user,
                    *line,
                    k as int,
                    res,
                ));
            }
            res
        } else if str_eq(command, "command") && features.contains(Feature::Command) {
            {
            let res = self.handle_command(is_mod, user, line, k);
            proof {
                assert(process_command_post(
                    *old(self),
                    *self,
                    *features,
                    command@,
                    *user,
                    *line,
                    k as int,
                    res,
                ));
            }
            res
        }
        } else if str_eq(command, "counter") {
            {
            let res = self.handle_counter(is_mod, user, line, k);
            proof {
                assert(process_command_post(
                    *old(self),
                    *self,
                    *features,
                    command@,
                    *user,
                    *line,
                    k as int,
                    res,
                ));
            }
            res
        }
        } else if str_eq(command, "afterstream") && features.contains(Feature::AfterStream) {
            let ghost prev = self.afterstreams@;
            let text = line.rest(k).clone();
            self.afterstreams.push(AfterStream { user: user.name.clone(), text });
            proof {
                assert(self.afterstreams@.subrange(0, prev.len() as int) =~= prev);
            }
            user.respond(&mut self.sender, "Reminder added.");
            proof {
                assert(process_command_post(
                    *old(self),
                    *self,
                    *features,
                    command@,
                    *user,
                    *line,
                    k as int,
                    Result::<(), HandlerError>::Ok(()),
                ));
            }
            Ok(())
        } else if str_eq(command, "badword") && features.contains(Feature::BadWords) {
            {
            let res = self.bad_word.handle(is_mod, user, line, k, &mut self.sender);
            proof {
                assert(process_command_post(
                    *old(self),
                    *self,
                    *features,
                    command@,
                    *user,
                    *line,
                    k as int,
                    res,
                ));
            }
            res
        }
        } else if str_eq(command, "uptime") && features.contains(Feature::Admin) {
            self.handle_uptime(user);
            proof {
                assert(process_command_post(
                    *old(self),
                    *self,
                    *features,
                    command@,
                    *user,
                    *line,
                    k as int,
                    Result::<(), HandlerError>::Ok(()),
                ));
            }
            Ok(())
        } else if str_eq(command, "title") && features.contains(Feature::Admin) {
            let rest = line.rest(k).clone();
            if rest.as_str().is_empty() {
                self.handle_title(user);
            proof {
                assert(command@ == "title"@ && features.admin);
                assert(line.rest_view(k as int).len() == 0);
                assert(*self == (MessageHandler { sender: self.sender, ..*old(self) }));
                assert(self.sender.queue_view() == old(self).sender.queue_view().push(
                    MessageV::Privmsg {
                        target: user.target@,
                        text: respond_text(
                            user.name@,
                            match title_of(old(self).stream_infos, user.target@) {
                                Some(t) => t,
                                None => "Stream is not live right now, try again later!"@,
                            },
                        ),
                    },
                ));
                assert(process_command_post(
                    *old(self),
                    *self,
                    *features,
                    command@,
                    *user,
                    *line,
                    k as int,
                    Result::<(), HandlerError>::Ok(()),
                ));
            }
            Ok(())
            } else {
                match check_moderator(is_mod, user, &mut self.sender) {
                    Ok(()) => {}
                    Err(e) => {
                        return Err(e);
                    }
                }
                self.handle_update_title(user, &rest);
            proof {
                assert(self.tasks.deep_view() == old(self).tasks.deep_view().push(
                    TaskV::UpdateTitle {
                        channel_id: hash_stripped(user.target@),
                        title: line.rest_view(k as int),
                        requester: user.name@,
                        target: user.target@,
                    },
                ));
                assert(*self == (MessageHandler {
                    tasks: self.tasks,
                    sender: self.sender,
                    ..*old(self)
                }));
                assert(self.sender.queue_view() == old(self).sender.queue_view());
                assert(process_command_post(
                    *old(self),
                    *self,
                    *features,
                    command@,
                    *user,
                    *line,
                    k as int,
                    Result::<(), HandlerError>::Ok(()),
                ));
            }
            Ok(())
            }
        } else if str_eq(command, "game") && features.contains(Feature::Admin) {
            let rest = line.rest(k).clone();
            if rest.as_str().is_empty() {
                self.handle_game(user);
            proof {
                assert(command@ == "game"@ && features.admin);
                assert(line.rest_view(k as int).len() == 0);
                assert(*self == (MessageHandler { sender: self.sender, ..*old(self) }));
                assert(self.sender.queue_view() == old(self).sender.queue_view().push(
                    MessageV::Privmsg {
                        target: user.target@,
                        text: respond_text(
                            user.name@,
                            match game_of(old(self).stream_infos, user.target@) {
                                Some(g) => g,
                                None => "Unfortunately I don't know the game, sorry!"@,
                            },
                        ),
                    },
                ));
                assert(process_command_post(
                    *old(self),
                    *self,
                    *features,
                    command@,
                    *user,
                    *line,
                    k as int,
                    Result::<(), HandlerError>::Ok(()),
                ));
            }
            Ok(())
            } else {
                match check_moderator(is_mod, user, &mut self.sender) {
                    Ok(()) => {}
                    Err(e) => {
                        return Err(e);
                    }
                }
                self.handle_update_game(user, &rest);
            proof {
                assert(self.tasks.deep_view() == old(self).tasks.deep_view().push(
                    TaskV::UpdateGame {
                        channel_id: hash_stripped(user.target@),
                        game: line.rest_view(k as int),
                        requester: user.name@,
                        target: user.target@,
                    },
                ));
                assert(*self == (MessageHandler {
                    tasks: self.tasks,
                    sender: self.sender,
                    ..*old(self)
                }));
                assert(self.sender.queue_view() == old(self).sender.queue_view());
                assert(process_command_post(
                    *old(self),
                    *self,
                    *features,
                    command@,
                    *user,
                    *line,
                    k as int,
                    Result::<(), HandlerError>::Ok(()),
                ));
            }
            Ok(())
            }
        } else {
            // fallback lookups; all applicable branches run
            let currency: Option<String> = match self.currencies.get(user.target.as_str()) {
                Some(cn) => {
                    if str_eq(cn.as_str(), command) {
                        Some(cn.clone())
                    } else {
                        None
                    }
                }
                None => None,
            };
            match currency {
                Some(cn) => {
                    let bal: i32 = match self.balances.get(user.target.as_str(), user.name.as_str())
                        {
                        Some(v) => *v,
                        None => 0,
                    };
                    let mut msg = String::new();
                    msg.append("You have ");
                    let b = display_i64(bal as i64);
                    msg.append(b.as_str());
                    msg.append(" ");
                    msg.append(cn.as_str());
                    msg.append(".");
                    proof {
                        assert(msg@ =~= "You have "@ + dec_int_of(
                            balance_or_zero(
                                old(self).balances.spec_get(user.target@, user.name@),
                            ),
                        ) + " "@ + cn@ + "."@);
                    }
                    user.respond_owned(&mut self.sender, msg);
                }
                None => {}
            }
            if features.contains(Feature::Command) {
                let resp: Option<String> = match self.commands.get(
                    user.target.as_str(),
                    command,
                ) {
                    Some(t) => {
                        let vars = TemplateVars {
                            name: user.name.as_str(),
                            target: user.target.as_str(),
                        };
                        Some(render(t.as_str(), &vars))
                    }
                    None => None,
                };
                match resp {
                    Some(text) => {
                        self.sender.privmsg(user.target.as_str(), text);
                    }
                    None => {}
                }
            }
            if features.contains(Feature::Counter) {
                let found: Option<(i32, String)> = match self.counters.get(
                    user.target.as_str(),
                    command,
                ) {
                    Some(d) => Some((d.count, d.template.clone())),
                    None => None,
                };
                match found {
                    Some((count0, template)) => {
                        let wide: i64 = count0 as i64 + 1;
                        let nc: i32 = if wide > i32::MAX as i64 {
                            i32::MAX
                        } else {
                            wide as i32
                        };
                        let channel = user.target.clone();
                        let name = copy_string(command);
                        self.counters.set(
                            channel,
                            name,
                            CounterDef { count: nc, template: template.clone() },
                        );
                        let vars = CounterVars {
                            name: user.name.as_str(),
                            target: user.target.as_str(),
                            count: nc,
                        };
                        let text = render_counter(template.as_str(), &vars);
                        self.sender.privmsg(user.target.as_str(), text);
                    }
                    None => {}
                }
            }
            proof {
                assert(process_command_post(
                    *old(self),
                    *self,
                    *features,
                    command@,
                    *user,
                    *line,
                    k as int,
                    Result::<(), HandlerError>::Ok(()),
                ));
            }
            Ok(())
        }
    }
}

fn copy_string(s: &str) -> (r: String)
    ensures
        r@ == s@,
{
    let mut out = String::new();
    out.append(s);
    out
}

/// Confirm a finished title update to its requester.
pub fn respond_title_updated(user: &User, sender: &mut Sender)
    ensures
        final(sender).queue_view() == old(sender).queue_view().push(
            MessageV::Privmsg {
                target: user.target@,
                text: respond_text(user.name@, "Title updated!"@),
            },
        ),
{
    user.respond(sender, "Title updated!");
}

/// Confirm a finished game update to its requester.
pub fn respond_game_updated(user: &User, sender: &mut Sender)
    ensures
        final(sender).queue_view() == old(sender).queue_view().push(
            MessageV::Privmsg {
                target: user.target@,
                text: respond_text(user.name@, "Game updated!"@),
            },
        ),
{
    user.respond(sender, "Game updated!");
}

/// The text dispatch works on: the alias substitute when the line's first
/// word names an alias of the channel, otherwise the message text itself.
pub open spec fn dispatch_line_text(cfg: Option<Channel>, text: Seq<char>) -> Seq<char> {
    match cfg {
        Some(c) => match alias_substitute(c.aliases, words_of(text), rest_of(text, 1)) {
            Some(s) => s,
            None => text,
        },
        None => text,
    }
}

/// The two phases of one chat-message dispatch: command routing from `pre`
/// to `mid`, then moderation and the deletion decision from `mid` to `post`.
pub open spec fn handle_phases(
    pre: MessageHandler,
    mid: MessageHandler,
    post: MessageHandler,
    line: Line,
    m: ChatMessage,
    target: Seq<char>,
    text: Seq<char>,
) -> bool {
    let features = pre.features.features_of(target);
    let ltext = dispatch_line_text(pre.configs.spec_get(target), text);
    let w = words_of(ltext);
    let has_cmd = w.len() > 0 && w[0].len() > 0 && w[0][0] == '!' && user_name_of(m) is Some;
    &&& line.wf()
    &&& line.words_view() == w
    &&& forall|k2: int| 0 <= k2 <= w.len() ==> #[trigger] line.rest_view(k2) == rest_of(ltext, k2)
    &&& if has_cmd {
        exists|u: User, rr: Result<(), HandlerError>|
            {
                &&& u.name@ == user_name_of(m).unwrap()
                &&& u.target@ == target
                &&& #[trigger] process_command_post(pre, mid, features, w[0].skip(1), u, line, 1, rr)
            }
    } else {
        mid == pre
    }
    &&& post == (MessageHandler { sender: post.sender, ..mid })
    &&& {
        let del = deletion_decision(
            mid.moderators.deep_view(),
            mid.bad_word.bad_words,
            mid.whitelisted_hosts.deep_view(),
            features,
            m,
            text,
        );
        let warn = moderation_warning(
            mid.moderators.deep_view(),
            mid.bad_word.bad_words,
            features,
            m,
            text,
        );
        let qw = match warn {
            Some(wn) => mid.sender.queue_view().push(MessageV::Privmsg { target: wn.0, text: wn.1 }),
            None => mid.sender.queue_view(),
        };
        let qd = if del {
            match message_id_of(m) {
                Some(id) => qw.push(MessageV::Privmsg { target: target, text: delete_directive(id) }),
                None => qw,
            }
        } else {
            qw
        };
        post.sender.queue_view() == qd
    }
}

impl MessageHandler {
    /// Handle one inbound transport message.  A chat message goes through
    /// alias resolution, command routing, moderation and the deletion
    /// decision; a rejected or malformed message never stops the stream.
    /// Everything else is left alone.
    pub fn handle(&mut self, m: &ChatMessage)
        requires
            old(self).wf(),
        ensures
            final(self).wf(),
            !(m.command is Privmsg) ==> *final(self) == *old(self),
            m.command matches ChatCommand::Privmsg { target, text } ==> exists|
                mid: MessageHandler,
                line: Line,
            |
                #[trigger] handle_phases(*old(self), mid, *final(self), line, *m, target@, text@),
    {
        let (target, text): (String, String) = match &m.command {
            ChatCommand::Privmsg { target, text } => (target.clone(), text.clone()),
            _ => {
                return;
            }
        };
        let features = self.features.features(target.as_str());
        let line0 = tokenize(text.as_str());
        let subst: Option<String> = match self.configs.get(target.as_str()) {
            Some(cfg) => crate::config::resolve_alias(&cfg.aliases, &line0),
            None => None,
        };
        let line = match &subst {
            Some(s) => tokenize(s.as_str()),
            None => line0,
        };
        let ghost ltext = dispatch_line_text(old(self).configs.spec_get(target@), text@);
        proof {
            assert(line.words_view() == words_of(ltext));
            assert(forall|k2: int|
                0 <= k2 <= words_of(ltext).len() ==> #[trigger] line.rest_view(k2) == rest_of(
                    ltext,
                    k2,
                ));
        }
        let user_opt = Self::as_user(m);
        let mut dispatched = false;
        match line.word(0) {
            Some(first) => {
                let fc = chars_of(first.as_str());
                if fc.len() > 0 && fc[0] == '!' {
                    match &user_opt {
                        Some(u) => {
                            // the command name: the first word without its prefix
                            let n = fc.len();
                            let mut cmd_chars: Vec<char> = Vec::new();
                            let mut t: usize = 1;
                            while t < n
                                invariant
                                    1 <= t <= n,
                                    n == fc@.len(),
                                    cmd_chars@ =~= fc@.subrange(1, t as int),
                                decreases n - t,
                            {
                                cmd_chars.push(fc[t]);
                                t = t + 1;
                                proof {
                                    assert(cmd_chars@ =~= fc@.subrange(1, t as int));
                                }
                            }
                            proof {
                                assert(cmd_chars@ =~= fc@.skip(1));
                            }
                            let cmd = string_from_chars(&cmd_chars);
                            let ghost pre = *old(self);
                            let res = self.process_command(&features, cmd.as_str(), u, &line, 1);
                            dispatched = true;
                            proof {
                                let w = words_of(ltext);
                                assert(process_command_post(
                                    pre,
                                    *self,
                                    features,
                                    w[0].skip(1),
                                    *u,
                                    line,
                                    1,
                                    res,
                                ));
                            }
                        }
                        None => {}
                    }
                }
            }
            None => {}
        }
        let ghost mid = *self;
        let deleted = self.should_be_deleted(&features, m, text.as_str());
        if deleted {
            let tags = extract_tags(m);
            self.delete_message(target.as_str(), &tags);
        }
        proof {
            let pre = *old(self);
            let post = *self;
            let w = words_of(ltext);
            let fts = pre.features.features_of(target@);
            let has_cmd = w.len() > 0 && w[0].len() > 0 && w[0][0] == '!' && user_name_of(*m)
                is Some;
            if has_cmd {
                assert(dispatched);
            } else {
                assert(mid == pre);
            }
            assert(handle_phases(pre, mid, post, line, *m, target@, text@));
        }
    }
}

/// A moderator's messages are never flagged for deletion, whatever they
/// hold and whatever features are enabled.
pub proof fn lemma_moderator_never_deleted(
    moderators: Seq<Seq<char>>,
    filter: crate::moderation::WordFilter,
    whitelist: Seq<Seq<char>>,
    features: FeatureSet,
    m: ChatMessage,
    text: Seq<char>,
)
    requires
        match m.source_nickname {
            Some(u) => is_moderator_spec(moderators, u@),
            None => false,
        },
    ensures
        !deletion_decision(moderators, filter, whitelist, features, m, text),
        moderation_warning(moderators, filter, features, m, text) is None,
{
}

/// The filter reports at most one entry per message — the first matching
/// trimmed word — and a hit whose entry stores no reason emits no warning,
/// while the message is still flagged for deletion.
pub proof fn lemma_bad_word_no_reason(
    moderators: Seq<Seq<char>>,
    filter: crate::moderation::WordFilter,
    whitelist: Seq<Seq<char>>,
    features: FeatureSet,
    m: ChatMessage,
    text: Seq<char>,
    word: Seq<char>,
)
    requires
        features.bad_words,
        spec_bad_word(filter, text) == Some((word, None::<Seq<char>>)),
        match m.source_nickname {
            Some(u) => !is_moderator_spec(moderators, u@),
            None => true,
        },
    ensures
        deletion_decision(moderators, filter, whitelist, features, m, text),
        moderation_warning(moderators, filter, features, m, text) is None,
{
}

} // verus!
