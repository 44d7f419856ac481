//! End-to-end tests: inbound chat messages through the full dispatch
//! pipeline of the message handler.

use setmod::bad_word::BadWord;
use setmod::config::Channel;
use setmod::features::{Feature, FeatureSet, Features};
use setmod::message::{ChatCommand, ChatMessage, Tag};
use setmod::player::{PlayerModel, SongItem};
use setmod::router::{MessageHandler, PlayerSlot};
use setmod::sender::Message;
use setmod::song::Song;
use setmod::stores::CounterDef;
use setmod::table::{Table1, Table2};

fn all_features() -> FeatureSet {
    let mut f = FeatureSet::new();
    f.insert(Feature::Song);
    f.insert(Feature::Command);
    f.insert(Feature::Counter);
    f.insert(Feature::AfterStream);
    f.insert(Feature::BadWords);
    f.insert(Feature::UrlWhitelist);
    f.insert(Feature::Admin);
    f
}

fn test_handler() -> MessageHandler {
    let mut features = Features::new();
    features.insert("#chan".to_string(), all_features());
    let mut currencies: Table1<String> = Table1::new();
    currencies.set("#chan".to_string(), "gold".to_string());
    let mut player = PlayerModel::new(50, 10, 1);
    player.queue.push(SongItem {
        name: "Song One".to_string(),
        artists: Some("Artist".to_string()),
        track_id: "t1".to_string(),
        user: Some("bob".to_string()),
        duration_secs: 65,
    });
    let players = vec![PlayerSlot { channel: "#chan".to_string(), song: Song { player } }];
    let mut aliases: Table1<String> = Table1::new();
    aliases.set("!sr".to_string(), "!song request".to_string());
    let mut configs: Table1<Channel> = Table1::new();
    configs.set(
        "#chan".to_string(),
        Channel {
            name: "#chan".to_string(),
            streamer: None,
            currency: None,
            notify_rewards: false,
            has_player: true,
            features: all_features(),
            aliases,
        },
    );
    MessageHandler::new(
        vec!["mod".to_string()],
        vec!["example.com".to_string()],
        features,
        currencies,
        Table1::new(),
        Table2::new(),
        Table2::new(),
        BadWord { bad_words: Table1::new() },
        players,
        configs,
        Table2::new(),
    )
}

fn privmsg(from: &str, text: &str) -> ChatMessage {
    ChatMessage {
        source_nickname: Some(from.to_string()),
        command: ChatCommand::Privmsg { target: "#chan".to_string(), text: text.to_string() },
        tags: Vec::new(),
    }
}

fn queue_texts(h: &mut MessageHandler) -> Vec<(String, String)> {
    let q = h.sender.take_queue();
    q.into_iter()
        .map(|m| match m {
            Message::Privmsg { target, text } => (target, text),
            Message::CapReq { cap } => ("<cap>".to_string(), cap),
        })
        .collect()
}

#[test]
fn song_volume_rejected_for_non_moderator() {
    let mut h = test_handler();
    h.handle(&privmsg("alice", "!song volume +10"));
    let q = queue_texts(&mut h);
    assert_eq!(q.len(), 1);
    assert_eq!(q[0].1, "Do you think this is a democracy alice? LUL");
    assert_eq!(h.players[0].song.player.volume, 50);
}

#[test]
fn song_volume_applied_for_moderator() {
    let mut h = test_handler();
    h.handle(&privmsg("mod", "!song volume +10"));
    let q = queue_texts(&mut h);
    assert_eq!(q.len(), 1);
    assert_eq!(q[0].1, "mod -> Volume set to 60.");
    assert_eq!(h.players[0].song.player.volume, 60);
}

#[test]
fn song_volume_read_back() {
    let mut h = test_handler();
    h.handle(&privmsg("alice", "!song volume"));
    let q = queue_texts(&mut h);
    assert_eq!(q[0].1, "alice -> Current volume: 50.");
}

#[test]
fn badword_edit_inserts_entry_with_reason() {
    let mut h = test_handler();
    h.handle(&privmsg("mod", "!badword edit shucks no reason given"));
    let q = queue_texts(&mut h);
    assert_eq!(q.len(), 1);
    assert_eq!(q[0].1, "mod -> Bad word edited");
    let why = h.bad_word.bad_words.get("shucks").cloned();
    assert_eq!(why, Some(Some("no reason given".to_string())));
}

#[test]
fn badword_edit_rejected_for_non_moderator() {
    let mut h = test_handler();
    h.handle(&privmsg("alice", "!badword edit shucks whatever"));
    let q = queue_texts(&mut h);
    assert_eq!(q[0].1, "Do you think this is a democracy alice? LUL");
    assert!(h.bad_word.bad_words.get("shucks").is_none());
}

#[test]
fn currency_fallback_with_no_record_reports_zero() {
    let mut h = test_handler();
    h.handle(&privmsg("alice", "!gold"));
    let q = queue_texts(&mut h);
    assert_eq!(q.len(), 1);
    assert_eq!(q[0].1, "alice -> You have 0 gold.");
}

#[test]
fn counter_two_dispatches_never_lose_an_update() {
    let mut h = test_handler();
    h.counters.set(
        "#chan".to_string(),
        "boing".to_string(),
        CounterDef { count: 0, template: "count is {{count}}".to_string() },
    );
    h.handle(&privmsg("alice", "!boing"));
    h.handle(&privmsg("bob", "!boing"));
    let q = queue_texts(&mut h);
    assert_eq!(q.len(), 2);
    assert_eq!(q[0].1, "count is 1");
    assert_eq!(q[1].1, "count is 2");
    let d = h.counters.get("#chan", "boing").unwrap();
    assert_eq!(d.count, 2);
}

#[test]
fn moderator_messages_are_never_deleted() {
    let mut h = test_handler();
    h.bad_word.bad_words.set("x".to_string(), None);
    let mut m = privmsg("mod", "x marks the spot");
    m.tags.push(Tag { name: "id".to_string(), value: Some("abc".to_string()) });
    h.handle(&m);
    let q = queue_texts(&mut h);
    assert_eq!(q.len(), 0);
}

#[test]
fn bad_word_without_reason_deletes_without_warning() {
    let mut h = test_handler();
    h.bad_word.bad_words.set("x".to_string(), None);
    let mut m = privmsg("alice", "well x indeed");
    m.tags.push(Tag { name: "id".to_string(), value: Some("abc".to_string()) });
    h.handle(&m);
    let q = queue_texts(&mut h);
    assert_eq!(q.len(), 1);
    assert_eq!(q[0].0, "#chan");
    assert_eq!(q[0].1, "/delete abc");
}

#[test]
fn bad_word_with_reason_warns_and_deletes() {
    let mut h = test_handler();
    h.bad_word
        .bad_words
        .set("x".to_string(), Some("{{name}} mind your words".to_string()));
    let mut m = privmsg("alice", "well x indeed");
    m.tags.push(Tag { name: "id".to_string(), value: Some("abc".to_string()) });
    h.handle(&m);
    let q = queue_texts(&mut h);
    assert_eq!(q.len(), 2);
    assert_eq!(q[0].1, "alice mind your words");
    assert_eq!(q[1].1, "/delete abc");
}

#[test]
fn bad_link_host_off_whitelist_is_deleted() {
    let mut h = test_handler();
    let mut m = privmsg("alice", "check http://evil.com/x");
    m.tags.push(Tag { name: "id".to_string(), value: Some("zz".to_string()) });
    h.handle(&m);
    let q = queue_texts(&mut h);
    assert_eq!(q.len(), 1);
    assert_eq!(q[0].1, "/delete zz");
}

#[test]
fn whitelisted_link_is_kept() {
    let mut h = test_handler();
    let mut m = privmsg("alice", "check http://example.com/x");
    m.tags.push(Tag { name: "id".to_string(), value: Some("zz".to_string()) });
    h.handle(&m);
    let q = queue_texts(&mut h);
    assert_eq!(q.len(), 0);
}

#[test]
fn deletion_without_message_id_is_a_no_op() {
    let mut h = test_handler();
    h.bad_word.bad_words.set("x".to_string(), None);
    h.handle(&privmsg("alice", "x"));
    let q = queue_texts(&mut h);
    assert_eq!(q.len(), 0);
}

#[test]
fn ping_replies_and_notifies() {
    let mut h = test_handler();
    h.handle(&privmsg("alice", "!ping"));
    let q = queue_texts(&mut h);
    assert_eq!(q[0].1, "alice -> What do you want?");
    assert_eq!(h.tasks.len(), 1);
}

#[test]
fn afterstream_appends_reminder_verbatim() {
    let mut h = test_handler();
    h.handle(&privmsg("alice", "!afterstream look at  this   spacing"));
    let q = queue_texts(&mut h);
    assert_eq!(q[0].1, "alice -> Reminder added.");
    assert_eq!(h.afterstreams.len(), 1);
    assert_eq!(h.afterstreams[0].user, "alice");
    assert_eq!(h.afterstreams[0].text, "look at  this   spacing");
}

#[test]
fn custom_command_edit_and_invoke() {
    let mut h = test_handler();
    h.handle(&privmsg("mod", "!command edit hello hi {{name}} in {{target}}"));
    let q = queue_texts(&mut h);
    assert_eq!(q[0].1, "mod -> Edited command.");
    h.handle(&privmsg("alice", "!hello"));
    let q = queue_texts(&mut h);
    assert_eq!(q.len(), 1);
    assert_eq!(q[0].1, "hi alice in #chan");
}

#[test]
fn command_list_shows_names_sorted() {
    let mut h = test_handler();
    h.commands.set("#chan".to_string(), "bravo".to_string(), "x".to_string());
    h.commands.set("#chan".to_string(), "alpha".to_string(), "y".to_string());
    h.commands.set("#chan".to_string(), "alp".to_string(), "z".to_string());
    h.handle(&privmsg("alice", "!command list"));
    let q = queue_texts(&mut h);
    assert_eq!(q[0].1, "alice -> Custom commands: !alp, !alpha, !bravo");
}

#[test]
fn counter_list_shows_names_sorted() {
    let mut h = test_handler();
    h.counters.set(
        "#chan".to_string(),
        "zz".to_string(),
        CounterDef { count: 0, template: "z".to_string() },
    );
    h.counters.set(
        "#chan".to_string(),
        "aa".to_string(),
        CounterDef { count: 0, template: "a".to_string() },
    );
    h.handle(&privmsg("alice", "!counter list"));
    let q = queue_texts(&mut h);
    assert_eq!(q[0].1, "alice -> Custom counters: !aa, !zz");
}

#[test]
fn last_message_id_tag_wins() {
    let mut h = test_handler();
    h.bad_word.bad_words.set("x".to_string(), None);
    let mut m = privmsg("alice", "x");
    m.tags.push(Tag { name: "id".to_string(), value: Some("first".to_string()) });
    m.tags.push(Tag { name: "other".to_string(), value: Some("nope".to_string()) });
    m.tags.push(Tag { name: "id".to_string(), value: Some("second".to_string()) });
    h.handle(&m);
    let q = queue_texts(&mut h);
    assert_eq!(q.len(), 1);
    assert_eq!(q[0].1, "/delete second");
}

#[test]
fn alias_resolves_before_dispatch() {
    let mut h = test_handler();
    h.handle(&privmsg("alice", "!sr some tune"));
    // the alias rewrites to "!song request some tune", which queues a search
    assert_eq!(h.tasks.len(), 1);
    let q = queue_texts(&mut h);
    assert_eq!(q.len(), 0);
}

#[test]
fn uptime_not_live_reply() {
    let mut h = test_handler();
    h.handle(&privmsg("alice", "!uptime"));
    let q = queue_texts(&mut h);
    assert_eq!(q[0].1, "alice -> Stream is not live right now, try again later!");
}

#[test]
fn title_update_is_moderator_gated_and_queued() {
    let mut h = test_handler();
    h.handle(&privmsg("alice", "!title My New Title"));
    let q = queue_texts(&mut h);
    assert_eq!(q[0].1, "Do you think this is a democracy alice? LUL");
    assert_eq!(h.tasks.len(), 0);
    h.handle(&privmsg("mod", "!title My New Title"));
    assert_eq!(h.tasks.len(), 1);
}

#[test]
fn gated_command_with_feature_off_falls_back() {
    let mut h = test_handler();
    // a channel with no features at all
    h.features.insert("#other".to_string(), FeatureSet::new());
    let m = ChatMessage {
        source_nickname: Some("alice".to_string()),
        command: ChatCommand::Privmsg {
            target: "#other".to_string(),
            text: "!badword edit x".to_string(),
        },
        tags: Vec::new(),
    };
    h.handle(&m);
    let q = queue_texts(&mut h);
    // no badword handling, no fallback match: nothing is sent
    assert_eq!(q.len(), 0);
    assert!(h.bad_word.bad_words.get("x").is_none());
}

#[test]
fn song_delete_last_lowercases_the_user() {
    let mut h = test_handler();
    h.handle(&privmsg("mod", "!song delete last BOB"));
    let q = queue_texts(&mut h);
    assert_eq!(q[0].1, "mod -> Removed: Song One by Artist!");
    assert_eq!(h.players[0].song.player.queue.len(), 0);
}

#[test]
fn song_list_displays_queue() {
    let mut h = test_handler();
    h.handle(&privmsg("alice", "!song list"));
    let q = queue_texts(&mut h);
    assert_eq!(q[0].1, "alice -> #0: Song One by Artist (bob).");
}

#[test]
fn song_volume_bad_argument_is_refused() {
    let mut h = test_handler();
    h.handle(&privmsg("mod", "!song volume up"));
    let q = queue_texts(&mut h);
    assert_eq!(q[0].1, "mod -> expected numeric argument");
    assert_eq!(h.players[0].song.player.volume, 50);
}

#[test]
fn badword_edit_without_word_changes_nothing() {
    let mut h = test_handler();
    h.handle(&privmsg("mod", "!badword edit"));
    let q = queue_texts(&mut h);
    // the missing argument aborts the branch without a reply
    assert_eq!(q.len(), 0);
    assert_eq!(h.bad_word.bad_words.entries.len(), 0);
}

#[test]
fn song_request_queues_a_search_task() {
    let mut h = test_handler();
    h.handle(&privmsg("alice", "!song request never gonna"));
    assert_eq!(h.tasks.len(), 1);
    h.handle(&privmsg("alice", "!song request"));
    let q = queue_texts(&mut h);
    assert_eq!(q[0].1, "alice -> expected: !song request <id>|<text>");
    assert_eq!(h.tasks.len(), 1);
}

#[test]
fn fallback_runs_every_applicable_branch() {
    let mut h = test_handler();
    h.commands.set("#chan".to_string(), "gold".to_string(), "golden words".to_string());
    h.counters.set(
        "#chan".to_string(),
        "gold".to_string(),
        CounterDef { count: 7, template: "gold seen {{count}} times".to_string() },
    );
    h.handle(&privmsg("alice", "!gold"));
    let q = queue_texts(&mut h);
    assert_eq!(q.len(), 3);
    assert_eq!(q[0].1, "alice -> You have 0 gold.");
    assert_eq!(q[1].1, "golden words");
    assert_eq!(q[2].1, "gold seen 8 times");
}

#[test]
fn counter_admin_edit_and_delete() {
    let mut h = test_handler();
    h.handle(&privmsg("mod", "!counter edit boing it boinged {{count}} times"));
    let q = queue_texts(&mut h);
    assert_eq!(q[0].1, "mod -> Edited command.");
    assert!(h.counters.get("#chan", "boing").is_some());
    h.handle(&privmsg("mod", "!counter delete boing"));
    let q = queue_texts(&mut h);
    assert_eq!(q[0].1, "mod -> Deleted command `boing`.");
    assert!(h.counters.get("#chan", "boing").is_none());
    h.handle(&privmsg("mod", "!counter delete boing"));
    let q = queue_texts(&mut h);
    assert_eq!(q[0].1, "mod -> No such command.");
}

#[test]
fn uptime_reports_live_time() {
    let mut h = test_handler();
    setmod::status::apply_refresh(
        &mut h.stream_infos,
        "#chan".to_string(),
        setmod::status::merge_stream_info("On air".to_string(), None, Some(0)),
    );
    h.handle(&privmsg("alice", "!uptime"));
    let q = queue_texts(&mut h);
    assert!(q[0].1.starts_with("alice -> Stream has been live for "));
    assert!(q[0].1.ends_with("."));
    h.handle(&privmsg("alice", "!title"));
    let q = queue_texts(&mut h);
    assert_eq!(q[0].1, "alice -> On air");
}
