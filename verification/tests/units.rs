//! Unit tests of the building blocks: text rendering, tokenizing, tables,
//! the player model, the rate limiter and the loop decisions.

use setmod::loops::{player_event_message, reward_tick, PlayerEvent};
use setmod::moderation::{has_bad_link, test_bad_words};
use setmod::player::{AddTrackError, PlayerModel, SongItem};
use setmod::ratelimit::{Acquire, TokenBucket};
use setmod::remote::{Item, PlayerUpdate};
use setmod::sender::{Message, Sender, User};
use setmod::song::{display_songs, respond_add_track_outcome};
use setmod::status::{apply_refresh, merge_stream_info, StreamInfos};
use setmod::stores::union_distinct;
use setmod::table::{Table1, Table2};
use setmod::template::{render, render_counter, CounterVars, TemplateVars};
use setmod::text::{
    chars_of, compact_duration, contains_str, display_i64, display_u64, human_time, join_strings,
    parse_u32_at, parse_usize_at, sort_strings, str_eq, string_le,
};
use setmod::tokens::{tokenize, trimmed_words};

fn song(name: &str, user: Option<&str>) -> SongItem {
    SongItem {
        name: name.to_string(),
        artists: None,
        track_id: name.to_string(),
        user: user.map(|u| u.to_string()),
        duration_secs: 60,
    }
}

#[test]
fn decimal_rendering() {
    assert_eq!(display_u64(0), "0");
    assert_eq!(display_u64(42), "42");
    assert_eq!(display_u64(407), "407");
    assert_eq!(display_u64(1000000), "1000000");
    assert_eq!(display_i64(-7), "-7");
    assert_eq!(display_i64(0), "0");
}

#[test]
fn durations() {
    assert_eq!(human_time(3725), "1h 2m 5s");
    assert_eq!(human_time(0), "0h 0m 0s");
    assert_eq!(compact_duration(65), "0h1m5s");
}

#[test]
fn number_parsing() {
    let w = chars_of("128");
    assert_eq!(parse_u32_at(&w, 0), Some(128));
    let w = chars_of("+10");
    assert_eq!(parse_u32_at(&w, 1), Some(10));
    let w = chars_of("12x");
    assert_eq!(parse_u32_at(&w, 0), None);
    let w = chars_of("");
    assert_eq!(parse_u32_at(&w, 0), None);
    let w = chars_of("99999999999999999999");
    assert_eq!(parse_u32_at(&w, 0), None);
}

#[test]
fn string_helpers() {
    assert!(str_eq("abc", "abc"));
    assert!(!str_eq("abc", "abd"));
    assert!(!str_eq("abc", "ab"));
    let v = vec!["a".to_string(), "b".to_string()];
    assert!(contains_str(&v, "b"));
    assert!(!contains_str(&v, "c"));
    assert_eq!(join_strings(&v, ", "), "a, b");
}

#[test]
fn tokenizing_words_and_rests() {
    let line = tokenize("!badword edit shucks no reason  given");
    assert_eq!(line.words.len(), 6);
    assert_eq!(line.words[0], "!badword");
    assert_eq!(line.words[2], "shucks");
    assert_eq!(line.rest(3).as_str(), "no reason  given");
    assert_eq!(line.rest(6).as_str(), "");
    let empty = tokenize("   ");
    assert_eq!(empty.words.len(), 0);
}

#[test]
fn trimmed_word_splitting() {
    let w = trimmed_words("so, x! and x2?");
    assert_eq!(w, vec!["so", "x", "and", "x2"]);
}

#[test]
fn table_set_get_remove() {
    let mut t: Table2<String> = Table2::new();
    t.set("#c".to_string(), "a".to_string(), "1".to_string());
    t.set("#c".to_string(), "a".to_string(), "2".to_string());
    assert_eq!(t.get("#c", "a"), Some(&"2".to_string()));
    assert_eq!(t.get("#c", "b"), None);
    assert!(t.remove("#c", "a"));
    assert!(!t.remove("#c", "a"));
    let mut s: Table1<u32> = Table1::new();
    s.set("k".to_string(), 7);
    assert_eq!(s.get("k"), Some(&7));
    assert!(s.contains("k"));
    assert!(!s.contains("j"));
}

#[test]
fn bad_word_filter_first_match_only() {
    let mut filter: Table1<Option<String>> = Table1::new();
    filter.set("x".to_string(), None);
    filter.set("y".to_string(), Some("why".to_string()));
    let hit = test_bad_words(&filter, "a y then x").unwrap();
    assert_eq!(hit.word, "y");
    assert_eq!(hit.why, Some("why".to_string()));
    assert!(test_bad_words(&filter, "all clean").is_none());
}

#[test]
fn url_hosts_checked_against_whitelist() {
    let wl = vec!["example.com".to_string()];
    assert!(has_bad_link(&wl, "check http://evil.com/x"));
    assert!(!has_bad_link(&wl, "check http://example.com/x"));
    assert!(has_bad_link(&wl, "https://evil.com"));
    assert!(!has_bad_link(&wl, "no links at all"));
    assert!(!has_bad_link(&wl, "http:// is not a url"));
}

#[test]
fn template_rendering() {
    let vars = TemplateVars { name: "alice", target: "#chan" };
    assert_eq!(render("hi {{name}} in {{target}}", &vars), "hi alice in #chan");
    let cvars = CounterVars { name: "alice", target: "#chan", count: 3 };
    assert_eq!(render_counter("{{name}}: {{count}}", &cvars), "alice: 3");
}

#[test]
fn token_bucket_burst_and_wait() {
    let mut b = TokenBucket::new(10, 95, 0);
    for _ in 0..95 {
        assert_eq!(b.acquire(0), Acquire::Ready);
    }
    // the 96th immediate send has to wait one full refill interval
    assert_eq!(b.acquire(0), Acquire::WaitUntil(100_000_000));
    // after one interval a single token is back
    assert_eq!(b.acquire(100_000_000), Acquire::Ready);
    assert_eq!(b.acquire(100_000_000), Acquire::WaitUntil(200_000_000));
}

#[test]
fn player_add_track_outcomes() {
    let mut p = PlayerModel::new(50, 2, 1);
    assert_eq!(p.add_track("alice", song("a", Some("alice")), false), Ok(0));
    assert_eq!(
        p.add_track("alice", song("a", Some("alice")), false),
        Err(AddTrackError::QueueContainsTrack(0))
    );
    assert_eq!(
        p.add_track("alice", song("b", Some("alice")), false),
        Err(AddTrackError::TooManyUserTracks(1))
    );
    assert_eq!(p.add_track("bob", song("b", Some("bob")), false), Ok(1));
    assert_eq!(p.add_track("mod", song("c", Some("mod")), true), Err(AddTrackError::QueueFull));
}

#[test]
fn player_skip_and_remove() {
    let mut p = PlayerModel::new(50, 10, 5);
    p.queue.push(song("a", Some("alice")));
    p.queue.push(song("b", Some("bob")));
    p.skip();
    assert_eq!(p.current.as_ref().unwrap().name, "a");
    assert_eq!(p.queue.len(), 1);
    let removed = p.remove_last_by_user("bob").unwrap();
    assert_eq!(removed.name, "b");
    assert!(p.remove_last_by_user("bob").is_none());
}

#[test]
fn player_length_sums_durations() {
    let mut p = PlayerModel::new(50, 10, 5);
    p.queue.push(song("a", None));
    p.queue.push(song("b", None));
    assert_eq!(p.length(), (2, 120));
}

#[test]
fn add_track_outcome_replies() {
    let user = User { name: "alice".to_string(), target: "#chan".to_string() };
    let mut sender = Sender::new();
    let _ = respond_add_track_outcome(&user, &mut sender, Ok((2, song("a", None))));
    let _ = respond_add_track_outcome(&user, &mut sender, Err(AddTrackError::QueueFull));
    let _ = respond_add_track_outcome(&user, &mut sender, Err(AddTrackError::TooManyUserTracks(1)));
    let q = sender.take_queue();
    let texts: Vec<String> = q
        .into_iter()
        .map(|m| match m {
            Message::Privmsg { text, .. } => text,
            Message::CapReq { cap } => cap,
        })
        .collect();
    assert_eq!(texts[0], "alice -> Added a at position #3!");
    assert_eq!(texts[1], "alice -> Player is full, try again later!");
    assert_eq!(texts[2], "alice -> <3 your enthusiasm, but you already have a track in the queue.");
}

#[test]
fn display_songs_formats_lines() {
    let user = User { name: "bob".to_string(), target: "#chan".to_string() };
    let mut sender = Sender::new();
    let items = vec![song("a", Some("alice")), song("b", None)];
    display_songs(&mut sender, &user, Some(1), &items);
    display_songs(&mut sender, &user, None, &Vec::new());
    let q = sender.take_queue();
    match &q[0] {
        Message::Privmsg { text, .. } => {
            assert_eq!(text, "bob -> #0: a (alice); #1: b ... and 1 more.")
        }
        _ => panic!("expected a chat message"),
    }
    match &q[1] {
        Message::Privmsg { text, .. } => assert_eq!(text, "bob -> Song queue is empty."),
        _ => panic!("expected a chat message"),
    }
}

#[test]
fn reward_tick_skips_empty_roster() {
    let mut balances: Table2<i32> = Table2::new();
    let mut sender = Sender::new();
    let none: Vec<String> = Vec::new();
    let rewarded = reward_tick(
        &mut balances,
        &mut sender,
        "#chan",
        true,
        "gold",
        10,
        &none,
        &none,
        &none,
    );
    assert!(!rewarded);
    assert_eq!(sender.take_queue().len(), 0);
}

#[test]
fn reward_tick_pays_everyone_once() {
    let mut balances: Table2<i32> = Table2::new();
    balances.set("#chan".to_string(), "alice".to_string(), 5);
    let mut sender = Sender::new();
    let viewers = vec!["alice".to_string(), "bob".to_string()];
    let mods = vec!["alice".to_string()];
    let caster = vec!["caster".to_string()];
    let rewarded = reward_tick(
        &mut balances,
        &mut sender,
        "#chan",
        true,
        "gold",
        10,
        &viewers,
        &mods,
        &caster,
    );
    assert!(rewarded);
    assert_eq!(balances.get("#chan", "alice"), Some(&15));
    assert_eq!(balances.get("#chan", "bob"), Some(&10));
    assert_eq!(balances.get("#chan", "caster"), Some(&10));
    let q = sender.take_queue();
    match &q[0] {
        Message::Privmsg { target, text } => {
            assert_eq!(target, "#chan");
            assert_eq!(text, "/me has given 10 gold to all viewers!");
        }
        _ => panic!("expected a chat message"),
    }
}

#[test]
fn union_is_distinct() {
    let a = vec!["x".to_string(), "y".to_string()];
    let b = vec!["y".to_string(), "z".to_string()];
    let c: Vec<String> = Vec::new();
    let u = union_distinct(&a, &b, &c);
    assert_eq!(u, vec!["x".to_string(), "y".to_string(), "z".to_string()]);
}

#[test]
fn player_events_announce_once() {
    let m = player_event_message("#chan", &PlayerEvent::Playing(song("a", Some("alice"))));
    match m {
        Message::Privmsg { target, text } => {
            assert_eq!(target, "#chan");
            assert_eq!(text, "Now playing: a, requested by alice.");
        }
        _ => panic!("expected a chat message"),
    }
    match player_event_message("#chan", &PlayerEvent::Pausing) {
        Message::Privmsg { text, .. } => assert_eq!(text, "Pausing playback."),
        _ => panic!("expected a chat message"),
    }
    match player_event_message("#chan", &PlayerEvent::Empty) {
        Message::Privmsg { text, .. } => {
            assert_eq!(text, "Song queue is empty (use !song request <spotify-id> to add more).")
        }
        _ => panic!("expected a chat message"),
    }
}

#[test]
fn stream_status_cell_is_replaced() {
    let mut infos: StreamInfos = Table1::new();
    let info = merge_stream_info("Live coding".to_string(), Some("rust".to_string()), Some(100));
    apply_refresh(&mut infos, "#chan".to_string(), info);
    let cell = infos.get("#chan").unwrap().as_ref().unwrap();
    assert_eq!(cell.title, "Live coding");
    assert_eq!(cell.game, Some("rust".to_string()));
    assert_eq!(cell.started_at, Some(100));
}

#[test]
fn remote_items_carry_url_and_duration() {
    let it = Item::from_song(&song("a", Some("alice")));
    assert_eq!(it.track_url, "https://open.spotify.com/track/a");
    assert_eq!(it.duration, "0h1m0s");
    let up = PlayerUpdate::from_player(&Some(song("c", None)), &vec![song("a", None)]);
    assert!(up.current.is_some());
    assert_eq!(up.items.len(), 1);
}

#[test]
fn add_track_failure_is_apologised() {
    let user = User { name: "alice".to_string(), target: "#chan".to_string() };
    let mut sender = Sender::new();
    let _ = respond_add_track_outcome(&user, &mut sender, Err(AddTrackError::Failed));
    let q = sender.take_queue();
    match &q[0] {
        Message::Privmsg { text, .. } => {
            assert_eq!(text, "alice -> There was a problem adding your song :(")
        }
        _ => panic!("expected a chat message"),
    }
}

#[test]
fn lexicographic_order_and_sort() {
    assert!(string_le("abc", "abd"));
    assert!(string_le("ab", "abc"));
    assert!(!string_le("abd", "abc"));
    assert!(string_le("abc", "abc"));
    assert!(string_le("Zoo", "apple"));
    let v = vec!["pear".to_string(), "apple".to_string(), "fig".to_string(), "apple".to_string()];
    let sorted = sort_strings(&v);
    assert_eq!(
        sorted,
        vec!["apple".to_string(), "apple".to_string(), "fig".to_string(), "pear".to_string()]
    );
}

#[test]
fn machine_word_parsing() {
    let w = chars_of("4294967296");
    assert_eq!(parse_u32_at(&w, 0), None);
    assert_eq!(parse_usize_at(&w, 0), Some(4294967296));
    let w = chars_of("0");
    assert_eq!(parse_usize_at(&w, 0), Some(0));
    let w = chars_of("12x");
    assert_eq!(parse_usize_at(&w, 0), None);
}
