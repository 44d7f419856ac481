//! Cached platform status per channel: stream title, game, and when the
//! stream went live.
//!
//! Each channel's status-refresh loop is the only writer of that channel's
//! cell; a failed refresh leaves the last known value intact.

use vstd::prelude::*;
use crate::table::Table1;

verus! {

/// Platform status of one channel.  Absent entirely until the first
/// successful refresh; a missing `started_at` means the stream is not live.
pub struct StreamInfo {
    /// Channel title.
    pub title: String,
    /// The game being played, if the platform knows one.
    pub game: Option<String>,
    /// When the stream started, as seconds since the Unix epoch; absent when
    /// not live.
    pub started_at: Option<i64>,
}

/// The per-channel status cells: absent until the loop's first success.
pub type StreamInfos = Table1<Option<StreamInfo>>;

/// Merge one refresh result into a status value: the channel metadata gives
/// title and game, the stream lookup gives the start time when live.
pub fn merge_stream_info(title: String, game: Option<String>, started_at: Option<i64>) -> (r:
    StreamInfo)
    ensures
        r.title@ == title@,
        r.game == game,
        r.started_at == started_at,
{
    StreamInfo { title, game, started_at }
}

/// Replace a channel's status cell with a freshly merged value.  Other
/// channels' cells are untouched.
pub fn apply_refresh(infos: &mut StreamInfos, channel: String, info: StreamInfo)
    requires
        old(infos).wf(),
    ensures
        final(infos).wf(),
        final(infos).spec_get(channel@) == Some(Some(info)),
        forall|c2: Seq<char>| c2 != channel@ ==> final(infos).spec_get(c2) == old(infos).spec_get(c2),
{
    infos.set(channel, Some(info));
}

/// Relies on `chrono::Utc::now`: the system clock's current time, in whole
/// seconds since the Unix epoch.  Nothing is assumed of the value.  The call
/// itself requires a system clock at or after the epoch; on a clock before
/// it, the underlying library stops the process.
#[verifier::external_body]
pub(crate) fn now_timestamp() -> i64 {
    chrono::Utc::now().timestamp()
}

/// Seconds the stream has been live: the distance from start to now, never
/// negative.
pub open spec fn uptime_secs(started_at: int, now: int) -> nat {
    if now >= started_at {
        (now - started_at) as nat
    } else {
        0
    }
}

/// Compute the live time in seconds from the start time and the clock.
pub fn compute_uptime(started_at: i64, now: i64) -> (r: u64)
    ensures
        r == uptime_secs(started_at as int, now as int),
{
    if now >= started_at {
        let a = now as i128;
        let b = started_at as i128;
        let d = a - b;
        d as u64
    } else {
        0
    }
}

} // verus!
