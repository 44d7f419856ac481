//! Shared plumbing of the command handlers: the local failure signal, the
//! moderator check, and the hand-off of slow platform work.

use vstd::prelude::*;
use crate::sender::{MessageV, Sender, User};
use crate::text::{contains_str, seq_has_str};

verus! {

/// A handled, local failure: it aborts the current command branch and
/// nothing else.
#[derive(Clone, Copy, PartialEq, Eq, Structural, Debug)]
pub enum HandlerError {
    /// The sender lacks moderator rights; a scripted refusal was sent.
    ModeratorRequired,
    /// The arguments do not form a command; a scripted usage reply was sent.
    BadCommand,
    /// A required argument is missing; nothing was sent.
    ExpectedArgument,
}

/// Slow platform work a handler decided on; the process performs it outside
/// the dispatch loop and feeds the outcome back to a verified responder.
pub enum Task {
    /// Fire a ping notification at the external notification sink.
    NotifyPing,
    /// Resolve a song request to a track and add it to the player queue.
    SearchTrack { channel: String, query: String, requester: String, is_moderator: bool },
    /// Update the channel title through the platform API.
    UpdateTitle { channel_id: String, title: String, requester: String, target: String },
    /// Update the channel game through the platform API.
    UpdateGame { channel_id: String, game: String, requester: String, target: String },
}

/// Mathematical form of a task.
pub enum TaskV {
    NotifyPing,
    SearchTrack { channel: Seq<char>, query: Seq<char>, requester: Seq<char>, is_moderator: bool },
    UpdateTitle { channel_id: Seq<char>, title: Seq<char>, requester: Seq<char>, target: Seq<char> },
    UpdateGame { channel_id: Seq<char>, game: Seq<char>, requester: Seq<char>, target: Seq<char> },
}

impl View for Task {
    type V = TaskV;

    open spec fn view(&self) -> TaskV {
        match self {
            Task::NotifyPing => TaskV::NotifyPing,
            Task::SearchTrack { channel, query, requester, is_moderator } => TaskV::SearchTrack {
                channel: channel@,
                query: query@,
                requester: requester@,
                is_moderator: *is_moderator,
            },
            Task::UpdateTitle { channel_id, title, requester, target } => TaskV::UpdateTitle {
                channel_id: channel_id@,
                title: title@,
                requester: requester@,
                target: target@,
            },
            Task::UpdateGame { channel_id, game, requester, target } => TaskV::UpdateGame {
                channel_id: channel_id@,
                game: game@,
                requester: requester@,
                target: target@,
            },
        }
    }
}

impl DeepView for Task {
    type V = TaskV;

    open spec fn deep_view(&self) -> TaskV {
        self.view()
    }
}

/// The scripted refusal sent to a non-moderator who tries a privileged
/// command.
pub open spec fn moderator_refusal(name: Seq<char>) -> Seq<char> {
    "Do you think this is a democracy "@ + name + "? LUL"@
}

/// Whether `name` is one of the configured moderators.
pub open spec fn is_moderator_spec(moderators: Seq<Seq<char>>, name: Seq<char>) -> bool {
    seq_has_str(moderators, name)
}

/// Test whether the user is a moderator.
pub fn is_moderator(moderators: &Vec<String>, user: &User) -> (r: bool)
    ensures
        r == is_moderator_spec(moderators.deep_view(), user.name@),
{
    contains_str(moderators, user.name.as_str())
}

/// Check that the user is a moderator.  A non-moderator gets the scripted
/// refusal, and the current command branch is aborted; a moderator passes
/// with nothing sent.
pub fn check_moderator(is_mod: bool, user: &User, sender: &mut Sender) -> (r: Result<
    (),
    HandlerError,
>)
    ensures
        is_mod ==> r is Ok && final(sender).queue_view() == old(sender).queue_view(),
        !is_mod ==> r == Result::<(), HandlerError>::Err(HandlerError::ModeratorRequired)
            && final(sender).queue_view() == old(sender).queue_view().push(
            MessageV::Privmsg { target: user.target@, text: moderator_refusal(user.name@) },
        ),
{
    if is_mod {
        return Ok(());
    }
    let mut t = String::new();
    t.append("Do you think this is a democracy ");
    t.append(user.name.as_str());
    t.append("? LUL");
    proof {
        assert(t@ =~= moderator_refusal(user.name@));
    }
    sender.privmsg(user.target.as_str(), t);
    Err(HandlerError::ModeratorRequired)
}

} // verus!
