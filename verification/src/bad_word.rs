//! Handler for the `!badword` command: moderators edit and delete entries of
//! the word filter.

use vstd::prelude::*;
use crate::command::{check_moderator, HandlerError};
use crate::moderation::{why_view, WordFilter};
use crate::sender::{MessageV, Sender, User, respond_text};
use crate::tokens::Line;

verus! {

/// Handler state of the `!badword` command: the filter it administers.
pub struct BadWord {
    pub bad_words: WordFilter,
}

/// The reason text given with an edit: the verbatim tail of the line, absent
/// when empty.
pub open spec fn why_of(rest: Seq<char>) -> Option<Seq<char>> {
    if rest.len() == 0 {
        None
    } else {
        Some(rest)
    }
}

/// What one `!badword` dispatch does, relating the filter and the sender
/// queue before and after, for the subcommand at word `k` of the line.
pub open spec fn bad_word_post(
    f0: WordFilter,
    f1: WordFilter,
    q0: Seq<MessageV>,
    q1: Seq<MessageV>,
    user: User,
    line: Line,
    k: int,
    is_mod: bool,
    r: Result<(), HandlerError>,
) -> bool {
    let w = line.words_view();
    let refusal = MessageV::Privmsg {
        target: user.target@,
        text: crate::command::moderator_refusal(user.name@),
    };
    let reply = |text: Seq<char>|
        q1 == q0.push(
            MessageV::Privmsg {
                target: user.target@,
                text: respond_text(user.name@, text),
            },
        );
    if k >= w.len() {
        &&& r is Ok
        &&& f1 == f0
        &&& reply("!badword is a word filter, removing unwanted messages."@)
    } else if w[k] == "edit"@ {
        if !is_mod {
            &&& r == Result::<(), HandlerError>::Err(HandlerError::ModeratorRequired)
            &&& f1 == f0
            &&& q1 == q0.push(refusal)
        } else if k + 1 >= w.len() {
            &&& r == Result::<(), HandlerError>::Err(HandlerError::ExpectedArgument)
            &&& f1 == f0
            &&& q1 == q0
        } else {
            &&& r is Ok
            &&& f1.wf()
            &&& why_view(f1.spec_get(w[k + 1]).unwrap()) == why_of(
                line.rest_view(k + 2),
            )
            &&& f1.spec_get(w[k + 1]) is Some
            &&& forall|o: Seq<char>| o != w[k + 1] ==> f1.spec_get(o) == f0.spec_get(o)
            &&& reply("Bad word edited"@)
        }
    } else if w[k] == "delete"@ {
        if !is_mod {
            &&& r == Result::<(), HandlerError>::Err(HandlerError::ModeratorRequired)
            &&& f1 == f0
            &&& q1 == q0.push(refusal)
        } else if k + 1 >= w.len() {
            &&& r == Result::<(), HandlerError>::Err(HandlerError::ExpectedArgument)
            &&& f1 == f0
            &&& q1 == q0
        } else {
            &&& r is Ok
            &&& f1.spec_get(w[k + 1]) is None
            &&& forall|o: Seq<char>| o != w[k + 1] ==> f1.spec_get(o) == f0.spec_get(o)
            &&& if f0.spec_get(w[k + 1]) is Some {
                reply("Bad word removed."@)
            } else {
                reply("Bad word did not exist."@)
            }
        }
    } else {
        &&& r is Ok
        &&& f1 == f0
        &&& reply("Expected: edit, or delete."@)
    }
}

impl BadWord {
    /// Dispatch one `!badword` subcommand, starting at word `k` of the line.
    /// Editing and deleting are moderator-only.
    pub fn handle(
        &mut self,
        is_mod: bool,
        user: &User,
        line: &Line,
        k: usize,
        sender: &mut Sender,
    ) -> (r: Result<(), HandlerError>)
        requires
            line.wf(),
            old(self).bad_words.wf(),
            k + 2 <= usize::MAX,
        ensures
            final(self).bad_words.wf(),
            bad_word_post(
                old(self).bad_words,
                final(self).bad_words,
                old(sender).queue_view(),
                final(sender).queue_view(),
                *user,
                *line,
                k as int,
                is_mod,
                r,
            ),
    {
        let sub = match line.word(k) {
            Some(s) => s,
            None => {
                user.respond(sender, "!badword is a word filter, removing unwanted messages.");
                return Ok(());
            }
        };
        if crate::text::str_eq(sub.as_str(), "edit") {
            match check_moderator(is_mod, user, sender) {
                Ok(()) => {}
                Err(e) => {
                    return Err(e);
                }
            }
            let word = match line.word(k + 1) {
                Some(word) => word.clone(),
                None => {
                    return Err(HandlerError::ExpectedArgument);
                }
            };
            let rest = line.rest(k + 2);
            let why: Option<String> = if rest.as_str().is_empty() {
                None
            } else {
                Some(rest.clone())
            };
            self.bad_words.set(word, why);
            user.respond(sender, "Bad word edited");
            Ok(())
        } else if crate::text::str_eq(sub.as_str(), "delete") {
            match check_moderator(is_mod, user, sender) {
                Ok(()) => {}
                Err(e) => {
                    return Err(e);
                }
            }
            let word = match line.word(k + 1) {
                Some(word) => word,
                None => {
                    return Err(HandlerError::ExpectedArgument);
                }
            };
            if self.bad_words.remove(word.as_str()) {
                user.respond(sender, "Bad word removed.");
            } else {
                user.respond(sender, "Bad word did not exist.");
            }
            Ok(())
        } else {
            user.respond(sender, "Expected: edit, or delete.");
            Ok(())
        }
    }
}

} // verus!
