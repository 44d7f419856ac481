//! The outbound message queue.
//!
//! Handlers enqueue transport messages here; a background unit of work owned
//! by the process drains the queue through the token bucket and performs the
//! physical writes.  Enqueuing never blocks and never fails.

use vstd::prelude::*;

verus! {

/// An outbound transport message.
pub enum Message {
    /// A chat message to a target channel or user.
    Privmsg { target: String, text: String },
    /// A capability request to the server.
    CapReq { cap: String },
}

/// Mathematical form of an outbound message.
pub enum MessageV {
    Privmsg { target: Seq<char>, text: Seq<char> },
    CapReq { cap: Seq<char> },
}

impl View for Message {
    type V = MessageV;

    open spec fn view(&self) -> MessageV {
        match self {
            Message::Privmsg { target, text } => MessageV::Privmsg {
                target: target@,
                text: text@,
            },
            Message::CapReq { cap } => MessageV::CapReq { cap: cap@ },
        }
    }
}

impl DeepView for Message {
    type V = MessageV;

    open spec fn deep_view(&self) -> MessageV {
        self.view()
    }
}

/// One item handed to the background send thread.
pub enum SenderThreadItem {
    /// Shut the thread down.
    Exit,
    /// Deliver this message.
    Send(Message),
}

/// The queue of messages waiting for the background send unit.
pub struct Sender {
    pub queue: Vec<Message>,
}

impl Sender {
    /// The queued messages, oldest first.
    pub open spec fn queue_view(self) -> Seq<MessageV> {
        self.queue.deep_view()
    }

    /// A sender with an empty queue.
    pub fn new() -> (r: Sender)
        ensures
            r.queue_view() == Seq::<MessageV>::empty(),
    {
        let r = Sender { queue: Vec::new() };
        proof {
            assert(r.queue_view() =~= Seq::<MessageV>::empty());
        }
        r
    }

    /// Enqueue a message.
    pub fn send(&mut self, m: Message)
        ensures
            final(self).queue_view() == old(self).queue_view().push(m@),
    {
        let ghost mv = m@;
        self.queue.push(m);
        proof {
            assert(final(self).queue_view() =~= old(self).queue_view().push(mv));
        }
    }

    /// Enqueue a chat message to the given target.
    pub fn privmsg(&mut self, target: &str, text: String)
        ensures
            final(self).queue_view() == old(self).queue_view().push(
                MessageV::Privmsg { target: target@, text: text@ },
            ),
    {
        let t = copy_str(target);
        self.send(Message::Privmsg { target: t, text });
    }

    /// Enqueue a capability request.
    pub fn cap_req(&mut self, cap: &str)
        ensures
            final(self).queue_view() == old(self).queue_view().push(
                MessageV::CapReq { cap: cap@ },
            ),
    {
        let c = copy_str(cap);
        self.send(Message::CapReq { cap: c });
    }

    /// Hand the queued messages over, leaving the queue empty.
    pub fn take_queue(&mut self) -> (r: Vec<Message>)
        ensures
            r.deep_view() == old(self).queue_view(),
            final(self).queue_view() == Seq::<MessageV>::empty(),
    {
        let mut q: Vec<Message> = Vec::new();
        core::mem::swap(&mut q, &mut self.queue);
        proof {
            assert(final(self).queue_view() =~= Seq::<MessageV>::empty());
        }
        q
    }
}

fn copy_str(s: &str) -> (r: String)
    ensures
        r@ == s@,
{
    String::from_str(s)
}

/// The reply prefix: replies quote the addressee by name.
pub open spec fn respond_text(name: Seq<char>, m: Seq<char>) -> Seq<char> {
    name + " -> "@ + m
}

/// The sender and reply target of one inbound message; lives for one
/// dispatch.
pub struct User {
    /// Name of the sender.
    pub name: String,
    /// Reply target (the channel the message came in on).
    pub target: String,
}

impl User {
    /// Respond to the user with a message, prefixed with their name.
    pub fn respond(&self, sender: &mut Sender, m: &str)
        ensures
            final(sender).queue_view() == old(sender).queue_view().push(
                MessageV::Privmsg {
                    target: self.target@,
                    text: respond_text(self.name@, m@),
                },
            ),
    {
        let mut t = self.name.clone();
        t.append(" -> ");
        t.append(m);
        sender.privmsg(self.target.as_str(), t);
    }

    /// Respond with an already built message.
    pub fn respond_owned(&self, sender: &mut Sender, m: String)
        ensures
            final(sender).queue_view() == old(sender).queue_view().push(
                MessageV::Privmsg {
                    target: self.target@,
                    text: respond_text(self.name@, m@),
                },
            ),
    {
        let mut t = self.name.clone();
        t.append(" -> ");
        t.append(m.as_str());
        sender.privmsg(self.target.as_str(), t);
    }
}

} // verus!
