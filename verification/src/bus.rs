//! Plan-scoped message bus: topic summaries, the topic family rule
//! that each call enforces before it touches the store, and the verdict
//! of an acknowledgement.
use vstd::prelude::*;
use crate::text::{chars_of, has_prefix, push_str, starts_with, string_of};

verus! {

/// Prefix of the system-scoped topic family.
pub const SYSTEM_TOPIC_PREFIX: &'static str = "system.";

/// Per-topic summary of a plan's messages.
#[derive(Debug, Clone)]
pub struct TopicSummary {
    /// Topic name.
    pub topic: String,
    /// Number of messages of the topic in the plan.
    pub count: i64,
    /// Highest sequence number of the topic.
    pub last_seq: i64,
    /// Creation time of the latest message (RFC 3339).
    pub last_at: String,
}

/// Whether `topic` belongs to the system family, which plan-scoped
/// publish and poll refuse and the system calls require.
pub fn is_system_topic(topic: &str) -> (r: bool)
    ensures
        r == starts_with(topic@, SYSTEM_TOPIC_PREFIX@),
{
    has_prefix(&chars_of(topic), SYSTEM_TOPIC_PREFIX)
}

/// Why the bus refused a call.
#[derive(Debug, Clone, PartialEq, Eq)]
pub enum BusRefusal {
    /// No message has the acknowledged id.
    NotFound(String),
    /// The topic does not belong to the family the call serves.
    InvalidTopicScope(String),
}

impl BusRefusal {
    pub open spec fn text(&self) -> Seq<char> {
        match self {
            BusRefusal::NotFound(id) => "message not found: "@ + id@,
            BusRefusal::InvalidTopicScope(d) => "invalid topic scope: "@ + d@,
        }
    }

    /// The refusal as shown to the user.
    pub fn message(&self) -> (r: String)
        ensures
            r@ == self.text(),
    {
        let mut out: Vec<char> = Vec::new();
        match self {
            BusRefusal::NotFound(id) => {
                push_str(&mut out, "message not found: ");
                push_str(&mut out, id.as_str());
            },
            BusRefusal::InvalidTopicScope(d) => {
                push_str(&mut out, "invalid topic scope: ");
                push_str(&mut out, d.as_str());
            },
        }
        string_of(&out)
    }
}

/// The two topic families: messages of one plan, and system messages
/// that belong to no plan.
#[derive(Debug, Clone, Copy, PartialEq, Eq, Structural)]
pub enum TopicScope {
    Plan,
    System,
}

/// The calls that name a topic.
#[derive(Debug, Clone, Copy, PartialEq, Eq, Structural)]
pub enum BusCall {
    Publish,
    Poll,
}

pub open spec fn call_name(c: BusCall) -> Seq<char> {
    match c {
        BusCall::Publish => "publish"@,
        BusCall::Poll => "poll"@,
    }
}

/// The scope refusal of a call, if any: plan calls refuse `system.`
/// topics and point to the system call; system calls refuse the others
/// and point back.
pub open spec fn scope_refusal(scope: TopicScope, call: BusCall, topic: Seq<char>) -> Option<Seq<char>> {
    let sys = starts_with(topic, SYSTEM_TOPIC_PREFIX@);
    match scope {
        TopicScope::Plan => if sys {
            Some("topic '"@ + topic + "' is system-scoped; use "@ + call_name(call) + "_system"@)
        } else {
            None
        },
        TopicScope::System => if sys {
            None
        } else {
            Some("topic '"@ + topic + "' is not system-scoped; use "@ + call_name(call))
        },
    }
}

/// The check each publish and poll makes before it reaches the store.
pub fn check_topic_scope(scope: TopicScope, call: BusCall, topic: &str) -> (r: Result<(), BusRefusal>)
    ensures
        match scope_refusal(scope, call, topic@) {
            None => r is Ok,
            Some(d) => r matches Err(BusRefusal::InvalidTopicScope(m)) && m@ == d,
        },
{
    let sys = is_system_topic(topic);
    let refused = match scope {
        TopicScope::Plan => sys,
        TopicScope::System => !sys,
    };
    if !refused {
        return Ok(());
    }
    let mut out: Vec<char> = Vec::new();
    push_str(&mut out, "topic '");
    push_str(&mut out, topic);
    match scope {
        TopicScope::Plan => push_str(&mut out, "' is system-scoped; use "),
        TopicScope::System => push_str(&mut out, "' is not system-scoped; use "),
    }
    match call {
        BusCall::Publish => push_str(&mut out, "publish"),
        BusCall::Poll => push_str(&mut out, "poll"),
    }
    match scope {
        TopicScope::Plan => push_str(&mut out, "_system"),
        TopicScope::System => {},
    }
    Err(BusRefusal::InvalidTopicScope(string_of(&out)))
}

/// The verdict of an acknowledgement, from the number of rows the
/// update marked consumed and whether the id exists at all: acking an
/// already consumed message is a no-op, an unknown id is refused.
pub fn ack_verdict(message_id: &str, updated_rows: u64, exists: bool) -> (r: Result<(), BusRefusal>)
    ensures
        (updated_rows == 0 && !exists) ==> (r matches Err(BusRefusal::NotFound(id)) && id@ == message_id@),
        !(updated_rows == 0 && !exists) ==> r is Ok,
{
    if updated_rows == 0 && !exists {
        Err(BusRefusal::NotFound(string_of(&chars_of(message_id))))
    } else {
        Ok(())
    }
}

/// Every topic belongs to exactly one family: a call accepts it in
/// exactly one of the two scopes.
pub proof fn law_topic_in_exactly_one_family(call: BusCall, topic: Seq<char>)
    ensures
        scope_refusal(TopicScope::Plan, call, topic) is None <==> scope_refusal(TopicScope::System, call, topic) is Some,
{
}

} // verus!
