//! The per-message conversation lifecycle: sweep expired conversations,
//! detect a stop request, refresh or evict the channel's entry, decide
//! whether to respond, and fold the outcome of response generation back
//! into the registry.

use vstd::prelude::*;

use crate::classifier::{should_start, should_stop, spec_should_start, spec_should_stop};
use crate::registry::{spec_has_active, spec_swept, spec_touch, Registry};
use crate::text::{contains_chars, contains_seq, to_chars};

verus! {

/// What the caller must do after the pre-generation step of a message.
#[derive(Clone, Copy, Debug, PartialEq, Eq, Structural)]
pub enum MessageAction {
    /// Say nothing; the message is not for the bot.
    Ignore,
    /// The conversation was closed on request: send the closure reply only.
    CloseReply,
    /// Invoke the generation collaborator and reply with its outcome.
    Generate,
}

/// Coarse category of a failed generation or delivery attempt.
#[derive(Clone, Copy, Debug, PartialEq, Eq, Structural)]
pub enum GenError {
    /// The upstream call did not answer in time.
    Timeout,
    /// The upstream answered with an error or a malformed payload.
    Api,
    /// Anything else.
    Unknown,
}

/// The registry contents and the action after the pre-generation step for
/// one message: expired entries swept; a stop request on an active
/// conversation closes it; otherwise the entry is touched (refreshed for the
/// owner, evicted for anyone else) and, when the bot should respond to a
/// newcomer, a fresh conversation is started.
pub open spec fn spec_decide(
    m: Map<u64, (u64, u64)>,
    channel: u64,
    user: u64,
    content: Seq<char>,
    bot_name: Seq<char>,
    now: u64,
    timeout: u64,
) -> (Map<u64, (u64, u64)>, MessageAction) {
    let m0 = spec_swept(m, now, timeout);
    let active = spec_has_active(m0, channel, user);
    if active && spec_should_stop(content) {
        (m0.remove(channel), MessageAction::CloseReply)
    } else {
        let m1 = spec_touch(m0, channel, user, now);
        if spec_should_start(content, bot_name, active) {
            if active {
                (m1, MessageAction::Generate)
            } else {
                (m1.insert(channel, (user, now)), MessageAction::Generate)
            }
        } else {
            (m1, MessageAction::Ignore)
        }
    }
}

/// Runs the pre-generation lifecycle steps for one inbound message and says
/// what to do next. `now` and `timeout` are in seconds.
pub fn handle_incoming(
    reg: &mut Registry,
    channel: u64,
    user: u64,
    content: &str,
    bot_name: &str,
    now: u64,
    timeout: u64,
) -> (action: MessageAction)
    ensures
        (final(reg)@, action) == spec_decide(
            old(reg)@,
            channel,
            user,
            content@,
            bot_name@,
            now,
            timeout,
        ),
{
    reg.sweep(now, timeout);
    let active = reg.has_active(channel, user);
    if active && should_stop(content) {
        reg.end(channel, user);
        MessageAction::CloseReply
    } else {
        reg.touch(channel, user, now);
        if should_start(content, bot_name, active) {
            if !active {
                reg.start(channel, user, now);
            }
            MessageAction::Generate
        } else {
            MessageAction::Ignore
        }
    }
}

/// The per-channel state machine, read off one message's decision: when a
/// reply is to be generated, the sender owns a conversation fresh at `now`;
/// when the conversation was closed on request, the channel is idle; and
/// when the message is ignored, the channel is idle too — it was empty,
/// expired, or evicted because the sender was not the owner.
pub proof fn lemma_decide_states(
    m: Map<u64, (u64, u64)>,
    channel: u64,
    user: u64,
    content: Seq<char>,
    bot_name: Seq<char>,
    now: u64,
    timeout: u64,
)
    ensures
        ({
            let (m1, action) = spec_decide(m, channel, user, content, bot_name, now, timeout);
            &&& (action is Generate ==> m1.contains_key(channel) && m1[channel] == (user, now))
            &&& (action is CloseReply ==> !m1.contains_key(channel))
            &&& (action is Ignore ==> !m1.contains_key(channel))
        }),
{
}

/// A generated reply truncated to the transport's message-size limit of
/// 2000 characters, with a three-dot marker appended when truncated.
pub open spec fn spec_truncated(t: Seq<char>) -> Seq<char> {
    if t.len() <= 2000 {
        t
    } else {
        t.subrange(0, 1997) + "..."@
    }
}

/// Truncates a generated reply to at most 2000 characters, appending a
/// marker when anything was cut.
pub fn truncate_reply(text: &str) -> (r: String)
    ensures
        r@ == spec_truncated(text@),
{
    let n = text.unicode_len();
    if n <= 2000 {
        text.to_owned()
    } else {
        let head = text.substring_char(0, 1997);
        let mut r = head.to_owned();
        r.push_str("...");
        r
    }
}

/// The fixed user-facing fallback line for each failure category.
pub open spec fn spec_fallback(e: GenError) -> Seq<char> {
    match e {
        GenError::Timeout => "Request timed out. Please try again."@,
        GenError::Api => "I'm experiencing technical difficulties. Please try again later."@,
        GenError::Unknown => "I'm having trouble processing your request right now."@,
    }
}

/// The fallback reply sent when generation fails, by category.
pub fn fallback_message(e: GenError) -> (r: String)
    ensures
        r@ == spec_fallback(e),
{
    match e {
        GenError::Timeout => "Request timed out. Please try again.".to_owned(),
        GenError::Api => "I'm experiencing technical difficulties. Please try again later.".to_owned(),
        GenError::Unknown => "I'm having trouble processing your request right now.".to_owned(),
    }
}

/// The reply sent when a conversation is closed on request.
pub fn closure_reply() -> (r: String)
    ensures
        r@
            == "Conversation ended. Feel free to reach out again if you need assistance with Roblox development."@,
{
    "Conversation ended. Feel free to reach out again if you need assistance with Roblox development.".to_owned()
}

/// The failure category read off an error's rendered text.
pub open spec fn spec_categorize(m: Seq<char>) -> GenError {
    if contains_seq(m, "timeout"@) {
        GenError::Timeout
    } else if contains_seq(m, "API error"@) {
        GenError::Api
    } else {
        GenError::Unknown
    }
}

/// Categorizes a failed generation attempt by its rendered error text.
pub fn categorize_error(msg: &str) -> (r: GenError)
    ensures
        r == spec_categorize(msg@),
{
    let m = to_chars(msg);
    if contains_chars(&m, &to_chars("timeout")) {
        GenError::Timeout
    } else if contains_chars(&m, &to_chars("API error")) {
        GenError::Api
    } else {
        GenError::Unknown
    }
}

/// Folds the generation outcome back into the registry: a successful text
/// is truncated to the transport limit and the registry is untouched; a
/// failure yields the category's fixed fallback line and evicts the
/// channel's conversation so it cannot stay stuck on a failing user.
pub fn handle_generation_outcome(reg: &mut Registry, channel: u64, outcome: Result<
    String,
    GenError,
>) -> (reply: String)
    ensures
        match outcome {
            Ok(text) => reply@ == spec_truncated(text@) && final(reg)@ == old(reg)@,
            Err(e) => reply@ == spec_fallback(e) && final(reg)@ == old(reg)@.remove(channel),
        },
{
    match outcome {
        Ok(text) => truncate_reply(text.as_str()),
        Err(e) => {
            reg.evict(channel);
            fallback_message(e)
        },
    }
}

/// Evicts the channel's conversation after a reply could not be delivered,
/// so the channel is not left permanently stuck.
pub fn handle_delivery_failure(reg: &mut Registry, channel: u64)
    ensures
        final(reg)@ == old(reg)@.remove(channel),
{
    reg.evict(channel);
}

} // verus!
