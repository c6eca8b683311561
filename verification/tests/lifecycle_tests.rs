use axis_core::lifecycle::{
    categorize_error, closure_reply, fallback_message, handle_delivery_failure,
    handle_generation_outcome, handle_incoming, truncate_reply, GenError, MessageAction,
};
use axis_core::registry::Registry;

const TIMEOUT: u64 = 1800;

#[test]
fn conversation_end_to_end() {
    let mut reg = Registry::new();

    // A direct mention with no active conversation starts one.
    let a1 = handle_incoming(
        &mut reg,
        7,
        10,
        "hey axis, how do I use a RemoteEvent?",
        "axis",
        100,
        TIMEOUT,
    );
    assert_eq!(a1, MessageAction::Generate);
    assert!(reg.has_active(7, 10));

    // Generation succeeds: the reply is delivered and the entry stays.
    let reply = handle_generation_outcome(&mut reg, 7, Ok("Use a RemoteEvent like so.".to_string()));
    assert_eq!(reply, "Use a RemoteEvent like so.");
    assert!(reg.has_active(7, 10));

    // A stop request from the owner closes the conversation.
    let a2 = handle_incoming(&mut reg, 7, 10, "thanks, bye", "axis", 200, TIMEOUT);
    assert_eq!(a2, MessageAction::CloseReply);
    assert!(!reg.has_active(7, 10));
    assert!(reg.get(7).is_none());

    // A different user's unrelated message evicts a fresh entry and draws no reply.
    reg.start(7, 10, 300);
    let a3 = handle_incoming(&mut reg, 7, 11, "what's for lunch", "axis", 310, TIMEOUT);
    assert_eq!(a3, MessageAction::Ignore);
    assert!(reg.get(7).is_none());
}

#[test]
fn owner_message_refreshes_activity() {
    let mut reg = Registry::new();
    reg.start(7, 10, 100);
    let a = handle_incoming(&mut reg, 7, 10, "and what about part two", "axis", 900, TIMEOUT);
    assert_eq!(a, MessageAction::Generate);
    let st = reg.get(7).unwrap();
    assert_eq!(st.user_id, 10);
    assert_eq!(st.last_activity, 900);
}

#[test]
fn expired_conversation_is_swept_before_deciding() {
    let mut reg = Registry::new();
    reg.start(7, 10, 0);
    // Far past the timeout, the entry is swept first, so even the old owner
    // needs a fresh start trigger; plain chatter draws nothing.
    let a = handle_incoming(&mut reg, 7, 10, "and another thing", "axis", 4000, TIMEOUT);
    assert_eq!(a, MessageAction::Ignore);
    assert!(reg.get(7).is_none());
    // A mention right after starts anew.
    let b = handle_incoming(&mut reg, 7, 10, "hey axis", "axis", 4001, TIMEOUT);
    assert_eq!(b, MessageAction::Generate);
    assert!(reg.has_active(7, 10));
}

#[test]
fn generation_failure_sends_fallback_and_evicts() {
    let mut reg = Registry::new();
    reg.start(7, 10, 100);
    let reply = handle_generation_outcome(&mut reg, 7, Err(GenError::Timeout));
    assert_eq!(reply, "Request timed out. Please try again.");
    assert!(!reg.has_active(7, 10));
    assert!(reg.get(7).is_none());
}

#[test]
fn delivery_failure_evicts() {
    let mut reg = Registry::new();
    reg.start(7, 10, 100);
    handle_delivery_failure(&mut reg, 7);
    assert!(reg.get(7).is_none());
}

#[test]
fn fallback_messages_by_category() {
    assert_eq!(fallback_message(GenError::Timeout), "Request timed out. Please try again.");
    assert_eq!(
        fallback_message(GenError::Api),
        "I'm experiencing technical difficulties. Please try again later."
    );
    assert_eq!(
        fallback_message(GenError::Unknown),
        "I'm having trouble processing your request right now."
    );
}

#[test]
fn closure_reply_text() {
    assert_eq!(
        closure_reply(),
        "Conversation ended. Feel free to reach out again if you need assistance with Roblox development."
    );
}

#[test]
fn error_categorization() {
    assert_eq!(categorize_error("request timeout after 15s"), GenError::Timeout);
    assert_eq!(categorize_error("Gemini API error 500: oops"), GenError::Api);
    assert_eq!(categorize_error("connection reset"), GenError::Unknown);
    // The timeout token wins over the API token.
    assert_eq!(categorize_error("API error: timeout"), GenError::Timeout);
}

#[test]
fn truncation_only_past_the_limit() {
    let short = "hello";
    assert_eq!(truncate_reply(short), "hello");
    let exact: String = "a".repeat(2000);
    assert_eq!(truncate_reply(&exact), exact);
}

#[test]
fn truncation_cuts_and_marks() {
    let long: String = "a".repeat(2500);
    let out = truncate_reply(&long);
    assert_eq!(out.chars().count(), 2000);
    let expected = format!("{}...", "a".repeat(1997));
    assert_eq!(out, expected);
}

#[test]
fn truncation_counts_characters_not_bytes() {
    let long: String = "\u{e9}".repeat(2100);
    let out = truncate_reply(&long);
    assert_eq!(out.chars().count(), 2000);
    let expected = format!("{}...", "\u{e9}".repeat(1997));
    assert_eq!(out, expected);
}
