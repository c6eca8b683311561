use axis_core::classifier::{should_start, should_stop};

#[test]
fn stop_on_plain_farewell() {
    assert!(should_stop("bye"));
    assert!(should_stop("goodbye"));
    assert!(should_stop("stop"));
    assert!(should_stop("done"));
    assert!(should_stop("nevermind"));
}

#[test]
fn stop_on_farewell_at_either_end() {
    assert!(should_stop("bye everyone"));
    assert!(should_stop("ok then bye"));
    assert!(should_stop("  Goodbye  "));
    assert!(!should_stop("byebye now maybe"));
}

#[test]
fn stop_on_short_final_thanks() {
    assert!(should_stop("ok thanks"));
    assert!(should_stop("thx, that worked"));
    assert!(should_stop("thank you so much"));
}

#[test]
fn no_stop_on_thanks_with_follow_up() {
    assert!(!should_stop("how do I use thanks DataStore?"));
    assert!(!should_stop("thanks, but how does it work"));
    assert!(!should_stop("thanks, can you show an example"));
    assert!(!should_stop("thanks, what about part two"));
    assert!(!should_stop("thanks for the help earlier"));
    assert!(!should_stop("thanks? are you sure"));
}

#[test]
fn stop_on_short_thanks_tokens() {
    assert!(should_stop("ok ty man"));
    assert!(should_stop("thx"));
    // "ty" needs surrounding spaces to count as a token.
    assert!(!should_stop("duty calls"));
}

#[test]
fn no_stop_on_long_thanks() {
    let long = "thanks a lot for everything you have walked me through today friend";
    assert!(long.len() >= 50);
    assert!(!should_stop(long));
}

#[test]
fn no_stop_on_ordinary_chatter() {
    assert!(!should_stop(""));
    assert!(!should_stop("tell me more"));
    assert!(!should_stop("the bus stopped"));
}

#[test]
fn start_on_direct_mention() {
    assert!(should_start("hey axis can you help me with a script?", "axis", false));
    assert!(should_start("Hey AXIS, are you there", "axis", false));
    assert!(should_start("help axis", "axis", false));
    assert!(should_start("axis help", "axis", false));
}

#[test]
fn start_folds_bot_name_case() {
    assert!(should_start("hey axis", "Axis", false));
}

#[test]
fn no_start_on_unrelated_chatter() {
    assert!(!should_start("what's for lunch", "axis", false));
    assert!(!should_start("good morning all", "axis", false));
}

#[test]
fn start_always_inside_active_conversation() {
    assert!(should_start("what's for lunch", "axis", true));
}

#[test]
fn start_on_help_phrase_with_domain_keyword() {
    assert!(should_start("can you explain datastore limits", "axis", false));
    assert!(should_start("how do i write a luau loop", "axis", false));
    assert!(!should_start("can you pass the salt", "axis", false));
}

#[test]
fn start_on_domain_question() {
    assert!(should_start("how does roblox handle physics?", "axis", false));
    assert!(!should_start("roblox", "axis", false));
    assert!(!should_start("roblox physics is neat, really", "axis", false));
}
