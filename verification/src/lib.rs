//! Core logic of a chat bot that bridges a messaging gateway to a
//! generative-language service: per-channel conversation tracking with
//! expiry, keyword intent heuristics, and the per-message lifecycle that
//! composes them.

pub mod classifier;
pub mod guild_config;
pub mod lifecycle;
pub mod registry;
pub mod text;

use vstd::prelude::*;

verus! {

/// Process-wide settings handed to the bot at startup.
#[derive(Clone, Debug)]
pub struct Config {
    pub discord_token: String,
    pub gemini_api_key: String,
    pub bot_name: String,
    pub mongo_uri: String,
}

/// The connection-status label for a measured latency in milliseconds.
pub open spec fn spec_latency_status(ms: u64) -> Seq<char> {
    if ms < 100 {
        "Excellent"@
    } else if ms < 300 {
        "Good"@
    } else {
        "High"@
    }
}

/// Labels a measured latency for the status report.
pub fn latency_status(ms: u64) -> (r: &'static str)
    ensures
        r@ == spec_latency_status(ms),
{
    if ms < 100 {
        "Excellent"
    } else if ms < 300 {
        "Good"
    } else {
        "High"
    }
}

} // verus!
