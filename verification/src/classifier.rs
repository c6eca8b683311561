//! Intent heuristics: whether an incoming message should start a new
//! conversation with the bot, and whether it asks to end the current one.
//!
//! Both decisions are local, case-insensitive keyword rules. A remote
//! text-classification call (with these rules as its fallback) would be an
//! interchangeable strategy; the local rules are used alone here: they
//! cost no extra network round trip, cannot block message handling, and
//! never fail.

use vstd::prelude::*;

use crate::text::{
    contains_chars, contains_seq, ends_with_chars, ends_with_seq, eq_chars, lower, lower_vec,
    starts_with_chars, starts_with_seq, to_chars, trim_chars, trim_spec,
};

verus! {

/// `t` equals the phrase `f`, starts with it followed by a space, or ends
/// with it preceded by a space.
pub open spec fn phrase_boundary_match(t: Seq<char>, f: Seq<char>) -> bool {
    t == f || (t.len() > f.len() && starts_with_seq(t, f) && t[f.len() as int] == ' ') || (t.len()
        > f.len() && ends_with_seq(t, f) && t[t.len() - f.len() - 1] == ' ')
}

/// Whether `t` matches the phrase `f` at a word boundary.
pub fn phrase_boundary_exec(t: &Vec<char>, f: &Vec<char>) -> (r: bool)
    ensures
        r == phrase_boundary_match(t@, f@),
{
    if eq_chars(t, f) {
        return true;
    }
    if t.len() > f.len() {
        if starts_with_chars(t, f) && t[f.len()] == ' ' {
            return true;
        }
        if ends_with_chars(t, f) && t[t.len() - f.len() - 1] == ' ' {
            return true;
        }
    }
    false
}

/// `t` (already folded and trimmed) is one of the fixed farewell or
/// termination phrases, alone or at either end of the message.
pub open spec fn is_farewell(t: Seq<char>) -> bool {
    phrase_boundary_match(t, "bye"@) || phrase_boundary_match(t, "goodbye"@)
        || phrase_boundary_match(t, "stop"@) || phrase_boundary_match(t, "done"@)
        || phrase_boundary_match(t, "nevermind"@) || phrase_boundary_match(t, "quit"@)
        || phrase_boundary_match(t, "exit"@)
}

fn is_farewell_exec(t: &Vec<char>) -> (r: bool)
    ensures
        r == is_farewell(t@),
{
    phrase_boundary_exec(t, &to_chars("bye")) || phrase_boundary_exec(t, &to_chars("goodbye"))
        || phrase_boundary_exec(t, &to_chars("stop")) || phrase_boundary_exec(t, &to_chars("done"))
        || phrase_boundary_exec(t, &to_chars("nevermind")) || phrase_boundary_exec(
        t,
        &to_chars("quit"),
    ) || phrase_boundary_exec(t, &to_chars("exit"))
}

/// `t` (already folded and trimmed) reads as short, unconditional thanks
/// with no follow-up question: it holds a thanks token, no question mark,
/// none of the follow-up words, and is under 50 characters.
pub open spec fn is_final_thanks(t: Seq<char>) -> bool {
    (contains_seq(t, "thank"@) || contains_seq(t, "thx"@) || contains_seq(t, " ty "@)) && !contains_seq(
        t,
        "?"@,
    ) && !contains_seq(t, "how"@) && !contains_seq(t, "what"@) && !contains_seq(t, "can you"@)
        && !contains_seq(t, "help"@) && t.len() < 50
}

fn is_final_thanks_exec(t: &Vec<char>) -> (r: bool)
    ensures
        r == is_final_thanks(t@),
{
    (contains_chars(t, &to_chars("thank")) || contains_chars(t, &to_chars("thx")) || contains_chars(
        t,
        &to_chars(" ty "),
    )) && !contains_chars(t, &to_chars("?")) && !contains_chars(t, &to_chars("how"))
        && !contains_chars(t, &to_chars("what")) && !contains_chars(t, &to_chars("can you"))
        && !contains_chars(t, &to_chars("help")) && t.len() < 50
}

/// The message asks to end the conversation: case-folded and trimmed, it is
/// a farewell phrase or a short, final-sounding thanks.
pub open spec fn spec_should_stop(s: Seq<char>) -> bool {
    is_farewell(trim_spec(lower(s))) || is_final_thanks(trim_spec(lower(s)))
}

/// Whether the message asks to end an active conversation.
pub fn should_stop(content: &str) -> (r: bool)
    ensures
        r == spec_should_stop(content@),
{
    let chars = to_chars(content);
    let folded = lower_vec(&chars);
    let t = trim_chars(&folded);
    is_farewell_exec(&t) || is_final_thanks_exec(&t)
}

/// The folded message mentions the bot by name, greets it, or asks it for
/// help by name.
pub open spec fn direct_mention(t: Seq<char>, name: Seq<char>) -> bool {
    contains_seq(t, name) || contains_seq(t, "hey "@ + name) || contains_seq(t, "hi "@ + name)
        || contains_seq(t, "hello "@ + name) || contains_seq(t, name + " help"@) || contains_seq(
        t,
        "help "@ + name,
    )
}

fn direct_mention_exec(t: &Vec<char>, name: &Vec<char>) -> (r: bool)
    ensures
        r == direct_mention(t@, name@),
{
    contains_chars(t, name) || contains_chars(t, &concat_chars(&to_chars("hey "), name))
        || contains_chars(t, &concat_chars(&to_chars("hi "), name)) || contains_chars(
        t,
        &concat_chars(&to_chars("hello "), name),
    ) || contains_chars(t, &concat_chars(name, &to_chars(" help"))) || contains_chars(
        t,
        &concat_chars(&to_chars("help "), name),
    )
}

/// The folded message holds one of the fixed platform and scripting terms.
pub open spec fn has_domain_keyword(t: Seq<char>) -> bool {
    contains_seq(t, "roblox"@) || contains_seq(t, "luau"@) || contains_seq(t, "script"@)
        || contains_seq(t, "studio"@) || contains_seq(t, "datastore"@) || contains_seq(
        t,
        "remoteevent"@,
    )
}

fn has_domain_keyword_exec(t: &Vec<char>) -> (r: bool)
    ensures
        r == has_domain_keyword(t@),
{
    contains_chars(t, &to_chars("roblox")) || contains_chars(t, &to_chars("luau"))
        || contains_chars(t, &to_chars("script")) || contains_chars(t, &to_chars("studio"))
        || contains_chars(t, &to_chars("datastore")) || contains_chars(
        t,
        &to_chars("remoteevent"),
    )
}

/// The folded message holds one of the fixed help-request phrases.
pub open spec fn has_help_phrase(t: Seq<char>) -> bool {
    contains_seq(t, "help me"@) || contains_seq(t, "how do i"@) || contains_seq(t, "can you"@)
        || contains_seq(t, "what is"@) || contains_seq(t, "explain"@)
}

fn has_help_phrase_exec(t: &Vec<char>) -> (r: bool)
    ensures
        r == has_help_phrase(t@),
{
    contains_chars(t, &to_chars("help me")) || contains_chars(t, &to_chars("how do i"))
        || contains_chars(t, &to_chars("can you")) || contains_chars(t, &to_chars("what is"))
        || contains_chars(t, &to_chars("explain"))
}

/// The bot should respond: always inside a live conversation; otherwise on a
/// direct mention, on a help phrase together with a domain keyword, or on a
/// question of more than ten characters that holds a domain keyword.
pub open spec fn spec_should_start(s: Seq<char>, bot_name: Seq<char>, has_active: bool) -> bool {
    has_active || direct_mention(lower(s), lower(bot_name)) || (has_help_phrase(lower(s))
        && has_domain_keyword(lower(s))) || (s.len() > 10 && has_domain_keyword(lower(s))
        && contains_seq(lower(s), "?"@))
}

/// Whether the bot should respond to a new message.
pub fn should_start(content: &str, bot_name: &str, has_active: bool) -> (r: bool)
    ensures
        r == spec_should_start(content@, bot_name@, has_active),
{
    if has_active {
        return true;
    }
    let chars = to_chars(content);
    let t = lower_vec(&chars);
    let name_chars = to_chars(bot_name);
    let n = lower_vec(&name_chars);
    direct_mention_exec(&t, &n) || (has_help_phrase_exec(&t) && has_domain_keyword_exec(&t)) || (
    chars.len() > 10 && has_domain_keyword_exec(&t) && contains_chars(&t, &to_chars("?")))
}

/// Concatenation of two character vectors.
pub fn concat_chars(a: &Vec<char>, b: &Vec<char>) -> (r: Vec<char>)
    ensures
        r@ == a@ + b@,
{
    let mut r: Vec<char> = Vec::new();
    let mut i: usize = 0;
    while i < a.len()
        invariant
            i <= a@.len(),
            r@ == a@.subrange(0, i as int),
        decreases a@.len() - i,
    {
        r.push(a[i]);
        i = i + 1;
        proof {
            assert(r@ =~= a@.subrange(0, i as int));
        }
    }
    let mut j: usize = 0;
    while j < b.len()
        invariant
            j <= b@.len(),
            r@ == a@.subrange(0, a@.len() as int) + b@.subrange(0, j as int),
        decreases b@.len() - j,
    {
        r.push(b[j]);
        j = j + 1;
        proof {
            assert(r@ =~= a@.subrange(0, a@.len() as int) + b@.subrange(0, j as int));
        }
    }
    proof {
        assert(a@.subrange(0, a@.len() as int) =~= a@);
        assert(b@.subrange(0, b@.len() as int) =~= b@);
        assert(r@ =~= a@ + b@);
    }
    r
}

} // verus!
