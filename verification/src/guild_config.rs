//! Per-guild AI enablement: a mode (off, everywhere, or restricted to a set
//! of channels), the channel-target parser for the configuration command,
//! and the store that maps each guild to its configuration.

use vstd::prelude::*;

use crate::text::{
    digits_value, eq_chars, is_space_char, is_space_exec, is_u64_decimal, parse_u64_chars,
    subrange_chars, to_chars,
};

verus! {

/// Where the bot's AI replies are allowed in a guild.
#[derive(Clone, Copy, Debug, PartialEq, Eq, Structural)]
pub enum AiMode {
    /// AI replies are disabled everywhere.
    Off,
    /// AI replies are allowed in every channel.
    Global,
    /// AI replies are allowed only in the listed channels.
    Specific,
}

/// One guild's AI configuration: the mode, and the channel ids the
/// restricted mode allows.
#[derive(Debug)]
pub struct AiGuildConfig {
    pub mode: AiMode,
    pub allowed_ids: Vec<u64>,
}

impl Default for AiGuildConfig {
    /// The default configuration: AI off, no allowed channels.
    fn default() -> (r: Self)
        ensures
            r.mode == AiMode::Off,
            r.allowed_ids@ =~= Seq::<u64>::empty(),
    {
        AiGuildConfig { mode: AiMode::Off, allowed_ids: Vec::new() }
    }
}

/// Whether a guild configured as (`mode`, `ids`) allows AI in `channel`.
pub open spec fn spec_allows(mode: AiMode, ids: Seq<u64>, channel: u64) -> bool {
    match mode {
        AiMode::Off => false,
        AiMode::Global => true,
        AiMode::Specific => ids.contains(channel),
    }
}

impl AiGuildConfig {
    /// Whether this configuration allows AI replies in `channel`.
    pub fn allows_channel(&self, channel: u64) -> (r: bool)
        ensures
            r == spec_allows(self.mode, self.allowed_ids@, channel),
    {
        match self.mode {
            AiMode::Off => false,
            AiMode::Global => true,
            AiMode::Specific => {
                let mut i: usize = 0;
                while i < self.allowed_ids.len()
                    invariant
                        self.mode is Specific,
                        i <= self.allowed_ids@.len(),
                        forall|j: int| 0 <= j < i ==> self.allowed_ids@[j] != channel,
                    decreases self.allowed_ids@.len() - i,
                {
                    if self.allowed_ids[i] == channel {
                        proof {
                            assert(self.allowed_ids@.contains(channel)) by {
                                assert(self.allowed_ids@[i as int] == channel);
                            }
                        }
                        return true;
                    }
                    i = i + 1;
                }
                false
            },
        }
    }
}

fn copy_ids(v: &Vec<u64>) -> (r: Vec<u64>)
    ensures
        r@ == v@,
{
    let mut r: Vec<u64> = Vec::new();
    let mut i: usize = 0;
    while i < v.len()
        invariant
            i <= v@.len(),
            r@ == v@.subrange(0, i as int),
        decreases v@.len() - i,
    {
        r.push(v[i]);
        i = i + 1;
        proof {
            assert(r@ =~= v@.subrange(0, i as int));
        }
    }
    proof {
        assert(r@ =~= v@);
    }
    r
}

/// An entry for key `k` stands at index `i` of `s`.
pub open spec fn entry_key_at(s: Seq<(u64, AiGuildConfig)>, k: u64, i: int) -> bool {
    0 <= i < s.len() && s[i].0 == k
}

/// No two entries of `s` share a guild id.
pub open spec fn unique_keys(s: Seq<(u64, AiGuildConfig)>) -> bool {
    forall|i: int, j: int| 0 <= i < j < s.len() ==> (#[trigger] s[i]).0 != (#[trigger] s[j]).0
}

/// The guild-to-configuration map a sequence of entries denotes.
pub open spec fn entries_map(s: Seq<(u64, AiGuildConfig)>) -> Map<u64, (AiMode, Seq<u64>)> {
    Map::new(
        |k: u64| exists|i: int| entry_key_at(s, k, i),
        |k: u64|
            {
                let i = choose|i: int| entry_key_at(s, k, i);
                (s[i].1.mode, s[i].1.allowed_ids@)
            },
    )
}

proof fn lemma_entries_map_at(s: Seq<(u64, AiGuildConfig)>, i: int)
    requires
        unique_keys(s),
        0 <= i < s.len(),
    ensures
        entries_map(s).contains_key(s[i].0),
        entries_map(s)[s[i].0] == (s[i].1.mode, s[i].1.allowed_ids@),
{
    assert(entry_key_at(s, s[i].0, i));
    let j = choose|j: int| entry_key_at(s, s[i].0, j);
    if j < i {
        assert(s[j].0 != s[i].0);
    } else if i < j {
        assert(s[i].0 != s[j].0);
    }
}

/// Per-guild AI configurations, keyed by guild id; keys are unique.
pub struct AiConfiguration {
    entries: Vec<(u64, AiGuildConfig)>,
}

impl View for AiConfiguration {
    type V = Map<u64, (AiMode, Seq<u64>)>;

    closed spec fn view(&self) -> Map<u64, (AiMode, Seq<u64>)> {
        entries_map(self.entries@)
    }
}

impl AiConfiguration {
    /// Every guild appears at most once in the store.
    pub closed spec fn wf(&self) -> bool {
        unique_keys(self.entries@)
    }

    /// An empty store: no guild is configured.
    pub fn new() -> (r: Self)
        ensures
            r.wf(),
            (r@ == Map::<u64, (AiMode, Seq<u64>)>::empty()),
    {
        let r = AiConfiguration { entries: Vec::new() };
        proof {
            assert(r@ =~= Map::<u64, (AiMode, Seq<u64>)>::empty());
        }
        r
    }

    /// The configuration stored for `guild_id`, or the default (AI off, no
    /// allowed channels) when none is stored.
    pub fn get_guild_config(&self, guild_id: u64) -> (r: AiGuildConfig)
        requires
            self.wf(),
        ensures
            self@.contains_key(guild_id) ==> (r.mode, r.allowed_ids@) == self@[guild_id],
            !self@.contains_key(guild_id) ==> r.mode == AiMode::Off && r.allowed_ids@
                =~= Seq::<u64>::empty(),
    {
        let mut i: usize = 0;
        while i < self.entries.len()
            invariant
                self.wf(),
                i <= self.entries@.len(),
                forall|j: int| 0 <= j < i ==> (#[trigger] self.entries@[j]).0 != guild_id,
            decreases self.entries@.len() - i,
        {
            if self.entries[i].0 == guild_id {
                proof {
                    lemma_entries_map_at(self.entries@, i as int);
                }
                let mode = self.entries[i].1.mode;
                let allowed_ids = copy_ids(&self.entries[i].1.allowed_ids);
                return AiGuildConfig { mode, allowed_ids };
            }
            i = i + 1;
        }
        AiGuildConfig::default()
    }

    /// Every stored (guild, configuration) pair, one per guild.
    pub fn guild_entries(&self) -> (r: Vec<(u64, AiGuildConfig)>)
        requires
            self.wf(),
        ensures
            forall|i: int|
                0 <= i < r@.len() ==> self@.contains_key((#[trigger] r@[i]).0) && self@[r@[i].0]
                    == (r@[i].1.mode, r@[i].1.allowed_ids@),
            forall|k: u64|
                self@.contains_key(k) ==> exists|i: int|
                    0 <= i < r@.len() && (#[trigger] r@[i]).0 == k,
            forall|i: int, j: int|
                0 <= i < j < r@.len() ==> (#[trigger] r@[i]).0 != (#[trigger] r@[j]).0,
    {
        let mut r: Vec<(u64, AiGuildConfig)> = Vec::new();
        let mut i: usize = 0;
        while i < self.entries.len()
            invariant
                self.wf(),
                i <= self.entries@.len(),
                r@.len() == i,
                forall|j: int| 0 <= j < i ==> (#[trigger] r@[j]).0 == self.entries@[j].0,
                forall|j: int|
                    0 <= j < i ==> (#[trigger] r@[j]).1.mode == self.entries@[j].1.mode && r@[j].1.allowed_ids@
                        == self.entries@[j].1.allowed_ids@,
            decreases self.entries@.len() - i,
        {
            let mode = self.entries[i].1.mode;
            let allowed_ids = copy_ids(&self.entries[i].1.allowed_ids);
            r.push((self.entries[i].0, AiGuildConfig { mode, allowed_ids }));
            i = i + 1;
        }
        proof {
            assert forall|j: int| 0 <= j < r@.len() implies self@.contains_key(
                (#[trigger] r@[j]).0,
            ) && self@[r@[j].0] == (r@[j].1.mode, r@[j].1.allowed_ids@) by {
                lemma_entries_map_at(self.entries@, j);
            }
            assert forall|k: u64| self@.contains_key(k) implies exists|j: int|
                0 <= j < r@.len() && (#[trigger] r@[j]).0 == k by {
                let j = choose|j: int| entry_key_at(self.entries@, k, j);
                assert(r@[j].0 == k);
            }
        }
        r
    }

    /// Stores `config` for `guild_id`, replacing whatever was stored.
    pub fn set_guild_config(&mut self, guild_id: u64, config: AiGuildConfig)
        requires
            old(self).wf(),
        ensures
            final(self).wf(),
            final(self)@ == old(self)@.insert(guild_id, (config.mode, config.allowed_ids@)),
    {
        let ghost s0 = self.entries@;
        let mut i: usize = 0;
        while i < self.entries.len()
            invariant
                s0 == old(self).entries@,
                self.entries@ == s0,
                unique_keys(s0),
                i <= s0.len(),
                forall|j: int| 0 <= j < i ==> (#[trigger] s0[j]).0 != guild_id,
            decreases s0.len() - i,
        {
            if self.entries[i].0 == guild_id {
                self.entries[i] = (guild_id, config);
                proof {
                    lemma_entries_map_update(s0, i as int, (guild_id, config));
                }
                return ;
            }
            i = i + 1;
        }
        self.entries.push((guild_id, config));
        proof {
            lemma_entries_map_push(s0, (guild_id, config));
        }
    }
}

proof fn lemma_entries_map_update(s: Seq<(u64, AiGuildConfig)>, i: int, e: (u64, AiGuildConfig))
    requires
        unique_keys(s),
        0 <= i < s.len(),
        e.0 == s[i].0,
    ensures
        unique_keys(s.update(i, e)),
        entries_map(s.update(i, e)) == entries_map(s).insert(e.0, (e.1.mode, e.1.allowed_ids@)),
{
    let s1 = s.update(i, e);
    assert(forall|j: int| 0 <= j < s.len() ==> (#[trigger] s1[j]).0 == s[j].0);
    let m1 = entries_map(s1);
    let m2 = entries_map(s).insert(e.0, (e.1.mode, e.1.allowed_ids@));
    assert forall|k: u64| m1.contains_key(k) == m2.contains_key(k) by {
        if m1.contains_key(k) {
            let j = choose|j: int| entry_key_at(s1, k, j);
            assert(entry_key_at(s, k, j));
            assert(m2.contains_key(k));
        }
        if m2.contains_key(k) {
            if k == e.0 {
                assert(entry_key_at(s1, k, i));
            } else {
                let j = choose|j: int| entry_key_at(s, k, j);
                assert(entry_key_at(s1, k, j));
            }
            assert(m1.contains_key(k));
        }
    }
    assert forall|k: u64| m1.contains_key(k) implies m1[k] == m2[k] by {
        let j1 = choose|j: int| entry_key_at(s1, k, j);
        if k == e.0 {
            assert(entry_key_at(s1, k, i));
            if j1 < i {
                assert(s1[j1].0 != s1[i].0);
            } else if i < j1 {
                assert(s1[i].0 != s1[j1].0);
            }
            assert(m1[k] == (e.1.mode, e.1.allowed_ids@));
        } else {
            assert(j1 != i);
            assert(entry_key_at(s, k, j1));
            let j2 = choose|j: int| entry_key_at(s, k, j);
            if j2 < j1 {
                assert(s[j2].0 != s[j1].0);
            } else if j1 < j2 {
                assert(s[j1].0 != s[j2].0);
            }
            assert(m1[k] == (s1[j1].1.mode, s1[j1].1.allowed_ids@));
            assert(m2[k] == (s[j2].1.mode, s[j2].1.allowed_ids@));
        }
    }
    assert(m1 =~= m2);
}

proof fn lemma_entries_map_push(s: Seq<(u64, AiGuildConfig)>, e: (u64, AiGuildConfig))
    requires
        unique_keys(s),
        forall|j: int| 0 <= j < s.len() ==> (#[trigger] s[j]).0 != e.0,
    ensures
        unique_keys(s.push(e)),
        entries_map(s.push(e)) == entries_map(s).insert(e.0, (e.1.mode, e.1.allowed_ids@)),
{
    let s1 = s.push(e);
    assert(forall|j: int| 0 <= j < s.len() ==> #[trigger] s1[j] == s[j]);
    assert(s1[s.len() as int] == e);
    let m1 = entries_map(s1);
    let m2 = entries_map(s).insert(e.0, (e.1.mode, e.1.allowed_ids@));
    assert forall|k: u64| m1.contains_key(k) == m2.contains_key(k) by {
        if k == e.0 {
            assert(entry_key_at(s1, k, s.len() as int));
            assert(m1.contains_key(k));
        } else {
            if m1.contains_key(k) {
                let j = choose|j: int| entry_key_at(s1, k, j);
                assert(j < s.len());
                assert(entry_key_at(s, k, j));
                assert(m2.contains_key(k));
            }
            if m2.contains_key(k) {
                assert(entries_map(s).contains_key(k));
                let j = choose|j: int| entry_key_at(s, k, j);
                assert(entry_key_at(s1, k, j));
                assert(m1.contains_key(k));
            }
        }
    }
    assert forall|k: u64| m1.contains_key(k) implies m1[k] == m2[k] by {
        let j1 = choose|j: int| entry_key_at(s1, k, j);
        if k == e.0 {
            assert(entry_key_at(s1, k, s.len() as int));
            if j1 < s.len() {
                assert(s[j1].0 != e.0);
            }
            assert(m1[k] == (e.1.mode, e.1.allowed_ids@));
        } else {
            assert(j1 < s.len());
            assert(entry_key_at(s, k, j1));
            let j2 = choose|j: int| entry_key_at(s, k, j);
            if j2 < j1 {
                assert(s[j2].0 != s[j1].0);
            } else if j1 < j2 {
                assert(s[j1].0 != s[j2].0);
            }
            assert(m1[k] == (s1[j1].1.mode, s1[j1].1.allowed_ids@));
            assert(m2[k] == (s[j2].1.mode, s[j2].1.allowed_ids@));
        }
    }
    assert(m1 =~= m2);
}

/// The channel id one whitespace-separated token denotes: either a plain
/// decimal id, or one wrapped as a channel mention `<#id>`.
pub open spec fn spec_parse_target(t: Seq<char>) -> Option<u64> {
    if t.len() >= 3 && t[0] == '<' && t[1] == '#' && t[t.len() - 1] == '>' {
        let inner = t.subrange(2, t.len() - 1);
        if is_u64_decimal(inner) {
            Some(digits_value(inner) as u64)
        } else {
            None
        }
    } else if is_u64_decimal(t) {
        Some(digits_value(t) as u64)
    } else {
        None
    }
}

/// Parses one token as a channel target.
pub fn parse_target(t: &Vec<char>) -> (r: Option<u64>)
    ensures
        r == spec_parse_target(t@),
{
    if t.len() >= 3 && t[0] == '<' && t[1] == '#' && t[t.len() - 1] == '>' {
        let inner = subrange_chars(t, 2, t.len() - 1);
        parse_u64_chars(&inner)
    } else {
        parse_u64_chars(t)
    }
}

/// The index of the first whitespace character at or after `i`, or the end.
pub open spec fn token_end(s: Seq<char>, i: int) -> int
    decreases s.len() - i when 0 <= i
{
    if i >= s.len() || is_space_char(s[i]) {
        i
    } else {
        token_end(s, i + 1)
    }
}

proof fn lemma_token_end_bounds(s: Seq<char>, i: int)
    requires
        0 <= i <= s.len(),
    ensures
        i <= token_end(s, i) <= s.len(),
        i < s.len() && !is_space_char(s[i]) ==> token_end(s, i) > i,
    decreases s.len() - i,
{
    if i < s.len() && !is_space_char(s[i]) {
        lemma_token_end_bounds(s, i + 1);
    }
}

/// The channel targets named from position `i` on: each whitespace-separated
/// token that parses as a target, in order; tokens that do not parse are
/// dropped.
pub open spec fn spec_targets_from(s: Seq<char>, i: int) -> Seq<u64>
    decreases s.len() - i when 0 <= i via spec_targets_from_decreases
{
    if i >= s.len() {
        Seq::empty()
    } else if is_space_char(s[i]) {
        spec_targets_from(s, i + 1)
    } else {
        let j = token_end(s, i);
        let rest = spec_targets_from(s, j);
        match spec_parse_target(s.subrange(i, j)) {
            Some(v) => seq![v] + rest,
            None => rest,
        }
    }
}

#[via_fn]
proof fn spec_targets_from_decreases(s: Seq<char>, i: int) {
    if 0 <= i < s.len() && !is_space_char(s[i]) {
        lemma_token_end_bounds(s, i);
    }
}

proof fn lemma_token_end_at(s: Seq<char>, i: int, j: int)
    requires
        0 <= i <= j <= s.len(),
        forall|t: int| i <= t < j ==> !is_space_char(s[t]),
        j == s.len() || is_space_char(s[j]),
    ensures
        token_end(s, i) == j,
    decreases j - i,
{
    if i < j {
        lemma_token_end_at(s, i + 1, j);
    }
}

/// Parses a whitespace-separated list of channel targets; tokens that are
/// neither a decimal id nor a `<#id>` mention are dropped.
pub fn parse_targets(s: &str) -> (r: Vec<u64>)
    ensures
        r@ == spec_targets_from(s@, 0),
{
    let v = to_chars(s);
    let mut r: Vec<u64> = Vec::new();
    let mut i: usize = 0;
    while i < v.len()
        invariant
            v@ == s@,
            i <= v@.len(),
            r@ + spec_targets_from(v@, i as int) == spec_targets_from(v@, 0),
        decreases v@.len() - i,
    {
        if is_space_exec(v[i]) {
            i = i + 1;
        } else {
            let mut j: usize = i;
            while j < v.len() && !is_space_exec(v[j])
                invariant
                    i <= j <= v@.len(),
                    forall|t: int| i <= t < j ==> !is_space_char(v@[t]),
                decreases v@.len() - j,
            {
                j = j + 1;
            }
            proof {
                lemma_token_end_at(v@, i as int, j as int);
            }
            let tok = subrange_chars(&v, i, j);
            match parse_target(&tok) {
                Some(val) => {
                    r.push(val);
                    proof {
                        assert(r@ + spec_targets_from(v@, j as int) =~= spec_targets_from(
                            v@,
                            0,
                        ));
                    }
                },
                None => {},
            }
            i = j;
        }
    }
    proof {
        assert(r@ =~= spec_targets_from(v@, 0));
    }
    r
}

/// The AI mode a command option string names.
pub open spec fn spec_parse_mode(s: Seq<char>) -> Option<AiMode> {
    if s == "off"@ {
        Some(AiMode::Off)
    } else if s == "global"@ {
        Some(AiMode::Global)
    } else if s == "specific"@ {
        Some(AiMode::Specific)
    } else {
        None
    }
}

/// Parses the mode option of the configuration command.
pub fn parse_mode(s: &str) -> (r: Option<AiMode>)
    ensures
        r == spec_parse_mode(s@),
{
    let v = to_chars(s);
    if eq_chars(&v, &to_chars("off")) {
        Some(AiMode::Off)
    } else if eq_chars(&v, &to_chars("global")) {
        Some(AiMode::Global)
    } else if eq_chars(&v, &to_chars("specific")) {
        Some(AiMode::Specific)
    } else {
        None
    }
}

/// Why a configuration command was rejected.
#[derive(Clone, Copy, Debug, PartialEq, Eq, Structural)]
pub enum AiConfigError {
    /// The mode option names no known mode.
    InvalidMode,
    /// The restricted mode was chosen with no usable channel target.
    MissingTargets,
}

/// The configuration the command options denote: the named mode with the
/// parsed targets when restricted (at least one target is required then),
/// and with no targets otherwise.
pub open spec fn spec_build(mode: Seq<char>, targets: Option<Seq<char>>) -> Result<
    (AiMode, Seq<u64>),
    AiConfigError,
> {
    match spec_parse_mode(mode) {
        None => Err(AiConfigError::InvalidMode),
        Some(m) => if m == AiMode::Specific {
            match targets {
                Some(ts) => if spec_targets_from(ts, 0).len() > 0 {
                    Ok((m, spec_targets_from(ts, 0)))
                } else {
                    Err(AiConfigError::MissingTargets)
                },
                None => Err(AiConfigError::MissingTargets),
            }
        } else {
            Ok((m, Seq::empty()))
        },
    }
}

/// Builds a guild configuration from the command's options, rejecting an
/// unknown mode and a restricted mode without usable targets.
pub fn build_guild_config(mode_str: &str, targets_str: Option<&str>) -> (r: Result<
    AiGuildConfig,
    AiConfigError,
>)
    ensures
        match (r, spec_build(
            mode_str@,
            match targets_str {
                Some(ts) => Some(ts@),
                None => None,
            },
        )) {
            (Ok(cfg), Ok(spec)) => cfg.mode == spec.0 && cfg.allowed_ids@ == spec.1,
            (Err(e), Err(se)) => e == se,
            _ => false,
        },
{
    let mode = match parse_mode(mode_str) {
        Some(m) => m,
        None => {
            return Err(AiConfigError::InvalidMode);
        },
    };
    if let AiMode::Specific = mode {
        match targets_str {
            Some(ts) => {
                let ids = parse_targets(ts);
                if ids.len() > 0 {
                    Ok(AiGuildConfig { mode, allowed_ids: ids })
                } else {
                    Err(AiConfigError::MissingTargets)
                }
            },
            None => Err(AiConfigError::MissingTargets),
        }
    } else {
        Ok(AiGuildConfig { mode, allowed_ids: Vec::new() })
    }
}

} // verus!

