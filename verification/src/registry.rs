//! The conversation registry: one active conversation per channel, keyed by
//! channel id, held in a concurrent map and swept by age. A conversation is
//! owned by a single user and carries the time of its last activity.

use vstd::prelude::*;

verus! {

/// An active conversation in one channel: the owning user and the time
/// (seconds) of the last message that kept it alive.
#[derive(Clone, Copy, Debug, PartialEq, Eq, Structural)]
pub struct ConversationState {
    pub user_id: u64,
    pub last_activity: u64,
}

/// The entry is older than `timeout` seconds at time `now`.
pub open spec fn spec_expired(last_activity: u64, now: u64, timeout: u64) -> bool {
    now - last_activity > timeout
}

impl ConversationState {
    /// A fresh conversation for `user_id`, last active at `now`.
    pub fn new(user_id: u64, now: u64) -> (r: Self)
        ensures
            r.user_id == user_id,
            r.last_activity == now,
    {
        ConversationState { user_id, last_activity: now }
    }

    /// Marks the conversation as active at `now`.
    pub fn update_activity(&mut self, now: u64)
        ensures
            final(self).user_id == old(self).user_id,
            final(self).last_activity == now,
    {
        self.last_activity = now;
    }

    /// Whether the conversation has been inactive for more than `timeout`
    /// seconds at time `now`.
    pub fn is_expired(&self, now: u64, timeout: u64) -> (r: bool)
        ensures
            r == spec_expired(self.last_activity, now, timeout),
    {
        now >= self.last_activity && now - self.last_activity > timeout
    }
}

#[verifier::external_type_specification]
#[verifier::external_body]
#[verifier::reject_recursive_types(K)]
#[verifier::reject_recursive_types(V)]
#[verifier::reject_recursive_types(S)]
pub struct ExDashMap<K, V, S>(dashmap::DashMap<K, V, S>);

/// The entries a concurrent map holds: channel id to (owner, last activity).
pub uninterp spec fn dash_view(m: dashmap::DashMap<u64, (u64, u64)>) -> Map<u64, (u64, u64)>;

/// Relies on dashmap::DashMap::new: the new map is empty.
#[verifier::external_body]
fn dash_new() -> (r: dashmap::DashMap<u64, (u64, u64)>)
    ensures
        (dash_view(r) == Map::<u64, (u64, u64)>::empty()),
{
    dashmap::DashMap::new()
}

/// Relies on dashmap::DashMap::get: returns the value stored under the key,
/// or nothing when the key is absent.
#[verifier::external_body]
fn dash_get(m: &dashmap::DashMap<u64, (u64, u64)>, k: u64) -> (r: Option<(u64, u64)>)
    ensures
        (r == if dash_view(*m).contains_key(k) {
            Some(dash_view(*m)[k])
        } else {
            None::<(u64, u64)>
        }),
{
    m.get(&k).map(|e| *e)
}

/// Relies on dashmap::DashMap::insert: stores the value under the key and
/// returns the value that was there before, if any.
#[verifier::external_body]
fn dash_insert(m: &mut dashmap::DashMap<u64, (u64, u64)>, k: u64, v: (u64, u64)) -> (r: Option<
    (u64, u64),
>)
    ensures
        dash_view(*final(m)) == dash_view(*old(m)).insert(k, v),
        (r == if dash_view(*old(m)).contains_key(k) {
            Some(dash_view(*old(m))[k])
        } else {
            None::<(u64, u64)>
        }),
{
    m.insert(k, v)
}

/// Relies on dashmap::DashMap::remove: takes the entry for the key out of
/// the map and returns it, if it was there.
#[verifier::external_body]
fn dash_remove(m: &mut dashmap::DashMap<u64, (u64, u64)>, k: u64) -> (r: Option<
    (u64, (u64, u64)),
>)
    ensures
        dash_view(*final(m)) == dash_view(*old(m)).remove(k),
        (r == if dash_view(*old(m)).contains_key(k) {
            Some((k, dash_view(*old(m))[k]))
        } else {
            None::<(u64, (u64, u64))>
        }),
{
    m.remove(&k)
}

/// Relies on dashmap::DashMap::iter: yields every entry exactly once; the
/// order of the entries is not relied on.
#[verifier::external_body]
fn dash_entries(m: &dashmap::DashMap<u64, (u64, u64)>) -> (r: Vec<(u64, (u64, u64))>)
    ensures
        forall|i: int|
            0 <= i < r@.len() ==> dash_view(*m).contains_key((#[trigger] r@[i]).0) && dash_view(
                *m,
            )[r@[i].0] == r@[i].1,
        forall|k: u64|
            dash_view(*m).contains_key(k) ==> exists|i: int|
                0 <= i < r@.len() && (#[trigger] r@[i]).0 == k,
        forall|i: int, j: int|
            0 <= i < j < r@.len() ==> (#[trigger] r@[i]).0 != (#[trigger] r@[j]).0,
{
    m.iter().map(|e| (*e.key(), *e.value())).collect()
}

/// An entry for `channel` exists and is owned by `user`.
pub open spec fn spec_has_active(m: Map<u64, (u64, u64)>, channel: u64, user: u64) -> bool {
    m.contains_key(channel) && m[channel].0 == user
}

/// What a touch leaves behind: the owner's entry refreshed to `now`; an
/// entry owned by someone else evicted; an empty channel unchanged.
pub open spec fn spec_touch(m: Map<u64, (u64, u64)>, channel: u64, user: u64, now: u64) -> Map<
    u64,
    (u64, u64),
> {
    if m.contains_key(channel) {
        if m[channel].0 == user {
            m.insert(channel, (user, now))
        } else {
            m.remove(channel)
        }
    } else {
        m
    }
}

/// The registry after a sweep: exactly the entries not older than the
/// timeout survive, unchanged.
pub open spec fn spec_swept(m: Map<u64, (u64, u64)>, now: u64, timeout: u64) -> Map<
    u64,
    (u64, u64),
> {
    Map::<u64, (u64, u64)>::new(
        |k: u64| m.contains_key(k) && !spec_expired(m[k].1, now, timeout),
        |k: u64| m[k],
    )
}

/// Maps each channel with an active conversation to its state. Backed by a
/// concurrent map so unrelated channels are not serialized at run time.
pub struct Registry {
    map: dashmap::DashMap<u64, (u64, u64)>,
}

impl View for Registry {
    type V = Map<u64, (u64, u64)>;

    closed spec fn view(&self) -> Map<u64, (u64, u64)> {
        dash_view(self.map)
    }
}

impl Registry {
    /// An empty registry.
    pub fn new() -> (r: Self)
        ensures
            (r@ == Map::<u64, (u64, u64)>::empty()),
    {
        Registry { map: dash_new() }
    }

    /// The conversation state for `channel`, if one exists. No side effect.
    pub fn get(&self, channel: u64) -> (r: Option<ConversationState>)
        ensures
            match r {
                Some(st) => self@.contains_key(channel) && self@[channel] == (
                    st.user_id,
                    st.last_activity,
                ),
                None => !self@.contains_key(channel),
            },
    {
        match dash_get(&self.map, channel) {
            Some((user_id, last_activity)) => Some(ConversationState { user_id, last_activity }),
            None => None,
        }
    }

    /// True iff an entry exists for `channel` and is owned by `user`.
    pub fn has_active(&self, channel: u64, user: u64) -> (r: bool)
        ensures
            r == spec_has_active(self@, channel, user),
    {
        match dash_get(&self.map, channel) {
            Some((owner, _)) => owner == user,
            None => false,
        }
    }

    /// Starts (or restarts) a conversation: `channel` now maps to a fresh
    /// state for `user`, replacing any prior entry.
    pub fn start(&mut self, channel: u64, user: u64, now: u64)
        ensures
            final(self)@ == old(self)@.insert(channel, (user, now)),
    {
        dash_insert(&mut self.map, channel, (user, now));
    }

    /// Refreshes the conversation if `user` owns it (returns true); evicts
    /// it if a different user owns it; does nothing on an empty channel.
    pub fn touch(&mut self, channel: u64, user: u64, now: u64) -> (r: bool)
        ensures
            r == spec_has_active(old(self)@, channel, user),
            final(self)@ == spec_touch(old(self)@, channel, user, now),
    {
        match dash_get(&self.map, channel) {
            Some((owner, _)) => {
                if owner == user {
                    dash_insert(&mut self.map, channel, (user, now));
                    true
                } else {
                    dash_remove(&mut self.map, channel);
                    false
                }
            },
            None => false,
        }
    }

    /// Removes the entry iff it exists and belongs to `user`; returns
    /// whether a removal occurred.
    pub fn end(&mut self, channel: u64, user: u64) -> (r: bool)
        ensures
            r == spec_has_active(old(self)@, channel, user),
            final(self)@ == if spec_has_active(old(self)@, channel, user) {
                old(self)@.remove(channel)
            } else {
                old(self)@
            },
    {
        match dash_get(&self.map, channel) {
            Some((owner, _)) => {
                if owner == user {
                    dash_remove(&mut self.map, channel);
                    true
                } else {
                    false
                }
            },
            None => false,
        }
    }

    /// Removes whatever entry `channel` has, owner regardless.
    pub fn evict(&mut self, channel: u64)
        ensures
            final(self)@ == old(self)@.remove(channel),
    {
        dash_remove(&mut self.map, channel);
    }

    /// Removes every entry whose last activity is more than `timeout`
    /// seconds before `now`; every other entry is left untouched.
    pub fn sweep(&mut self, now: u64, timeout: u64)
        ensures
            final(self)@ == spec_swept(old(self)@, now, timeout),
    {
        let entries = dash_entries(&self.map);
        let ghost m0 = dash_view(self.map);
        let mut i: usize = 0;
        while i < entries.len()
            invariant
                forall|t: int|
                    0 <= t < entries@.len() ==> m0.contains_key((#[trigger] entries@[t]).0)
                        && m0[entries@[t].0] == entries@[t].1,
                forall|k: u64|
                    m0.contains_key(k) ==> exists|t: int|
                        0 <= t < entries@.len() && (#[trigger] entries@[t]).0 == k,
                forall|t1: int, t2: int|
                    0 <= t1 < t2 < entries@.len() ==> (#[trigger] entries@[t1]).0 != (
                    #[trigger] entries@[t2]).0,
                i <= entries@.len(),
                self@ == Map::<u64, (u64, u64)>::new(
                    |k: u64|
                        m0.contains_key(k) && !(exists|t: int|
                            0 <= t < i && (#[trigger] entries@[t]).0 == k && spec_expired(
                                entries@[t].1.1,
                                now,
                                timeout,
                            )),
                    |k: u64| m0[k],
                ),
            decreases entries@.len() - i,
        {
            let ghost prev = self@;
            let (k, st) = entries[i];
            let expired = now >= st.1 && now - st.1 > timeout;
            if expired {
                dash_remove(&mut self.map, k);
            }
            i = i + 1;
            proof {
                let p_new = |kk: u64|
                    m0.contains_key(kk) && !(exists|t: int|
                        0 <= t < i && (#[trigger] entries@[t]).0 == kk && spec_expired(
                            entries@[t].1.1,
                            now,
                            timeout,
                        ));
                assert forall|kk: u64| #[trigger]
                    self@.contains_key(kk) == p_new(kk) && (p_new(kk) ==> self@[kk] == m0[kk]) by {
                    if kk == k {
                        if expired {
                            assert(0 <= i - 1 < i && entries@[i - 1].0 == kk && spec_expired(
                                entries@[i - 1].1.1,
                                now,
                                timeout,
                            ));
                        } else {
                            assert forall|t: int|
                                0 <= t < i && (#[trigger] entries@[t]).0 == kk implies !spec_expired(
                                entries@[t].1.1,
                                now,
                                timeout,
                            ) by {
                                assert(t == i - 1);
                            }
                        }
                    } else {
                        assert(forall|t: int|
                            0 <= t < i - 1 ==> ((#[trigger] entries@[t]).0 == kk <==> (0 <= t < i
                                && entries@[t].0 == kk)));
                    }
                }
                assert(self@ =~= Map::<u64, (u64, u64)>::new(p_new, |kk: u64| m0[kk]));
            }
        }
        proof {
            assert forall|kk: u64| #[trigger]
                spec_swept(m0, now, timeout).contains_key(kk) == self@.contains_key(kk) by {
                if m0.contains_key(kk) {
                    if spec_expired(m0[kk].1, now, timeout) {
                        let t = choose|t: int|
                            0 <= t < entries@.len() && (#[trigger] entries@[t]).0 == kk;
                        assert(entries@[t].1 == m0[kk]);
                    }
                }
            }
            assert(self@ =~= spec_swept(m0, now, timeout));
        }
    }
}

/// At most one conversation state exists per channel at any time: if two
/// users both own the channel's conversation, they are the same user.
pub proof fn lemma_at_most_one_owner(m: Map<u64, (u64, u64)>, channel: u64, u1: u64, u2: u64)
    ensures
        spec_has_active(m, channel, u1) && spec_has_active(m, channel, u2) ==> u1 == u2,
{
}

/// Touching a channel as a user other than the stored owner always evicts
/// the entry and reports no active conversation: afterward the channel has
/// no entry at all.
pub proof fn lemma_touch_mismatch_evicts(m: Map<u64, (u64, u64)>, channel: u64, user: u64, now: u64)
    requires
        m.contains_key(channel),
        m[channel].0 != user,
    ensures
        !spec_has_active(m, channel, user),
        !spec_touch(m, channel, user, now).contains_key(channel),
{
}

/// Starting a conversation for the user who already owns the channel is
/// equivalent to touching it: both leave a fresh entry for that user.
pub proof fn lemma_start_same_user_is_touch(
    m: Map<u64, (u64, u64)>,
    channel: u64,
    user: u64,
    now: u64,
)
    requires
        spec_has_active(m, channel, user),
    ensures
        m.insert(channel, (user, now)) == spec_touch(m, channel, user, now),
{
}

/// A sweep removes exactly the entries older than the timeout: a channel
/// survives iff it was present and not expired, and a surviving entry is
/// untouched.
pub proof fn lemma_sweep_exact(m: Map<u64, (u64, u64)>, now: u64, timeout: u64, channel: u64)
    ensures
        spec_swept(m, now, timeout).contains_key(channel) <==> (m.contains_key(channel)
            && !spec_expired(m[channel].1, now, timeout)),
        spec_swept(m, now, timeout).contains_key(channel) ==> spec_swept(m, now, timeout)[channel]
            == m[channel],
{
}

} // verus!
