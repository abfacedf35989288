use vstd::prelude::*;

verus! {

/// How many times the metadata of one session is read before that session is
/// left out of the pass.
pub const METADATA_MAX_ATTEMPTS: u32 = 20;

/// The pause before each read of a session's metadata, in milliseconds.
pub const METADATA_RETRY_DELAY_MS: u64 = 50;

/// A bounded retry: at most `max_attempts` tries, `delay_ms` apart.
#[derive(Clone, Copy, Debug, PartialEq, Eq, Structural)]
pub struct RetryPolicy {
    pub max_attempts: u32,
    pub delay_ms: u64,
}

#[derive(Clone, Copy, Debug, PartialEq, Eq, Structural)]
pub enum RetryDecision {
    /// Wait this many milliseconds, then try again.
    RetryAfter(u64),
    /// Stop trying; the session is left out of this pass.
    GiveUp,
}

impl RetryPolicy {
    /// The policy for reading a session's metadata.
    pub fn metadata() -> (r: RetryPolicy)
        ensures
            r.max_attempts == METADATA_MAX_ATTEMPTS,
            r.delay_ms == METADATA_RETRY_DELAY_MS,
    {
        RetryPolicy { max_attempts: METADATA_MAX_ATTEMPTS, delay_ms: METADATA_RETRY_DELAY_MS }
    }

    /// What to do once `failures` attempts in a row have failed: try again
    /// after the delay while attempts remain, else give up.
    pub fn after_failure(&self, failures: u32) -> (r: RetryDecision)
        ensures
            r == (if failures < self.max_attempts {
                RetryDecision::RetryAfter(self.delay_ms)
            } else {
                RetryDecision::GiveUp
            }),
    {
        if failures < self.max_attempts {
            RetryDecision::RetryAfter(self.delay_ms)
        } else {
            RetryDecision::GiveUp
        }
    }
}

/// The sessions whose change notifications are already subscribed to, so that
/// each is subscribed to once for the life of the process.
pub struct SubscriptionTracker {
    subscribed: Vec<String>,
}

impl View for SubscriptionTracker {
    type V = Seq<Seq<char>>;

    closed spec fn view(&self) -> Seq<Seq<char>> {
        self.subscribed@.map_values(|s: String| s@)
    }
}

impl SubscriptionTracker {
    pub fn new() -> (r: SubscriptionTracker)
        ensures
            r@ == Seq::<Seq<char>>::empty(),
    {
        let r = SubscriptionTracker { subscribed: Vec::new() };
        assert(r@ =~= Seq::<Seq<char>>::empty());
        r
    }

    /// Records `session`; true when it had not been recorded before, that is
    /// when the caller should subscribe to it now.
    pub fn first_sighting(&mut self, session: &String) -> (r: bool)
        ensures
            r == !old(self)@.contains(session@),
            final(self)@ == (if r {
                old(self)@.push(session@)
            } else {
                old(self)@
            }),
    {
        let ghost v = self@;
        let mut i: usize = 0;
        while i < self.subscribed.len()
            invariant
                i <= self.subscribed.len(),
                v == self@,
                forall|k: int| 0 <= k < i ==> #[trigger] v[k] != session@,
            decreases self.subscribed.len() - i,
        {
            if self.subscribed[i] == *session {
                assert(v[i as int] == session@);
                return false;
            }
            i += 1;
        }
        self.subscribed.push(session.clone());
        assert(self@ =~= v.push(session@));
        true
    }
}

} // verus!
