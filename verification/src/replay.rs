//! Replay protection: the `jti` values of the tokens accepted so far.

use vstd::prelude::*;

use crate::bounded::{lemma_made_room_then_pushed, made_room, newest};
use crate::text::{contains_text, texts};

verus! {

/// How many `jti` values are remembered at most.
pub const MAX_SEEN_JTI: usize = 4096;

/// The `jti` values of accepted tokens, oldest first. Past its capacity the
/// oldest is forgotten.
#[derive(Debug)]
pub struct ReplayGuard {
    jtis: Vec<String>,
}

impl View for ReplayGuard {
    type V = Seq<Seq<char>>;

    closed spec fn view(&self) -> Seq<Seq<char>> {
        texts(self.jtis@)
    }
}

/// What is remembered once a token with this `jti` was presented.
pub open spec fn remembered(seen: Seq<Seq<char>>, jti: Seq<char>) -> Seq<Seq<char>> {
    if seen.contains(jti) {
        seen
    } else {
        newest(seen.push(jti), MAX_SEEN_JTI as nat)
    }
}

impl ReplayGuard {
    /// The guard's invariant.
    pub closed spec fn wf(&self) -> bool {
        self.jtis@.len() <= MAX_SEEN_JTI
    }

    /// A guard never exceeds its capacity.
    pub proof fn law_guard_is_bounded(&self)
        requires
            self.wf(),
        ensures
            self@.len() <= MAX_SEEN_JTI,
    {
    }

    pub fn new() -> (res: Self)
        ensures
            res.wf(),
            res@.len() == 0,
    {
        ReplayGuard { jtis: Vec::new() }
    }

    /// How many `jti` values are remembered.
    pub fn len(&self) -> (res: usize)
        requires
            self.wf(),
        ensures
            res == self@.len(),
            res <= MAX_SEEN_JTI,
    {
        self.jtis.len()
    }

    /// Remembers a `jti`. Returns whether it was new.
    pub fn record(&mut self, jti: &str) -> (res: bool)
        requires
            old(self).wf(),
        ensures
            final(self).wf(),
            res == !old(self)@.contains(jti@),
            final(self)@ == remembered(old(self)@, jti@),
            !res ==> *final(self) == *old(self),
    {
        if contains_text(&self.jtis, jti) {
            return false;
        }
        if self.jtis.len() >= MAX_SEEN_JTI {
            let _ = self.jtis.remove(0);
        }
        proof {
            assert(texts(self.jtis@) =~= made_room(old(self)@, MAX_SEEN_JTI as nat));
            lemma_made_room_then_pushed(old(self)@, jti@, MAX_SEEN_JTI as nat);
        }
        let ghost kept = self.jtis@;
        let copy = String::from_str(jti);
        self.jtis.push(copy);
        proof {
            assert(texts(kept.push(copy)) =~= texts(kept).push(jti@));
        }
        true
    }
}

/// A token is refused from its second use on, as long as its `jti` is
/// remembered; right after a token was accepted, it is.
pub proof fn law_replay_is_caught(seen: Seq<Seq<char>>, jti: Seq<char>)
    ensures
        remembered(seen, jti).contains(jti),
        remembered(remembered(seen, jti), jti) == remembered(seen, jti),
{
    let after = newest(seen.push(jti), MAX_SEEN_JTI as nat);
    assert(after.last() == jti);
    if !seen.contains(jti) {
        assert(after[after.len() - 1] == jti);
    }
}

/// Recording another token forgets nothing while there is capacity.
pub proof fn law_nothing_is_forgotten_below_capacity(
    seen: Seq<Seq<char>>,
    jti: Seq<char>,
    other: Seq<char>,
)
    requires
        seen.contains(jti),
        seen.len() < MAX_SEEN_JTI,
    ensures
        remembered(seen, other).contains(jti),
{
    let k = choose|k: int| 0 <= k < seen.len() && seen[k] == jti;
    if !seen.contains(other) {
        assert(remembered(seen, other)[k] == jti);
    }
}

/// A `jti` that is not remembered yet joins the end of those that are; where
/// 4096 of them are, the oldest goes. One that is remembered changes nothing.
pub proof fn law_one_jti_joins(seen: Seq<Seq<char>>, jti: Seq<char>)
    requires
        seen.len() <= 4096,
    ensures
        seen.contains(jti) ==> remembered(seen, jti) == seen,
        !seen.contains(jti) && seen.len() < 4096 ==> remembered(seen, jti) == seen.push(jti),
        !seen.contains(jti) && seen.len() == 4096 ==> remembered(seen, jti)
            == seen.drop_first().push(jti),
{
    if !seen.contains(jti) && seen.len() == 4096 {
        assert(remembered(seen, jti) =~= seen.drop_first().push(jti));
    }
}

} // verus!
