//! The condition poller: a predicate is evaluated up to a fixed number of
//! times, and polling stops at the first attempt on which it holds, or after
//! the last attempt when it never does. Exhaustion is informational, never an
//! error. The workflow's two waits — for the anti-bot token field and for an
//! authenticated-looking URL — are both instances of this poll.

use vstd::prelude::*;

verus! {

/// The first index at or after `i` at which the outcome is true, or the
/// sequence's length when none is.
pub open spec fn first_true(outcomes: Seq<bool>, i: int) -> int
    decreases outcomes.len() - i,
{
    if i >= outcomes.len() {
        outcomes.len() as int
    } else if outcomes[i] {
        i
    } else {
        first_true(outcomes, i + 1)
    }
}

pub proof fn lemma_first_true(outcomes: Seq<bool>, i: int)
    requires
        0 <= i <= outcomes.len(),
    ensures
        i <= first_true(outcomes, i) <= outcomes.len(),
        first_true(outcomes, i) < outcomes.len() ==> outcomes[first_true(outcomes, i)],
        forall|j: int| i <= j < first_true(outcomes, i) ==> !outcomes[j],
    decreases outcomes.len() - i,
{
    if i < outcomes.len() && !outcomes[i] {
        lemma_first_true(outcomes, i + 1);
    }
}

proof fn lemma_first_true_at_least(outcomes: Seq<bool>, i: int, m: int)
    requires
        0 <= i <= m <= outcomes.len(),
        forall|j: int| i <= j < m ==> !outcomes[j],
    ensures
        first_true(outcomes, i) >= m,
    decreases m - i,
{
    if i < m {
        lemma_first_true_at_least(outcomes, i + 1, m)
    } else {
        lemma_first_true(outcomes, i);
    }
}

/// The number of predicate evaluations a poll of at most `max` attempts
/// makes, given the outcome each evaluation would have: it stops at the
/// first satisfied attempt, or after `max` attempts.
pub open spec fn poll_attempts(outcomes: Seq<bool>, max: int) -> int {
    if first_true(outcomes, 0) < max {
        first_true(outcomes, 0) + 1
    } else {
        max
    }
}

/// Law: a predicate that first holds on attempt `k` (one-based, within the
/// attempt budget) stops the poll at exactly attempt `k`; no further attempt
/// is made.
pub proof fn lemma_poll_stops_at_first_true(outcomes: Seq<bool>, max: int, k: int)
    requires
        1 <= k <= max,
        k <= outcomes.len(),
        outcomes[k - 1],
        forall|i: int| 0 <= i < k - 1 ==> !outcomes[i],
    ensures
        poll_attempts(outcomes, max) == k,
{
    lemma_first_true(outcomes, 0);
    lemma_first_true_at_least(outcomes, 0, k - 1);
}

/// Law: a predicate that holds on no attempt within the budget leaves the
/// poll running its full `max` attempts.
pub proof fn lemma_poll_exhausts(outcomes: Seq<bool>, max: int)
    requires
        0 <= max <= outcomes.len(),
        forall|i: int| 0 <= i < max ==> !outcomes[i],
    ensures
        poll_attempts(outcomes, max) == max,
{
    lemma_first_true_at_least(outcomes, 0, max);
}

/// Run a poll over the recorded outcome of each would-be predicate
/// evaluation: how many attempts it makes and whether it stopped satisfied.
pub fn run_poll(outcomes: &Vec<bool>, max: u32) -> (r: (u32, bool))
    requires
        1 <= max,
        max as int <= outcomes@.len(),
    ensures
        r.0 == poll_attempts(outcomes@, max as int),
        r.1 == (first_true(outcomes@, 0) < max),
{
    let mut used: u32 = 0;
    let mut satisfied = false;
    while used < max && !satisfied
        invariant
            used <= max,
            max as int <= outcomes@.len(),
            satisfied ==> used >= 1 && outcomes@[used - 1] && first_true(outcomes@, 0) == used
                - 1,
            !satisfied ==> forall|i: int| 0 <= i < used ==> !outcomes@[i],
        decreases max - used + (if satisfied {
            0int
        } else {
            1int
        }),
    {
        let ob = outcomes[used as usize];
        proof {
            if ob {
                lemma_first_true_at_least(outcomes@, 0, used as int);
                lemma_first_true(outcomes@, 0);
            }
        }
        satisfied = ob;
        used = used + 1;
    }
    proof {
        if !satisfied {
            lemma_first_true_at_least(outcomes@, 0, max as int);
        }
    }
    (used, satisfied)
}

} // verus!
