//! The sequential acquisition loop: a cursor-driven state machine that
//! interprets one fetch outcome per index, and a driver that runs it
//! over a whole sequence of outcomes.

use vstd::prelude::*;
use crate::fetch::{FatalReason, FetchOutcome};

verus! {

/// What the loop does after one fetch outcome.
#[derive(Clone, Copy, Debug, PartialEq, Eq, Structural)]
pub enum Decision {
    /// The segment was saved: advance the cursor and keep scanning.
    Continue,
    /// The sequence ended normally: stop as a success.
    Stop,
    /// An unrecoverable condition: stop and surface the reason.
    Abort(FatalReason),
}

/// The scanning state: the next index to fetch and how many segments
/// were saved so far.
pub struct Acquisition {
    pub next_index: u32,
    pub saved_count: u32,
}

impl Acquisition {
    /// Start scanning at `start` with nothing saved.
    pub fn new(start: u32) -> (a: Acquisition)
        ensures
            a.next_index == start,
            a.saved_count == 0,
    {
        Acquisition { next_index: start, saved_count: 0 }
    }

    /// Apply one fetch outcome: a saved segment advances the cursor,
    /// an end-of-sequence signal stops the scan, a fatal condition
    /// aborts it.  The state changes only on a saved segment, so only
    /// a saved segment needs room left in the index space.
    pub fn on_outcome(&mut self, outcome: &FetchOutcome) -> (d: Decision)
        requires
            *outcome is Saved ==> old(self).next_index < u32::MAX && old(self).saved_count
                < u32::MAX,
        ensures
            match *outcome {
                FetchOutcome::Saved(_) => {
                    &&& d == Decision::Continue
                    &&& final(self).next_index == old(self).next_index + 1
                    &&& final(self).saved_count == old(self).saved_count + 1
                },
                FetchOutcome::EndOfSequence => {
                    &&& d == Decision::Stop
                    &&& final(self).next_index == old(self).next_index
                    &&& final(self).saved_count == old(self).saved_count
                },
                FetchOutcome::Fatal(reason) => {
                    &&& d == Decision::Abort(reason)
                    &&& final(self).next_index == old(self).next_index
                    &&& final(self).saved_count == old(self).saved_count
                },
            },
    {
        match outcome {
            FetchOutcome::Saved(_) => {
                self.next_index = self.next_index + 1;
                self.saved_count = self.saved_count + 1;
                Decision::Continue
            },
            FetchOutcome::EndOfSequence => Decision::Stop,
            FetchOutcome::Fatal(reason) => Decision::Abort(*reason),
        }
    }
}

/// The position of the first outcome that is not `Saved`, or the
/// length of the sequence if every outcome is `Saved`.
pub open spec fn terminal_pos(s: Seq<FetchOutcome>) -> int
    decreases s.len(),
{
    if s.len() == 0 {
        0
    } else if !(s[0] is Saved) {
        0
    } else {
        1 + terminal_pos(s.drop_first())
    }
}

/// `terminal_pos` is the first non-`Saved` position: everything before
/// it is `Saved`, and the outcome there (if any) is not.
pub proof fn lemma_terminal_pos(s: Seq<FetchOutcome>)
    ensures
        0 <= terminal_pos(s) <= s.len(),
        forall|j: int| 0 <= j < terminal_pos(s) ==> s[j] is Saved,
        terminal_pos(s) < s.len() ==> !(s[terminal_pos(s)] is Saved),
    decreases s.len(),
{
    if s.len() == 0 {
    } else if !(s[0] is Saved) {
    } else {
        lemma_terminal_pos(s.drop_first());
        assert forall|j: int| 0 <= j < terminal_pos(s) implies s[j] is Saved by {
            if j > 0 {
                assert(s.drop_first()[j - 1] == s[j]);
            }
        }
        if terminal_pos(s) < s.len() {
            assert(s.drop_first()[terminal_pos(s) - 1] == s[terminal_pos(s)]);
        }
    }
}

/// How an acquisition run ended.
#[derive(Clone, Copy, Debug, PartialEq, Eq, Structural)]
pub enum AcquireResult {
    /// The sequence ended normally after `count` saved segments.
    Complete { count: u32 },
    /// A fatal condition stopped the run after `count` saved segments.
    Failed { count: u32, reason: FatalReason },
}

/// What an acquisition run produced: the saved indices in the order
/// they were saved, and how the run ended.
#[derive(Debug)]
pub struct AcquireReport {
    pub saved: Vec<u32>,
    pub result: AcquireResult,
}

/// The full statement of what a run over `outcomes`, starting at index
/// `start`, must report: with `k` the position of the first outcome
/// that is not `Saved`, the saved indices are exactly `start .. start + k`
/// in order, and the result carries `k` as the count — a completion if
/// that outcome ends the sequence, a failure with its reason if it is
/// fatal.
pub open spec fn acquire_post(
    start: u32,
    outcomes: Seq<FetchOutcome>,
    saved: Seq<u32>,
    result: AcquireResult,
) -> bool {
    let k = terminal_pos(outcomes);
    &&& k < outcomes.len()
    &&& saved.len() == k
    &&& (forall|j: int| 0 <= j < k ==> saved[j] as int == start + j)
    &&& match result {
        AcquireResult::Complete { count } => {
            outcomes[k] is EndOfSequence && count == k
        },
        AcquireResult::Failed { count, reason } => {
            outcomes[k] == FetchOutcome::Fatal(reason) && count == k
        },
    }
}

/// Run the acquisition state machine over a given sequence of fetch
/// outcomes, one per index starting at `start`.  The sequence must
/// contain a terminal outcome (`EndOfSequence` or `Fatal`), as a real
/// server's does; the indices the run scans — `start` up to the first
/// terminal outcome — must fit the `u32` index space.
pub fn acquire_script(start: u32, outcomes: &Vec<FetchOutcome>) -> (r: AcquireReport)
    requires
        exists|i: int| 0 <= i < outcomes@.len() && !(outcomes@[i] is Saved),
        start + terminal_pos(outcomes@) <= u32::MAX,
    ensures
        acquire_post(start, outcomes@, r.saved@, r.result),
{
    proof {
        lemma_terminal_pos(outcomes@);
    }
    let ghost k = terminal_pos(outcomes@);
    proof {
        assert(k < outcomes@.len()) by {
            if k == outcomes@.len() {
                let t = choose|t: int| 0 <= t < outcomes@.len() && !(outcomes@[t] is Saved);
                assert(outcomes@[t] is Saved);
            }
        }
    }
    let mut st = Acquisition::new(start);
    let mut saved: Vec<u32> = Vec::new();
    let mut i: usize = 0;
    while i < outcomes.len()
        invariant
            k == terminal_pos(outcomes@),
            0 <= k < outcomes@.len(),
            start + k <= u32::MAX,
            forall|j: int| 0 <= j < k ==> outcomes@[j] is Saved,
            !(outcomes@[k] is Saved),
            i <= k,
            st.next_index == start + i,
            st.saved_count == i,
            saved@.len() == i,
            forall|j: int| 0 <= j < i ==> saved@[j] as int == start + j,
        decreases outcomes@.len() - i,
    {
        let outcome = outcomes[i];
        proof {
            if outcomes@[i as int] is Saved {
                assert(i < k) by {
                    if i == k {
                        assert(!(outcomes@[i as int] is Saved));
                    }
                }
            }
        }
        let d = st.on_outcome(&outcome);
        match d {
            Decision::Continue => {
                saved.push(st.next_index - 1);
                i = i + 1;
            },
            Decision::Stop => {
                proof {
                    assert(i == k) by {
                        if i < k {
                            assert(outcomes@[i as int] is Saved);
                        }
                    }
                }
                return AcquireReport {
                    saved,
                    result: AcquireResult::Complete { count: st.saved_count },
                };
            },
            Decision::Abort(reason) => {
                proof {
                    assert(i == k) by {
                        if i < k {
                            assert(outcomes@[i as int] is Saved);
                        }
                    }
                }
                return AcquireReport {
                    saved,
                    result: AcquireResult::Failed { count: st.saved_count, reason },
                };
            },
        }
    }
    proof {
        assert(i <= k < outcomes@.len());
    }
    vstd::pervasive::unreached()
}

/// Acquisition is deterministic: two runs over the same outcome
/// sequence, from the same starting index, report the same saved
/// indices and the same result.
pub proof fn lemma_acquire_deterministic(
    start: u32,
    outcomes: Seq<FetchOutcome>,
    saved1: Seq<u32>,
    result1: AcquireResult,
    saved2: Seq<u32>,
    result2: AcquireResult,
)
    requires
        acquire_post(start, outcomes, saved1, result1),
        acquire_post(start, outcomes, saved2, result2),
    ensures
        saved1 == saved2,
        result1 == result2,
{
    assert(saved1 =~= saved2);
    let k = terminal_pos(outcomes);
    match outcomes[k] {
        FetchOutcome::Saved(_) => {
            assert(false);
        },
        FetchOutcome::EndOfSequence => {
        },
        FetchOutcome::Fatal(_) => {
        },
    }
}

} // verus!
