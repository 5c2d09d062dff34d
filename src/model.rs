//! The abstract behaviour of a dispatcher: which expectation a delivered
//! message resolves against, and how the cursor moves.
use vstd::prelude::*;

verus! {

/// Why a message could not be matched against the expected sequence.
#[derive(Clone, Copy, Debug, PartialEq, Eq, Structural)]
pub enum DispatchError {
    /// The message's kind differs from the kind expected at the cursor.
    TypeMismatch,
    /// Every declared expectation has already been matched.
    SequenceExhausted,
}

/// The outcome of delivering a message of `kind` while the cursor stands at
/// `cursor`: the position whose callback runs, or the error reported.
/// A mismatch does not consume the expectation at the cursor.
pub open spec fn verdict(kinds: Seq<u64>, cursor: nat, kind: u64) -> Result<nat, DispatchError> {
    if cursor >= kinds.len() {
        Err(DispatchError::SequenceExhausted)
    } else if kinds[cursor as int] != kind {
        Err(DispatchError::TypeMismatch)
    } else {
        Ok(cursor)
    }
}

/// The cursor after one delivery: one further on a match, unchanged otherwise.
pub open spec fn next_cursor(kinds: Seq<u64>, cursor: nat, kind: u64) -> nat {
    match verdict(kinds, cursor, kind) {
        Ok(i) => i + 1,
        Err(_) => cursor,
    }
}

/// The cursor after delivering messages of the kinds `msgs`, in order,
/// starting from `cursor`.
pub open spec fn cursor_after(kinds: Seq<u64>, cursor: nat, msgs: Seq<u64>) -> nat
    decreases msgs.len(),
{
    if msgs.len() == 0 {
        cursor
    } else {
        next_cursor(kinds, cursor_after(kinds, cursor, msgs.drop_last()), msgs.last())
    }
}

/// The outcome of the `k`-th delivery (counting from zero) of the stream
/// `msgs` to a dispatcher freshly built from `kinds`.
pub open spec fn outcome_at(kinds: Seq<u64>, msgs: Seq<u64>, k: int) -> Result<nat, DispatchError>
    recommends
        0 <= k < msgs.len(),
{
    verdict(kinds, cursor_after(kinds, 0, msgs.take(k)), msgs[k])
}

/// One more delivery moves the cursor by one step of the transition.
proof fn lemma_step(kinds: Seq<u64>, msgs: Seq<u64>, k: int)
    requires
        0 <= k < msgs.len(),
    ensures
        cursor_after(kinds, 0, msgs.take(k + 1)) == next_cursor(
            kinds,
            cursor_after(kinds, 0, msgs.take(k)),
            msgs[k],
        ),
{
    assert(msgs.take(k + 1).drop_last() =~= msgs.take(k));
    assert(msgs.take(k + 1).last() == msgs[k]);
}

/// The cursor never moves back over a stream of deliveries.
proof fn lemma_cursor_nondecreasing(kinds: Seq<u64>, msgs: Seq<u64>, j: int, k: int)
    requires
        0 <= j <= k <= msgs.len(),
    ensures
        cursor_after(kinds, 0, msgs.take(j)) <= cursor_after(kinds, 0, msgs.take(k)),
    decreases k - j,
{
    if j < k {
        lemma_cursor_nondecreasing(kinds, msgs, j, k - 1);
        lemma_step(kinds, msgs, k - 1);
    }
}

/// Failed deliveries leave the cursor where it was.
proof fn lemma_cursor_flat(kinds: Seq<u64>, msgs: Seq<u64>, j: int, k: int)
    requires
        0 <= j <= k <= msgs.len(),
        forall|i: int| j <= i < k ==> (#[trigger] outcome_at(kinds, msgs, i)) is Err,
    ensures
        cursor_after(kinds, 0, msgs.take(j)) == cursor_after(kinds, 0, msgs.take(k)),
    decreases k - j,
{
    if j < k {
        lemma_cursor_flat(kinds, msgs, j, k - 1);
        lemma_step(kinds, msgs, k - 1);
        assert(outcome_at(kinds, msgs, k - 1) is Err);
    }
}

/// While every delivery so far has matched, the cursor counts the deliveries.
proof fn lemma_cursor_counts_matches(kinds: Seq<u64>, msgs: Seq<u64>, k: int)
    requires
        0 <= k <= msgs.len(),
        forall|i: int| 0 <= i < k ==> (#[trigger] outcome_at(kinds, msgs, i)) is Ok,
    ensures
        cursor_after(kinds, 0, msgs.take(k)) == k,
    decreases k,
{
    if k > 0 {
        lemma_cursor_counts_matches(kinds, msgs, k - 1);
        lemma_step(kinds, msgs, k - 1);
        assert(outcome_at(kinds, msgs, k - 1) is Ok);
    } else {
        assert(msgs.take(0).len() == 0);
    }
}

/// Delivering messages whose kinds are exactly the declared kinds, in the
/// declared order, matches the `k`-th delivery against the `k`-th expectation
/// for every `k`, so each reply is computed by that expectation's callback.
pub proof fn lemma_order(kinds: Seq<u64>, msgs: Seq<u64>)
    requires
        msgs == kinds,
    ensures
        forall|k: int| 0 <= k < msgs.len() ==> #[trigger] outcome_at(kinds, msgs, k) == Ok::<nat, DispatchError>(k as nat),
        cursor_after(kinds, 0, msgs) == kinds.len(),
{
    assert forall|k: int| 0 <= k < msgs.len() implies #[trigger] outcome_at(kinds, msgs, k) == Ok::<nat, DispatchError>(k as nat) by {
        lemma_order_prefix(kinds, msgs, k);
    }
    lemma_cursor_counts_matches(kinds, msgs, msgs.len() as int);
    assert(msgs.take(msgs.len() as int) =~= msgs);
}

proof fn lemma_order_prefix(kinds: Seq<u64>, msgs: Seq<u64>, k: int)
    requires
        msgs == kinds,
        0 <= k < msgs.len(),
    ensures
        outcome_at(kinds, msgs, k) == Ok::<nat, DispatchError>(k as nat),
    decreases k,
{
    assert forall|i: int| 0 <= i < k implies (#[trigger] outcome_at(kinds, msgs, i)) is Ok by {
        lemma_order_prefix(kinds, msgs, i);
    }
    lemma_cursor_counts_matches(kinds, msgs, k);
}

/// Once as many deliveries as there are expectations have all matched, any
/// further message, of whatever kind, is refused with `SequenceExhausted`.
pub proof fn lemma_exhaustion(kinds: Seq<u64>, msgs: Seq<u64>, kind: u64)
    requires
        msgs.len() == kinds.len(),
        forall|k: int| 0 <= k < msgs.len() ==> (#[trigger] outcome_at(kinds, msgs, k)) is Ok,
    ensures
        verdict(kinds, cursor_after(kinds, 0, msgs), kind) == Err::<nat, DispatchError>(
            DispatchError::SequenceExhausted,
        ),
{
    lemma_cursor_counts_matches(kinds, msgs, msgs.len() as int);
    assert(msgs.take(msgs.len() as int) =~= msgs);
}

/// A message whose kind differs from the kind expected at the cursor is
/// refused with `TypeMismatch` and consumes no expectation: the cursor stays,
/// so the expectation's callback is not run.
pub proof fn lemma_mismatch(kinds: Seq<u64>, cursor: nat, kind: u64)
    requires
        cursor < kinds.len(),
        kinds[cursor as int] != kind,
    ensures
        verdict(kinds, cursor, kind) == Err::<nat, DispatchError>(DispatchError::TypeMismatch),
        next_cursor(kinds, cursor, kind) == cursor,
{
}

/// Over any stream of deliveries, two successful deliveries resolve against
/// different expectations, the later one further on: no callback runs twice.
pub proof fn lemma_no_double_invocation(kinds: Seq<u64>, msgs: Seq<u64>, j: int, k: int)
    requires
        0 <= j < k < msgs.len(),
        outcome_at(kinds, msgs, j) is Ok,
        outcome_at(kinds, msgs, k) is Ok,
    ensures
        outcome_at(kinds, msgs, j)->Ok_0 < outcome_at(kinds, msgs, k)->Ok_0,
{
    lemma_step(kinds, msgs, j);
    lemma_cursor_nondecreasing(kinds, msgs, j + 1, k);
}

/// Between two successive successful deliveries the cursor moves on by
/// exactly one.
pub proof fn lemma_cursor_monotonic(kinds: Seq<u64>, msgs: Seq<u64>, j: int, k: int)
    requires
        0 <= j < k < msgs.len(),
        outcome_at(kinds, msgs, j) is Ok,
        outcome_at(kinds, msgs, k) is Ok,
        forall|i: int| j < i < k ==> (#[trigger] outcome_at(kinds, msgs, i)) is Err,
    ensures
        outcome_at(kinds, msgs, k)->Ok_0 == outcome_at(kinds, msgs, j)->Ok_0 + 1,
{
    lemma_step(kinds, msgs, j);
    lemma_cursor_flat(kinds, msgs, j + 1, k);
}

} // verus!
