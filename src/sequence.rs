//! Building a sequence of expectations, and dispatching messages against it.
use vstd::prelude::*;
use crate::model::{DispatchError, verdict, next_cursor};

verus! {

/// A delivered message whose concrete type travels as a tag: `kind` names the
/// message's type and `payload` carries the message itself.
pub struct Envelope<P> {
    pub kind: u64,
    pub payload: P,
}

/// An ordered list of expectations under construction. Each expectation pairs
/// the kind of message expected at its position with the callback that
/// computes the reply. Entries are only ever appended.
pub struct MockActorSequence<F> {
    kinds: Vec<u64>,
    callbacks: Vec<Option<F>>,
}

impl<F> MockActorSequence<F> {
    /// The expected kinds, in order.
    pub closed spec fn kinds(&self) -> Seq<u64> {
        self.kinds@
    }

    /// The callbacks, in order.
    pub closed spec fn callbacks(&self) -> Seq<F> {
        Seq::new(self.callbacks@.len(), |i: int| self.callbacks@[i].unwrap())
    }

    /// Every expected kind has exactly one stored callback.
    pub closed spec fn inv(&self) -> bool {
        &&& self.callbacks@.len() == self.kinds@.len()
        &&& forall|i: int| 0 <= i < self.callbacks@.len() ==> (#[trigger] self.callbacks@[i]) is Some
    }

    /// The sequence is consistent and each callback accepts every message.
    pub open spec fn wf<P, R>(&self) -> bool where F: FnOnce(P) -> R {
        &&& self.inv()
        &&& forall|i: int, p: P|
            0 <= i < self.callbacks().len() ==> #[trigger] call_requires(self.callbacks()[i], (p,))
    }

    /// An empty sequence.
    pub fn new() -> (r: Self)
        ensures
            r.inv(),
            r.kinds() == Seq::<u64>::empty(),
            r.callbacks().len() == 0,
    {
        MockActorSequence { kinds: Vec::new(), callbacks: Vec::new() }
    }

    /// Appends an expectation: the next message must be of `kind`, and `cb`
    /// computes its reply.
    pub fn msg<P, R>(self, kind: u64, cb: F) -> (r: Self)
        where F: FnOnce(P) -> R,
        requires
            self.wf::<P, R>(),
            forall|p: P| call_requires(cb, (p,)),
        ensures
            r.wf::<P, R>(),
            r.kinds() == self.kinds().push(kind),
            r.callbacks() == self.callbacks().push(cb),
    {
        let mut s = self;
        s.kinds.push(kind);
        s.callbacks.push(Some(cb));
        assert(s.callbacks() =~= self.callbacks().push(cb));
        s
    }

    /// Finalizes the sequence into a dispatcher whose cursor stands at the
    /// first expectation. No expectation can be added afterwards.
    pub fn build<P, R>(self) -> (d: SequenceDispatcher<F>)
        where F: FnOnce(P) -> R,
        requires
            self.wf::<P, R>(),
        ensures
            d.wf::<P, R>(),
            d.kinds() == self.kinds(),
            d.cursor() == 0,
            d.slots().len() == self.callbacks().len(),
            forall|i: int| 0 <= i < self.callbacks().len() ==> #[trigger] d.slots()[i] == Some(self.callbacks()[i]),
    {
        let d = SequenceDispatcher { kinds: self.kinds, callbacks: self.callbacks, current: 0 };
        assert forall|i: int| 0 <= i < self.callbacks().len() implies #[trigger] d.slots()[i] == Some(self.callbacks()[i]) by {
            assert(self.callbacks@[i] is Some);
        }
        d
    }
}

/// Resolves delivered messages, one at a time, against a fixed sequence of
/// expectations. The cursor names the next expectation to match; each
/// callback is consumed when its expectation matches.
pub struct SequenceDispatcher<F> {
    kinds: Vec<u64>,
    callbacks: Vec<Option<F>>,
    current: usize,
}

impl<F> SequenceDispatcher<F> {
    /// The expected kinds, in order.
    pub closed spec fn kinds(&self) -> Seq<u64> {
        self.kinds@
    }

    /// The callbacks not yet consumed, by position.
    pub closed spec fn slots(&self) -> Seq<Option<F>> {
        self.callbacks@
    }

    /// The position of the next expectation to match.
    pub closed spec fn cursor(&self) -> nat {
        self.current as nat
    }

    /// Exactly the expectations before the cursor have been consumed, and the
    /// callbacks left accept every message.
    pub open spec fn wf<P, R>(&self) -> bool where F: FnOnce(P) -> R {
        &&& self.slots().len() == self.kinds().len()
        &&& self.cursor() <= self.kinds().len()
        &&& forall|i: int| 0 <= i < self.slots().len() ==> ((#[trigger] self.slots()[i]) is Some <==> i >= self.cursor())
        &&& forall|i: int, p: P|
            self.cursor() <= i < self.slots().len() ==> #[trigger] call_requires(self.slots()[i].unwrap(), (p,))
    }

    /// The number of expectations.
    pub fn len(&self) -> (n: usize)
        ensures
            n == self.kinds().len(),
    {
        self.kinds.len()
    }

    /// The position of the next expectation to match.
    pub fn current(&self) -> (c: usize)
        ensures
            c == self.cursor(),
    {
        self.current
    }

    /// Resolves one message against the expectation at the cursor.
    ///
    /// With the cursor past the last expectation the result is
    /// `SequenceExhausted`. With a message of another kind than expected there
    /// the result is `TypeMismatch`, and the expectation stays in place. In
    /// both cases nothing changes. Otherwise the expectation's callback is
    /// consumed and applied to the payload, and the cursor moves on by one.
    pub fn dispatch<P, R>(&mut self, msg: Envelope<P>) -> (r: Result<R, DispatchError>)
        where F: FnOnce(P) -> R,
        requires
            old(self).wf::<P, R>(),
        ensures
            final(self).wf::<P, R>(),
            final(self).kinds() == old(self).kinds(),
            final(self).cursor() == next_cursor(old(self).kinds(), old(self).cursor(), msg.kind),
            match r {
                Ok(v) => {
                    &&& verdict(old(self).kinds(), old(self).cursor(), msg.kind) == Ok::<nat, DispatchError>(old(self).cursor())
                    &&& call_ensures(old(self).slots()[old(self).cursor() as int].unwrap(), (msg.payload,), v)
                    &&& final(self).slots() == old(self).slots().update(old(self).cursor() as int, None)
                },
                Err(e) => {
                    &&& verdict(old(self).kinds(), old(self).cursor(), msg.kind) == Err::<nat, DispatchError>(e)
                    &&& final(self).slots() == old(self).slots()
                },
            },
    {
        let i = self.current;
        if i >= self.callbacks.len() {
            return Err(DispatchError::SequenceExhausted);
        }
        if self.kinds[i] != msg.kind {
            return Err(DispatchError::TypeMismatch);
        }
        let mut slot: Option<F> = None;
        self.callbacks.set_and_swap(i, &mut slot);
        self.current = i + 1;
        let cb = slot.unwrap();
        Ok(cb(msg.payload))
    }
}

} // verus!
