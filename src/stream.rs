use vstd::prelude::*;

verus! {

/// A handle on a sequence of items that is either produced already by `S` or
/// still waiting on a computation `F` that will yield such a producer.
///
/// Once the computation completes, the handle puts the producer in its own
/// place and from then on forwards the producer's answers unchanged.
#[derive(Debug, PartialEq, Eq)]
pub enum FutureStream<F, S> {
    /// A computation that will yield the producer.
    Future(F),
    /// The producer of the items.
    Stream(S),
}

/// The answer of one turn of a sequence.
#[derive(Debug, PartialEq, Eq)]
pub enum Next<T> {
    /// The next item.
    Item(T),
    /// The sequence is exhausted.
    Done,
    /// Nothing yet: poll again.
    NotYet,
}

/// What the driver of a [`FutureStream`] observed in one turn: the answer of
/// one poll of whichever the handle holds.
#[derive(Debug, PartialEq, Eq)]
pub enum StreamEvent<S, T> {
    /// One poll of the computation: `None` while it is not complete, else the
    /// producer it yielded.
    Computed(Option<S>),
    /// One poll of the producer: its answer.
    Produced(Next<T>),
}

/// The outcome of one turn: the answer to hand out, and whether the caller
/// must be woken to poll again at once.
#[derive(Debug, PartialEq, Eq)]
pub struct Turn<T> {
    pub answer: Next<T>,
    pub wake: bool,
}

impl<F, S> FutureStream<F, S> {
    /// The event observed is a poll of what the handle holds.
    pub open spec fn fits<T>(self, ev: StreamEvent<S, T>) -> bool {
        match (self, ev) {
            (FutureStream::Future(_), StreamEvent::Computed(_)) => true,
            (FutureStream::Stream(_), StreamEvent::Produced(_)) => true,
            _ => false,
        }
    }

    /// The handle after a turn that observed `ev`.
    pub open spec fn step<T>(self, ev: StreamEvent<S, T>) -> Self {
        match ev {
            StreamEvent::Computed(Some(s)) => FutureStream::Stream(s),
            _ => self,
        }
    }

    /// The outcome of a turn that observed `ev`.
    pub open spec fn turn<T>(self, ev: StreamEvent<S, T>) -> Turn<T> {
        match ev {
            StreamEvent::Computed(Some(_)) => Turn { answer: Next::NotYet, wake: true },
            StreamEvent::Computed(None) => Turn { answer: Next::NotYet, wake: false },
            StreamEvent::Produced(n) => Turn { answer: n, wake: false },
        }
    }

    /// The outcomes of successive turns that observe `evs`.
    pub open spec fn run<T>(self, evs: Seq<StreamEvent<S, T>>) -> Seq<Turn<T>>
        decreases evs.len(),
    {
        if evs.len() == 0 {
            Seq::empty()
        } else {
            seq![self.turn(evs[0])] + self.step(evs[0]).run(evs.drop_first())
        }
    }

    /// Every event of `evs` is a poll of what the handle holds at its turn.
    pub open spec fn fits_all<T>(self, evs: Seq<StreamEvent<S, T>>) -> bool
        decreases evs.len(),
    {
        evs.len() == 0 || (self.fits(evs[0]) && self.step(evs[0]).fits_all(evs.drop_first()))
    }

    pub fn future(future: F) -> (r: Self)
        ensures
            r == FutureStream::<F, S>::Future(future),
    {
        FutureStream::Future(future)
    }

    pub fn stream(stream: S) -> (r: Self)
        ensures
            r == FutureStream::<F, S>::Stream(stream),
    {
        FutureStream::Stream(stream)
    }

    pub fn is_ready(&self) -> (r: bool)
        ensures
            r == (*self is Stream),
    {
        match self {
            FutureStream::Future(_) => false,
            FutureStream::Stream(_) => true,
        }
    }

    /// Ends one turn, given what one poll of the held computation or producer
    /// gave. A producer's answer is forwarded. A computation that is not
    /// complete gives `NotYet`; one that completed has its producer take the
    /// handle's place, and the turn gives `NotYet` and asks for a wake so that
    /// the next turn reaches the producer.
    pub fn poll_turn<T>(&mut self, ev: StreamEvent<S, T>) -> (t: Turn<T>)
        requires
            old(self).fits(ev),
        ensures
            *final(self) == old(self).step(ev),
            t == old(self).turn(ev),
    {
        match ev {
            StreamEvent::Computed(Some(s)) => {
                *self = FutureStream::Stream(s);
                Turn { answer: Next::NotYet, wake: true }
            },
            StreamEvent::Computed(None) => Turn { answer: Next::NotYet, wake: false },
            StreamEvent::Produced(n) => Turn { answer: n, wake: false },
        }
    }
}

/// A handle that holds a producer forwards every answer of the producer, in
/// order, and never wakes its caller.
pub proof fn lemma_ready_forwards<F, S, T>(s: S, evs: Seq<StreamEvent<S, T>>)
    requires
        forall|i: int| 0 <= i < evs.len() ==> evs[i] is Produced,
    ensures
        FutureStream::<F, S>::Stream(s).fits_all(evs),
        FutureStream::<F, S>::Stream(s).run(evs).len() == evs.len(),
        forall|i: int|
            0 <= i < evs.len() ==> FutureStream::<F, S>::Stream(s).run(evs)[i] == (Turn {
                answer: evs[i]->Produced_0,
                wake: false,
            }),
    decreases evs.len(),
{
    if evs.len() > 0 {
        let rest = evs.drop_first();
        lemma_ready_forwards::<F, S, T>(s, rest);
        let h = FutureStream::<F, S>::Stream(s);
        assert(h.step(evs[0]) == h);
        assert forall|i: int| 0 <= i < evs.len() implies h.run(evs)[i] == (Turn {
            answer: evs[i]->Produced_0,
            wake: false,
        }) by {
            if i > 0 {
                assert(evs[i] == rest[i - 1]);
            }
        }
    }
}

/// A handle made from a producer of `items` yields each item in order, then
/// exhaustion on every later turn.
pub proof fn lemma_ready_items<F, S, T>(s: S, items: Seq<T>, extra: nat)
    ensures
        ({
            let evs = Seq::new(
                items.len() + extra,
                |i: int|
                    if i < items.len() {
                        StreamEvent::<S, T>::Produced(Next::Item(items[i]))
                    } else {
                        StreamEvent::<S, T>::Produced(Next::Done)
                    },
            );
            let turns = FutureStream::<F, S>::Stream(s).run(evs);
            &&& FutureStream::<F, S>::Stream(s).fits_all(evs)
            &&& turns.len() == items.len() + extra
            &&& forall|i: int| 0 <= i < items.len() ==> turns[i].answer == Next::Item(items[i])
            &&& forall|i: int|
                items.len() <= i < items.len() + extra ==> turns[i].answer == Next::<T>::Done
        }),
{
    let evs = Seq::new(
        items.len() + extra,
        |i: int|
            if i < items.len() {
                StreamEvent::<S, T>::Produced(Next::Item(items[i]))
            } else {
                StreamEvent::<S, T>::Produced(Next::Done)
            },
    );
    lemma_ready_forwards::<F, S, T>(s, evs);
}

/// A handle made from a computation that completes on its poll number `k`
/// (counting from zero) answers `NotYet` on turns `0..=k`, never exhaustion;
/// it asks for a wake on turn `k` alone, and from turn `k + 1` on forwards the
/// answers of the producer that the computation yielded, in order.
pub proof fn lemma_pending_then_ready<F, S, T>(
    f: F,
    s: S,
    k: nat,
    produced: Seq<Next<T>>,
)
    ensures
        ({
            let evs = Seq::new(
                k + 1 + produced.len(),
                |i: int|
                    if i < k {
                        StreamEvent::<S, T>::Computed(None)
                    } else if i == k {
                        StreamEvent::<S, T>::Computed(Some(s))
                    } else {
                        StreamEvent::<S, T>::Produced(produced[i - k - 1])
                    },
            );
            let turns = FutureStream::<F, S>::Future(f).run(evs);
            &&& FutureStream::<F, S>::Future(f).fits_all(evs)
            &&& turns.len() == evs.len()
            &&& forall|i: int| 0 <= i <= k ==> turns[i].answer == Next::<T>::NotYet
            &&& forall|i: int| 0 <= i < evs.len() ==> (turns[i].wake <==> i == k)
            &&& forall|i: int|
                0 <= i < produced.len() ==> turns[k + 1 + i].answer == produced[i]
        }),
    decreases k,
{
    let evs = Seq::new(
        k + 1 + produced.len(),
        |i: int|
            if i < k {
                StreamEvent::<S, T>::Computed(None)
            } else if i == k {
                StreamEvent::<S, T>::Computed(Some(s))
            } else {
                StreamEvent::<S, T>::Produced(produced[i - k - 1])
            },
    );
    let h = FutureStream::<F, S>::Future(f);
    let rest = evs.drop_first();
    if k == 0 {
        let tail = Seq::new(produced.len(), |i: int| StreamEvent::<S, T>::Produced(produced[i]));
        assert(rest =~= tail);
        lemma_ready_forwards::<F, S, T>(s, tail);
        let turns = h.run(evs);
        assert forall|i: int| 0 <= i < evs.len() implies (turns[i].wake <==> i == k) by {
            if i > 0 {
                assert(turns[i] == FutureStream::<F, S>::Stream(s).run(tail)[i - 1]);
            }
        }
        assert forall|i: int| 0 <= i < produced.len() implies turns[k + 1 + i].answer
            == produced[i] by {
            assert(turns[k + 1 + i] == FutureStream::<F, S>::Stream(s).run(tail)[i]);
        }
    } else {
        lemma_pending_then_ready::<F, S, T>(f, s, (k - 1) as nat, produced);
        let evs1 = Seq::new(
            (k - 1) as nat + 1 + produced.len(),
            |i: int|
                if i < k - 1 {
                    StreamEvent::<S, T>::Computed(None)
                } else if i == k - 1 {
                    StreamEvent::<S, T>::Computed(Some(s))
                } else {
                    StreamEvent::<S, T>::Produced(produced[i - (k - 1) - 1])
                },
        );
        assert(rest =~= evs1);
        assert(h.step(evs[0]) == h);
        let turns = h.run(evs);
        let turns1 = h.run(evs1);
        assert forall|i: int| 0 < i < evs.len() implies turns[i] == turns1[i - 1] by {}
        assert forall|i: int| 0 <= i <= k implies turns[i].answer == Next::<T>::NotYet by {
            if i > 0 {
                assert(turns[i] == turns1[i - 1]);
            }
        }
        assert forall|i: int| 0 <= i < evs.len() implies (turns[i].wake <==> i == k) by {
            if i > 0 {
                assert(turns[i] == turns1[i - 1]);
            }
        }
        assert forall|i: int| 0 <= i < produced.len() implies turns[k + 1 + i].answer
            == produced[i] by {
            assert(turns[k + 1 + i] == turns1[(k - 1) + 1 + i]);
        }
    }
}

} // verus!
