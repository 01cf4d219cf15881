//! A fixed-capacity circular store of the most recently pushed values.

use vstd::prelude::*;

verus! {

use vstd::pervasive::VecAdditionalExecFns;

/// Circular store that retains the `S` most recently pushed values.
/// Pushing into a full buffer silently overwrites the oldest slot.
pub struct RingBuffer<T, const S: usize> {
    inner: Vec<T>,
    position: usize,
    pushes: Ghost<Seq<T>>,
}

impl<T, const S: usize> RingBuffer<T, S> {
    /// Every value ever pushed, oldest first.
    pub closed spec fn pushes(&self) -> Seq<T> {
        self.pushes@
    }

    /// The current slot contents, most recent first.  Slots that no push has
    /// reached yet still hold their initial values.
    pub closed spec fn ordered(&self) -> Seq<T> {
        Seq::new(
            S as nat,
            |i: int|
                if i <= self.position {
                    self.inner@[self.position - i]
                } else {
                    self.inner@[self.position + S - i]
                },
        )
    }

    /// Structural invariant: the most recent pushes, up to capacity, sit in
    /// the slots in most-recent-first order.
    pub closed spec fn wf(&self) -> bool {
        &&& S >= 1
        &&& self.inner@.len() == S
        &&& self.position < S
        &&& forall|i: int|
            0 <= i < self.pushes@.len() && i < S ==> self.ordered()[i] == self.pushes@[self.pushes@.len()
                - 1 - i]
    }

    /// A fresh buffer whose `S` slots hold default values.
    pub fn new() -> (rb: RingBuffer<T, S>) where T: Default
        requires
            S >= 1,
        ensures
            rb.wf(),
            rb.pushes() == Seq::<T>::empty(),
            forall|i: int|
                0 <= i < S ==> call_ensures(T::default, (), #[trigger] rb.ordered()[i]),
    {
        let mut inner: Vec<T> = Vec::new();
        let mut i: usize = 0;
        while i < S
            invariant
                i <= S,
                inner@.len() == i,
                forall|j: int| 0 <= j < i ==> call_ensures(T::default, (), #[trigger] inner@[j]),
            decreases S - i,
        {
            inner.push(T::default());
            i = i + 1;
        }
        let rb = RingBuffer { inner, position: 0, pushes: Ghost(Seq::empty()) };
        assert forall|k: int| 0 <= k < S implies call_ensures(
            T::default,
            (),
            #[trigger] rb.ordered()[k],
        ) by {
            assert(rb.ordered()[k] == if k <= 0 {
                rb.inner@[0 - k]
            } else {
                rb.inner@[0 + S - k]
            });
        }
        rb
    }

    /// Record `element` as the newest value, displacing the oldest slot.
    pub fn push(&mut self, element: T)
        requires
            old(self).wf(),
        ensures
            final(self).wf(),
            final(self).pushes() == old(self).pushes().push(element),
            final(self).ordered() =~= seq![element] + old(self).ordered().take(S - 1),
    {
        let ghost e = element;
        if self.position + 1 == S {
            self.position = 0;
        } else {
            self.position = self.position + 1;
        }
        self.inner.set(self.position, element);
        proof {
            self.pushes@ = self.pushes@.push(e);
        }
        proof {
            let p_old = old(self).position as int;
            let p_new = self.position as int;
            assert forall|i: int| 1 <= i < S implies self.ordered()[i] == old(self).ordered()[i
                - 1] by {
                if p_old + 1 == S {
                    assert(self.ordered()[i] == self.inner@[S - i]);
                    assert(old(self).ordered()[i - 1] == old(self).inner@[p_old - (i - 1)]);
                } else {
                    if i <= p_new {
                        assert(self.ordered()[i] == self.inner@[p_new - i]);
                    } else {
                        assert(self.ordered()[i] == self.inner@[p_new + S - i]);
                    }
                }
            }
            assert(self.ordered()[0] == e);
            let l = old(self).pushes@.len() as int;
            assert forall|i: int|
                0 <= i < self.pushes@.len() && i < S implies self.ordered()[i]
                == self.pushes@[self.pushes@.len() - 1 - i] by {
                if i >= 1 {
                    assert(self.ordered()[i] == old(self).ordered()[i - 1]);
                    assert(old(self).ordered()[i - 1] == old(self).pushes@[l - i]);
                }
            }
        }
    }

    /// References to the `n` most recent slot values, most recent first.
    /// Asking for more than the whole buffer is a caller bug, ruled out here.
    pub fn peek_last_n(&self, n: usize) -> (r: Vec<&T>)
        requires
            self.wf(),
            n <= S,
        ensures
            r@.len() == n,
            forall|i: int| 0 <= i < n ==> r@[i] == self.ordered()[i],
    {
        let mut peek_buf: Vec<&T> = Vec::new();
        let mut i: usize = 0;
        while i < n
            invariant
                self.wf(),
                n <= S,
                i <= n,
                peek_buf@.len() == i,
                forall|j: int| 0 <= j < i ==> peek_buf@[j] == self.ordered()[j],
            decreases n - i,
        {
            let idx = if self.position >= i {
                self.position - i
            } else {
                self.position + (S - i)
            };
            peek_buf.push(&self.inner[idx]);
            i = i + 1;
        }
        peek_buf
    }
}

/// The buffer always exposes exactly `S` slots.
pub proof fn lemma_ordered_len<T, const S: usize>(rb: &RingBuffer<T, S>)
    requires
        rb.wf(),
    ensures
        rb.ordered().len() == S,
{
}

/// Whatever has been pushed, slot `i` holds the `i`-th most recent push,
/// for as many slots as pushes exist.
pub proof fn lemma_retained_are_latest<T, const S: usize>(rb: &RingBuffer<T, S>)
    requires
        rb.wf(),
    ensures
        forall|i: int|
            0 <= i < rb.pushes().len() && i < S ==> #[trigger] rb.ordered()[i]
                == rb.pushes()[rb.pushes().len() - 1 - i],
{
}

/// Once at least `S` values have been pushed, the retained slots are exactly
/// the final `S` pushed values, most recent first.
pub proof fn lemma_full_buffer_keeps_latest<T, const S: usize>(rb: &RingBuffer<T, S>)
    requires
        rb.wf(),
        rb.pushes().len() >= S,
    ensures
        forall|i: int|
            0 <= i < S ==> #[trigger] rb.ordered()[i] == rb.pushes()[rb.pushes().len() - 1 - i],
{
}

/// Before the buffer first fills up, the `k` most recent slots are exactly
/// the `k` most recent of the values pushed so far, most recent first.
pub proof fn lemma_partial_buffer_keeps_pushed<T, const S: usize>(rb: &RingBuffer<T, S>, k: int)
    requires
        rb.wf(),
        rb.pushes().len() < S,
        0 <= k <= rb.pushes().len(),
    ensures
        forall|i: int|
            0 <= i < k ==> #[trigger] rb.ordered()[i] == rb.pushes()[rb.pushes().len() - 1 - i],
{
}

} // verus!
