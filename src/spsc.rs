//! A fixed-size ring buffer of `Copy` items for one writer and one reader,
//! used as a raw accumulation region. Writes never block: when the ring is
//! full the oldest items are overwritten, so it keeps the newest `N - 1`.
use vstd::prelude::*;

verus! {

/// The last `k` items of `s` (all of `s` when it is shorter).
pub open spec fn keep_last<T>(s: Seq<T>, k: nat) -> Seq<T> {
    if s.len() <= k {
        s
    } else {
        s.subrange(s.len() - k, s.len() as int)
    }
}

pub struct SpscQueue<T, const N: usize> {
    data: Vec<T>,
    write: usize,
    read: usize,
}

impl<T: Copy, const N: usize> View for SpscQueue<T, N> {
    type V = Seq<T>;

    /// The stored items, oldest first.
    closed spec fn view(&self) -> Seq<T> {
        Seq::new(self.count(), |i: int| self.data@[self.slot(i)])
    }
}

proof fn lemma_keep_last_push<T>(s: Seq<T>, x: T, k: nat)
    ensures
        keep_last(s.push(x), k) == keep_last(keep_last(s, k).push(x), k),
{
    assert(keep_last(s.push(x), k) =~= keep_last(keep_last(s, k).push(x), k));
}

impl<T: Copy, const N: usize> SpscQueue<T, N> {
    /// Items the ring can hold at once.
    pub open spec fn capacity() -> nat {
        (N - 1) as nat
    }

    pub closed spec fn wf(&self) -> bool {
        &&& N >= 1
        &&& self.data@.len() == N
        &&& self.write < N
        &&& self.read < N
    }

    closed spec fn count(&self) -> nat {
        if self.write >= self.read {
            (self.write - self.read) as nat
        } else {
            (self.write + N - self.read) as nat
        }
    }

    closed spec fn slot(&self, i: int) -> int {
        if self.read + i < N {
            self.read + i
        } else {
            self.read + i - N
        }
    }

    /// A ring over the slots of `buf`, holding nothing.
    pub fn new(buf: [T; N]) -> (r: Self)
        requires
            N >= 1,
        ensures
            r.wf(),
            r@ == Seq::<T>::empty(),
    {
        let mut data: Vec<T> = Vec::new();
        let mut i: usize = 0;
        while i < N
            invariant
                i <= N,
                data@.len() == i,
            decreases N - i,
        {
            data.push(buf[i]);
            i = i + 1;
        }
        let r = SpscQueue { data, write: 0, read: 0 };
        assert(r@ =~= Seq::<T>::empty());
        r
    }

    /// Number of slots.
    pub fn len() -> (r: usize)
        ensures
            r == N,
    {
        N
    }

    /// Number of items waiting to be read.
    pub fn available_to_read(&self) -> (r: usize)
        requires
            self.wf(),
        ensures
            r == self@.len(),
    {
        if self.write >= self.read {
            self.write - self.read
        } else {
            self.write + (N - self.read)
        }
    }

    fn push_overwrite(&mut self, x: T)
        requires
            old(self).wf(),
        ensures
            final(self).wf(),
            final(self)@ == keep_last(old(self)@.push(x), Self::capacity()),
    {
        let ghost before = self@;
        let next = if self.write == N - 1 {
            0
        } else {
            self.write + 1
        };
        if next == self.read {
            self.read = if self.read == N - 1 {
                0
            } else {
                self.read + 1
            };
        }
        let ghost mid = self@;
        self.data.set(self.write, x);
        self.write = next;
        proof {
            if before.len() == Self::capacity() {
                if Self::capacity() > 0 {
                    assert(mid =~= before.drop_first());
                    assert(self@ =~= before.drop_first().push(x));
                    assert(keep_last(before.push(x), Self::capacity()) =~= before.drop_first().push(x));
                } else {
                    assert(self@ =~= Seq::<T>::empty());
                    assert(keep_last(before.push(x), Self::capacity()) =~= Seq::<T>::empty());
                }
            } else {
                assert(self@ =~= before.push(x));
            }
        }
    }

    /// Appends all of `buf` and returns how many items were written (all
    /// of them). Where they do not fit, the oldest items are overwritten.
    pub fn write(&mut self, buf: &[T]) -> (r: usize)
        requires
            old(self).wf(),
        ensures
            final(self).wf(),
            r == buf@.len(),
            final(self)@ == keep_last(old(self)@ + buf@, Self::capacity()),
    {
        let mut i: usize = 0;
        assert(old(self)@ + buf@.subrange(0, 0) =~= old(self)@);
        while i < buf.len()
            invariant
                self.wf(),
                i <= buf@.len(),
                self@ == keep_last(old(self)@ + buf@.subrange(0, i as int), Self::capacity()),
            decreases buf@.len() - i,
        {
            let ghost s = old(self)@ + buf@.subrange(0, i as int);
            self.push_overwrite(buf[i]);
            i = i + 1;
            proof {
                lemma_keep_last_push(s, buf@[i - 1], Self::capacity());
                assert(s.push(buf@[i - 1]) =~= old(self)@ + buf@.subrange(0, i as int));
            }
        }
        assert(buf@.subrange(0, i as int) =~= buf@);
        i
    }

    /// Moves the oldest items into the front of `buf`, as many as are
    /// stored or as fit, and returns how many.
    pub fn read(&mut self, buf: &mut [T]) -> (r: usize)
        requires
            old(self).wf(),
        ensures
            final(self).wf(),
            r == if old(self)@.len() < old(buf)@.len() {
                old(self)@.len()
            } else {
                old(buf)@.len() as nat
            },
            final(buf)@ == old(self)@.subrange(0, r as int) + old(buf)@.subrange(
                r as int,
                old(buf)@.len() as int,
            ),
            final(self)@ == old(self)@.subrange(r as int, old(self)@.len() as int),
    {
        let avail = self.available_to_read();
        let n = if avail < buf.len() {
            avail
        } else {
            buf.len()
        };
        let mut i: usize = 0;
        while i < n
            invariant
                self.wf(),
                n <= old(self)@.len(),
                n <= buf@.len(),
                i <= n,
                buf@.len() == old(buf)@.len(),
                self@ == old(self)@.subrange(i as int, old(self)@.len() as int),
                forall|k: int| 0 <= k < i ==> buf@[k] == old(self)@[k],
                forall|k: int| i <= k < buf@.len() ==> buf@[k] == old(buf)@[k],
            decreases n - i,
        {
            let ghost before = self@;
            assert(before.len() > 0);
            assert(self.slot(0) == self.read);
            assert(before[0] == old(self)@[i as int]);
            assert(self.data@[self.read as int] == before[0]);
            buf[i] = self.data[self.read];
            self.read = if self.read == N - 1 {
                0
            } else {
                self.read + 1
            };
            i = i + 1;
            assert(self@ =~= before.drop_first());
            assert(self@ =~= old(self)@.subrange(i as int, old(self)@.len() as int));
        }
        assert(buf@ =~= old(self)@.subrange(0, n as int) + old(buf)@.subrange(n as int, old(buf)@.len() as int));
        n
    }
}

} // verus!
