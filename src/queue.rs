//! Fixed-capacity single-producer / single-consumer command queue.
//!
//! A circular buffer of `N` slots with a write index and a read index. One
//! slot is always left free to tell a full queue from an empty one: the
//! queue is empty when `write == read` and full when `(write + 1) % N == read`,
//! so it holds at most `N - 1` commands.
use vstd::prelude::*;
use crate::codec::Command;

verus! {

/// A push was refused because the queue was full.
#[derive(Clone, Copy, Debug, PartialEq, Eq, Structural)]
pub struct QueueFull;

pub struct CommandQueue<const N: usize> {
    elements: Vec<Command>,
    write: usize,
    read: usize,
}

/// The index after `i` in a ring of `n` slots.
pub open spec fn ring_next(i: int, n: int) -> int {
    if i + 1 == n {
        0
    } else {
        i + 1
    }
}

impl<const N: usize> View for CommandQueue<N> {
    type V = Seq<Command>;

    /// The queued commands, oldest first.
    closed spec fn view(&self) -> Seq<Command> {
        Seq::new(self.count(), |i: int| self.elements@[self.slot(i)])
    }
}

impl<const N: usize> CommandQueue<N> {
    /// Number of commands the queue can hold.
    pub open spec fn capacity() -> nat {
        (N - 1) as nat
    }

    /// The indices are in range and every slot exists.
    pub closed spec fn wf(&self) -> bool {
        &&& N >= 1
        &&& self.elements@.len() == N
        &&& self.write < N
        &&& self.read < N
    }

    closed spec fn count(&self) -> nat {
        if self.write >= self.read {
            (self.write - self.read) as nat
        } else {
            (self.write + N - self.read) as nat
        }
    }

    closed spec fn slot(&self, i: int) -> int {
        if self.read + i < N {
            self.read + i
        } else {
            self.read + i - N
        }
    }

    /// The write index.
    pub closed spec fn write_index(&self) -> int {
        self.write as int
    }

    /// The read index.
    pub closed spec fn read_index(&self) -> int {
        self.read as int
    }

    proof fn lemma_view_len(&self)
        requires
            self.wf(),
        ensures
            self@.len() == self.count(),
            self@.len() <= Self::capacity(),
            self@.len() == 0 <==> self.write == self.read,
            self@.len() == Self::capacity() <==> ring_next(self.write as int, N as int) == self.read,
    {
    }

    /// An empty queue.
    pub fn new() -> (r: Self)
        requires
            N >= 1,
        ensures
            r.wf(),
            r@ == Seq::<Command>::empty(),
    {
        let mut elements: Vec<Command> = Vec::new();
        let mut i: usize = 0;
        while i < N
            invariant
                i <= N,
                elements@.len() == i,
            decreases N - i,
        {
            elements.push(Command::Nop);
            i = i + 1;
        }
        let r = Self { elements, write: 0, read: 0 };
        assert(r@ =~= Seq::<Command>::empty());
        r
    }

    /// Number of queued commands.
    pub fn len(&self) -> (r: usize)
        requires
            self.wf(),
        ensures
            r == self@.len(),
    {
        proof {
            self.lemma_view_len();
        }
        if self.write >= self.read {
            self.write - self.read
        } else {
            self.write + (N - self.read)
        }
    }

    /// True when no command is queued (`write == read`).
    pub fn is_empty(&self) -> (r: bool)
        requires
            self.wf(),
        ensures
            r == (self.write_index() == self.read_index()),
            r == (self@.len() == 0),
    {
        proof {
            self.lemma_view_len();
        }
        self.write == self.read
    }

    /// True when the queue holds `N - 1` commands (`(write + 1) % N == read`).
    pub fn full(&self) -> (r: bool)
        requires
            self.wf(),
        ensures
            r == ((self.write_index() + 1) % (N as int) == self.read_index()),
            r == (self@.len() == Self::capacity()),
    {
        proof {
            self.lemma_view_len();
            if self.write + 1 == N {
                assert((self.write + 1) % (N as int) == 0) by (nonlinear_arith)
                    requires
                        self.write + 1 == N,
                ;
            } else {
                assert((self.write + 1) % (N as int) == self.write + 1) by (nonlinear_arith)
                    requires
                        self.write + 1 < N,
                ;
            }
        }
        let next = if self.write == N - 1 {
            0
        } else {
            self.write + 1
        };
        next == self.read
    }

    /// Appends a command, or refuses it, leaving the queue as it was, when
    /// the queue is full.
    pub fn push(&mut self, cmd: Command) -> (r: Result<(), QueueFull>)
        requires
            old(self).wf(),
        ensures
            final(self).wf(),
            old(self)@.len() < Self::capacity() ==> r is Ok && final(self)@ == old(self)@.push(cmd),
            old(self)@.len() >= Self::capacity() ==> r is Err && final(self)@ == old(self)@,
            final(self)@ == apply_op(old(self)@, Self::capacity(), QueueOp::Push(cmd)).0,
    {
        proof {
            self.lemma_view_len();
        }
        if self.full() {
            return Err(QueueFull);
        }
        let ghost before = self@;
        self.elements.set(self.write, cmd);
        self.write = if self.write == N - 1 {
            0
        } else {
            self.write + 1
        };
        proof {
            self.lemma_view_len();
        }
        assert(self@ =~= before.push(cmd));
        Ok(())
    }

    /// Removes and returns the oldest command; `None` when the queue is empty.
    pub fn pop(&mut self) -> (r: Option<Command>)
        requires
            old(self).wf(),
        ensures
            final(self).wf(),
            old(self)@.len() == 0 ==> r is None && final(self)@ == old(self)@,
            old(self)@.len() > 0 ==> r == Some(old(self)@[0]) && final(self)@ == old(self)@.drop_first(),
            final(self)@ == apply_op(old(self)@, Self::capacity(), QueueOp::Pop).0,
            match r {
                Some(c) => apply_op(old(self)@, Self::capacity(), QueueOp::Pop).1 == seq![c],
                None => apply_op(old(self)@, Self::capacity(), QueueOp::Pop).1 == Seq::<Command>::empty(),
            },
    {
        proof {
            self.lemma_view_len();
        }
        if self.write == self.read {
            return None;
        }
        let ghost before = self@;
        let idx = self.read;
        self.read = if self.read == N - 1 {
            0
        } else {
            self.read + 1
        };
        proof {
            self.lemma_view_len();
        }
        assert(self@ =~= before.drop_first());
        Some(self.elements[idx])
    }
}

// ---------------------------------------------------------------------------
// Laws over sequences of operations

/// One operation on a queue.
pub enum QueueOp {
    Push(Command),
    Pop,
}

/// The contents after one operation on a queue of capacity `cap` holding
/// `q`, and the commands it popped: what `push` and `pop` state.
pub open spec fn apply_op(q: Seq<Command>, cap: nat, op: QueueOp) -> (Seq<Command>, Seq<Command>) {
    match op {
        QueueOp::Push(c) => if q.len() < cap {
            (q.push(c), Seq::empty())
        } else {
            (q, Seq::empty())
        },
        QueueOp::Pop => if q.len() == 0 {
            (q, Seq::empty())
        } else {
            (q.drop_first(), seq![q[0]])
        },
    }
}

/// The contents after a run of operations, and all the commands popped, in
/// order.
pub open spec fn apply_ops(q: Seq<Command>, cap: nat, ops: Seq<QueueOp>) -> (Seq<Command>, Seq<Command>)
    decreases ops.len(),
{
    if ops.len() == 0 {
        (q, Seq::empty())
    } else {
        let (q1, out1) = apply_op(q, cap, ops[0]);
        let (q2, out2) = apply_ops(q1, cap, ops.drop_first());
        (q2, out1 + out2)
    }
}

/// The commands that a run of operations pushes, in order.
pub open spec fn pushed(ops: Seq<QueueOp>) -> Seq<Command>
    decreases ops.len(),
{
    if ops.len() == 0 {
        Seq::empty()
    } else {
        match ops[0] {
            QueueOp::Push(c) => seq![c] + pushed(ops.drop_first()),
            QueueOp::Pop => pushed(ops.drop_first()),
        }
    }
}

/// First in, first out: when the pushes of a run of pushes and pops fit in
/// the queue, none is refused, and the commands popped, followed by those
/// still queued, are the commands queued before and then those pushed, in
/// push order.
pub proof fn lemma_fifo(q: Seq<Command>, cap: nat, ops: Seq<QueueOp>)
    requires
        q.len() + pushed(ops).len() <= cap,
    ensures
        apply_ops(q, cap, ops).1 + apply_ops(q, cap, ops).0 == q + pushed(ops),
    decreases ops.len(),
{
    if ops.len() > 0 {
        let rest = ops.drop_first();
        let (q1, out1) = apply_op(q, cap, ops[0]);
        match ops[0] {
            QueueOp::Push(c) => {
                assert(pushed(ops) == seq![c] + pushed(rest));
                lemma_fifo(q1, cap, rest);
                assert(q1 + pushed(rest) =~= q + pushed(ops));
                assert(out1 + apply_ops(q1, cap, rest).1 + apply_ops(q1, cap, rest).0 =~= apply_ops(
                    q1,
                    cap,
                    rest,
                ).1 + apply_ops(q1, cap, rest).0);
            },
            QueueOp::Pop => {
                assert(pushed(ops) == pushed(rest));
                lemma_fifo(q1, cap, rest);
                let (q2, out2) = apply_ops(q1, cap, rest);
                if q.len() == 0 {
                    assert(out1 + out2 + q2 =~= out2 + q2);
                } else {
                    assert(out1 + out2 + q2 =~= seq![q[0]] + (out2 + q2));
                    assert(seq![q[0]] + (q1 + pushed(rest)) =~= q + pushed(ops));
                }
            },
        }
    } else {
        assert(Seq::<Command>::empty() + q =~= q + pushed(ops));
    }
}

/// A run of pushes of the given commands.
pub open spec fn pushes(items: Seq<Command>) -> Seq<QueueOp> {
    Seq::new(items.len(), |i: int| QueueOp::Push(items[i]))
}

proof fn lemma_pushes_fill(q: Seq<Command>, cap: nat, items: Seq<Command>)
    requires
        q.len() + items.len() <= cap,
    ensures
        apply_ops(q, cap, pushes(items)).0 == q + items,
        apply_ops(q, cap, pushes(items)).1 == Seq::<Command>::empty(),
    decreases items.len(),
{
    if items.len() > 0 {
        let ops = pushes(items);
        assert(ops.drop_first() =~= pushes(items.drop_first()));
        lemma_pushes_fill(q.push(items[0]), cap, items.drop_first());
        assert(q.push(items[0]) + items.drop_first() =~= q + items);
    } else {
        assert(q + items =~= q);
    }
}

/// Capacity: into an empty queue of capacity `cap`, `cap` pushes all
/// succeed; one more is refused and changes nothing; after one pop, which
/// returns the first command pushed, exactly one more push succeeds.
pub proof fn lemma_capacity(cap: nat, items: Seq<Command>, extra: Command, more: Command)
    requires
        items.len() == cap,
        cap >= 1,
    ensures
        apply_ops(Seq::empty(), cap, pushes(items)).0 == items,
        apply_op(items, cap, QueueOp::Push(extra)).0 == items,
        apply_op(items, cap, QueueOp::Pop).1 == seq![items[0]],
        apply_op(apply_op(items, cap, QueueOp::Pop).0, cap, QueueOp::Push(extra)).0 == items.drop_first().push(extra),
        apply_op(items.drop_first().push(extra), cap, QueueOp::Push(more)).0 == items.drop_first().push(extra),
{
    lemma_pushes_fill(Seq::empty(), cap, items);
    assert(Seq::<Command>::empty() + items =~= items);
}

} // verus!
