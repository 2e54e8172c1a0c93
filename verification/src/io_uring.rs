//! The ring's books: how many operations are under way, and how many more
//! the ring will take.
//!
//! The ring itself belongs to the kernel. What the reactor has to get right
//! is never to hand it more operations than it has slots, and to hold back
//! what does not fit until completions have made room. Each operation
//! carries a number by which its completion is known again: it says what
//! kind of operation it was and on which connection.

use vstd::prelude::*;

verus! {

/// What the ring refuses.
#[derive(Debug, Clone, Copy, PartialEq, Eq, Structural)]
pub enum RingError {
    /// A ring with no slots was asked for.
    NoSlots,
    /// More completions were reported than operations are under way.
    Unsubmitted,
}

/// The occupancy of a submission/completion ring.
pub struct IOUring {
    slots: u32,
    in_flight: u32,
}

/// What the books of a ring hold.
pub struct RingView {
    /// How many operations the ring can have under way at once.
    pub slots: u32,
    /// How many operations are under way.
    pub in_flight: u32,
}

impl View for IOUring {
    type V = RingView;

    closed spec fn view(&self) -> RingView {
        RingView { slots: self.slots, in_flight: self.in_flight }
    }
}

impl IOUring {
    #[verifier::type_invariant]
    closed spec fn within_capacity(self) -> bool {
        0 < self.slots && self.in_flight <= self.slots
    }

    /// The books of an empty ring of `slots` slots. A ring needs a slot.
    pub fn new(slots: u32) -> (r: Result<IOUring, RingError>)
        ensures
            match r {
                Ok(ring) => slots > 0 && ring@ == (RingView { slots, in_flight: 0 }),
                Err(e) => slots == 0 && e == RingError::NoSlots,
            },
    {
        if slots == 0 {
            Err(RingError::NoSlots)
        } else {
            Ok(IOUring { slots, in_flight: 0 })
        }
    }

    /// How many more operations the ring takes now.
    pub fn free_slots(&self) -> (free: u32)
        ensures
            self@.in_flight <= self@.slots,
            0 < self@.slots,
            free == self@.slots - self@.in_flight,
    {
        proof {
            use_type_invariant(self);
        }
        self.slots - self.in_flight
    }

    /// How many operations are under way.
    pub fn in_flight(&self) -> (n: u32)
        ensures
            n == self@.in_flight,
    {
        self.in_flight
    }

    /// Books `wanted` operations for submission and says how many of them
    /// fit: all, if there is room, else as many as there are free slots.
    /// The rest must wait for completions.
    pub fn submit(&mut self, wanted: u32) -> (granted: u32)
        ensures
            final(self)@.slots == old(self)@.slots,
            granted == if wanted <= old(self)@.slots - old(self)@.in_flight {
                wanted
            } else {
                (old(self)@.slots - old(self)@.in_flight) as u32
            },
            final(self)@.in_flight == old(self)@.in_flight + granted,
    {
        proof {
            use_type_invariant(&*self);
        }
        let free = self.slots - self.in_flight;
        let granted = if wanted <= free {
            wanted
        } else {
            free
        };
        self.in_flight = self.in_flight + granted;
        granted
    }

    /// Books `done` completions, which frees as many slots. More
    /// completions than operations under way are refused, and change
    /// nothing.
    pub fn complete(&mut self, done: u32) -> (r: Result<(), RingError>)
        ensures
            final(self)@.slots == old(self)@.slots,
            match r {
                Ok(()) => done <= old(self)@.in_flight && final(self)@.in_flight == old(self)@.in_flight - done,
                Err(e) => done > old(self)@.in_flight && e == RingError::Unsubmitted && final(self)@ == old(self)@,
            },
    {
        proof {
            use_type_invariant(&*self);
        }
        if done > self.in_flight {
            Err(RingError::Unsubmitted)
        } else {
            self.in_flight = self.in_flight - done;
            Ok(())
        }
    }
}

/// What an operation on the ring does.
#[derive(Debug, Clone, Copy, PartialEq, Eq, Structural)]
pub enum Operation {
    /// Take in a new connection.
    Accept,
    /// Read from a connection.
    Read,
    /// Write to a connection.
    Write,
}

/// The number that stands for a kind of operation.
pub open spec fn operation_code(op: Operation) -> nat {
    match op {
        Operation::Accept => 0,
        Operation::Read => 1,
        Operation::Write => 2,
    }
}

/// The number that an operation of kind `op` on connection `conn` carries:
/// four times the connection's number, plus the kind's.
pub open spec fn user_data_spec(op: Operation, conn: usize) -> nat {
    (conn * 4 + operation_code(op)) as nat
}

/// The operation that a completion with the number `user_data` belongs
/// to, if the number stands for one.
pub open spec fn operation_spec(user_data: u64) -> Option<(Operation, usize)> {
    let code = user_data % 4;
    let conn = user_data / 4;
    if code == 3 || conn > usize::MAX {
        None
    } else if code == 0 {
        Some((Operation::Accept, conn as usize))
    } else if code == 1 {
        Some((Operation::Read, conn as usize))
    } else {
        Some((Operation::Write, conn as usize))
    }
}

/// The number to give an operation of kind `op` on connection `conn`.
/// `None` when the connection's number leaves no room for the kind.
pub fn user_data(op: Operation, conn: usize) -> (r: Option<u64>)
    ensures
        r == if user_data_spec(op, conn) <= u64::MAX {
            Some(user_data_spec(op, conn) as u64)
        } else {
            None
        },
{
    let code: u64 = match op {
        Operation::Accept => 0,
        Operation::Read => 1,
        Operation::Write => 2,
    };
    if conn as u64 > (u64::MAX - code) / 4 {
        None
    } else {
        Some(conn as u64 * 4 + code)
    }
}

/// The operation that a completion with the number `user_data` belongs to.
pub fn operation_of(user_data: u64) -> (r: Option<(Operation, usize)>)
    ensures
        r == operation_spec(user_data),
{
    let code = user_data % 4;
    let conn = user_data / 4;
    if code == 3 || conn > usize::MAX as u64 {
        None
    } else if code == 0 {
        Some((Operation::Accept, conn as usize))
    } else if code == 1 {
        Some((Operation::Read, conn as usize))
    } else {
        Some((Operation::Write, conn as usize))
    }
}

/// The number that an operation carries names that operation and no
/// other: its completion is known again as the same kind, on the same
/// connection.
pub proof fn lemma_operation_of_user_data(op: Operation, conn: usize)
    requires
        user_data_spec(op, conn) <= u64::MAX,
    ensures
        operation_spec(user_data_spec(op, conn) as u64) == Some((op, conn)),
{
}

} // verus!
