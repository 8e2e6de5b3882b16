//! A bounded pool of store connections.
//!
//! The pool decides which connection a caller gets and whether one has to be
//! opened first; it never opens or closes anything itself. A connection is a
//! numbered slot, and the program that drives the pool keeps the live session
//! of each slot.

use crate::tally::{lemma_tally_bound, lemma_tally_update, tally};
use vstd::prelude::*;

verus! {

/// The state of one slot of the pool.
#[derive(Clone, Copy, Debug, PartialEq, Eq, Structural)]
pub enum Slot {
    /// No session exists for the slot; one is opened when the slot is next lent.
    Vacant,
    /// A session exists and nobody holds it.
    Idle,
    /// The slot is checked out.
    Lent,
}

/// A handle to one checked-out slot.
#[derive(Clone, Copy, Debug, PartialEq, Eq, Structural)]
pub struct Connection {
    /// The number of the slot.
    pub slot: usize,
}

/// The answer to a checkout.
#[derive(Clone, Copy, Debug, PartialEq, Eq, Structural)]
pub enum Checkout {
    /// An existing session was lent.
    Ready(Connection),
    /// A vacant slot was lent: its session has to be opened before use.
    Fresh(Connection),
    /// Every slot is lent: the caller has to wait for a release.
    Exhausted,
}

impl Checkout {
    /// The connection that was lent, if one was.
    pub open spec fn lent_connection(self) -> Option<Connection> {
        match self {
            Checkout::Ready(conn) => Some(conn),
            Checkout::Fresh(conn) => Some(conn),
            Checkout::Exhausted => None,
        }
    }

    /// The connection that was lent, if one was.
    pub fn connection(&self) -> (conn: Option<Connection>)
        ensures
            conn == self.lent_connection(),
    {
        match self {
            Checkout::Ready(conn) => Some(*conn),
            Checkout::Fresh(conn) => Some(*conn),
            Checkout::Exhausted => None,
        }
    }

    /// True when a connection was lent whose session has to be opened first.
    pub fn needs_session(&self) -> (fresh: bool)
        ensures
            fresh == (self is Fresh),
    {
        match self {
            Checkout::Fresh(_) => true,
            _ => false,
        }
    }
}

/// How long a caller waits for a connection before it gives up, in
/// milliseconds.
pub const CHECKOUT_WAIT_MILLIS: u64 = 30_000;

/// The time that a caller who has waited `waited` milliseconds for a
/// connection waits on; where it is zero, the caller gives up.
pub open spec fn wait_left_after(waited: u64) -> u64 {
    if waited < CHECKOUT_WAIT_MILLIS {
        (CHECKOUT_WAIT_MILLIS - waited) as u64
    } else {
        0
    }
}

/// The time that a caller who has waited `waited` milliseconds for a
/// connection waits on; where it is zero, the caller gives up.
pub fn wait_left(waited: u64) -> (left: u64)
    ensures
        left == wait_left_after(waited),
{
    if waited < CHECKOUT_WAIT_MILLIS {
        CHECKOUT_WAIT_MILLIS - waited
    } else {
        0
    }
}

/// What a slot counts for among the checked-out slots: one where it is
/// lent, and nothing otherwise.
pub open spec fn lent_only() -> spec_fn(Slot) -> nat {
    |slot: Slot|
        if slot == Slot::Lent {
            1nat
        } else {
            0nat
        }
}

/// The number of slots that are checked out.
pub open spec fn lent(slots: Seq<Slot>) -> nat {
    tally(slots, lent_only())
}

/// The number of slots that a checkout can still lend.
pub open spec fn free(slots: Seq<Slot>) -> int {
    slots.len() - lent(slots)
}

/// True when `i` is the lowest slot in state `kind`.
pub open spec fn is_lowest(slots: Seq<Slot>, kind: Slot, i: int) -> bool {
    &&& 0 <= i < slots.len()
    &&& slots[i] == kind
    &&& forall|j: int| 0 <= j < i ==> slots[j] != kind
}

/// The lowest slot in state `kind`, if there is one.
pub open spec fn lowest(slots: Seq<Slot>, kind: Slot) -> Option<int> {
    if exists|i: int| is_lowest(slots, kind, i) {
        Some(choose|i: int| is_lowest(slots, kind, i))
    } else {
        None
    }
}

/// What a checkout answers: the lowest idle slot, else the lowest vacant one,
/// else that the pool is exhausted.
pub open spec fn checkout_of(slots: Seq<Slot>) -> Checkout {
    match lowest(slots, Slot::Idle) {
        Some(i) => Checkout::Ready(Connection { slot: i as usize }),
        None => match lowest(slots, Slot::Vacant) {
            Some(i) => Checkout::Fresh(Connection { slot: i as usize }),
            None => Checkout::Exhausted,
        },
    }
}

/// The slots after a checkout: the slot that was answered is lent.
pub open spec fn after_acquire(slots: Seq<Slot>) -> Seq<Slot> {
    match checkout_of(slots) {
        Checkout::Ready(c) => slots.update(c.slot as int, Slot::Lent),
        Checkout::Fresh(c) => slots.update(c.slot as int, Slot::Lent),
        Checkout::Exhausted => slots,
    }
}

/// True when `conn` names a slot that is checked out.
pub open spec fn holds(slots: Seq<Slot>, conn: Connection) -> bool {
    conn.slot < slots.len() && slots[conn.slot as int] == Slot::Lent
}

/// The slots after `conn` was handed back and left in state `left`; nothing
/// changes where `conn` is not checked out.
pub open spec fn after_return(slots: Seq<Slot>, conn: Connection, left: Slot) -> Seq<Slot> {
    if holds(slots, conn) {
        slots.update(conn.slot as int, left)
    } else {
        slots
    }
}

/// A slot that is the lowest of its kind is the one that `lowest` names.
pub proof fn lemma_lowest_is(slots: Seq<Slot>, kind: Slot, i: int)
    requires
        is_lowest(slots, kind, i),
    ensures
        lowest(slots, kind) == Some(i),
{
    let j = choose|j: int| is_lowest(slots, kind, j);
    assert(is_lowest(slots, kind, j));
    if j < i {
        assert(slots[j] != kind);
    } else if i < j {
        assert(slots[i] != kind);
    }
}

/// Where no slot is of a kind, `lowest` names none.
pub proof fn lemma_lowest_none(slots: Seq<Slot>, kind: Slot)
    requires
        forall|j: int| 0 <= j < slots.len() ==> slots[j] != kind,
    ensures
        lowest(slots, kind) is None,
{
    if exists|i: int| is_lowest(slots, kind, i) {
        let i = choose|i: int| is_lowest(slots, kind, i);
        assert(slots[i] != kind);
    }
}

/// What `lowest` names is the lowest slot of its kind, and it names none only
/// where no slot is of that kind.
pub proof fn lemma_lowest_meaning(slots: Seq<Slot>, kind: Slot)
    ensures
        lowest(slots, kind) matches Some(i) ==> is_lowest(slots, kind, i),
        lowest(slots, kind) is None ==> forall|j: int| 0 <= j < slots.len() ==> slots[j] != kind,
{
    if lowest(slots, kind) is None {
        assert forall|j: int| 0 <= j < slots.len() implies slots[j] != kind by {
            if slots[j] == kind {
                lemma_some_lowest(slots, kind, j);
            }
        }
    }
}

/// Where some slot is of a kind, one of them is the lowest.
proof fn lemma_some_lowest(slots: Seq<Slot>, kind: Slot, j: int)
    requires
        0 <= j < slots.len(),
        slots[j] == kind,
    ensures
        exists|i: int| is_lowest(slots, kind, i),
    decreases j,
{
    if exists|k: int| 0 <= k < j && slots[k] == kind {
        let k = choose|k: int| 0 <= k < j && slots[k] == kind;
        lemma_some_lowest(slots, kind, k);
    } else {
        assert(is_lowest(slots, kind, j));
    }
}

/// A checkout is refused exactly when nothing is free; otherwise it lends a
/// slot that was not lent, and one more slot is lent after it.
pub proof fn lemma_acquire(slots: Seq<Slot>)
    requires
        slots.len() <= usize::MAX,
    ensures
        checkout_of(slots) is Exhausted <==> free(slots) == 0,
        checkout_of(slots) is Exhausted ==> after_acquire(slots) == slots,
        checkout_of(slots) matches Checkout::Ready(c) ==> c.slot < slots.len() && slots[c.slot as int]
            == Slot::Idle,
        checkout_of(slots) matches Checkout::Fresh(c) ==> c.slot < slots.len() && slots[c.slot as int]
            == Slot::Vacant,
        !(checkout_of(slots) is Exhausted) ==> lent(after_acquire(slots)) == lent(slots) + 1,
        after_acquire(slots).len() == slots.len(),
{
    lemma_lowest_meaning(slots, Slot::Idle);
    lemma_lowest_meaning(slots, Slot::Vacant);
    lemma_tally_bound(slots, lent_only());
    match checkout_of(slots) {
        Checkout::Ready(c) => {
            lemma_tally_update(slots, lent_only(), c.slot as int, Slot::Lent);
        },
        Checkout::Fresh(c) => {
            lemma_tally_update(slots, lent_only(), c.slot as int, Slot::Lent);
        },
        Checkout::Exhausted => {
            assert forall|j: int| 0 <= j < slots.len() implies slots[j] == Slot::Lent by {
                assert(slots[j] != Slot::Idle);
                assert(slots[j] != Slot::Vacant);
            }
        },
    }
}

/// The slots after `times` checkouts in a row.
pub open spec fn acquire_times(slots: Seq<Slot>, times: nat) -> Seq<Slot>
    decreases times,
{
    if times == 0 {
        slots
    } else {
        after_acquire(acquire_times(slots, (times - 1) as nat))
    }
}

/// True when each of `times` checkouts in a row gets a connection.
pub open spec fn lends(slots: Seq<Slot>, times: nat) -> bool
    decreases times,
{
    times == 0 || (lends(slots, (times - 1) as nat) && !(checkout_of(
        acquire_times(slots, (times - 1) as nat),
    ) is Exhausted))
}

/// Checkouts in a row all get a connection exactly when that many slots are
/// free, and each of them takes one free slot.
pub proof fn lemma_lends(slots: Seq<Slot>, times: nat)
    requires
        slots.len() <= usize::MAX,
    ensures
        lends(slots, times) <==> times <= free(slots),
        lends(slots, times) ==> free(acquire_times(slots, times)) == free(slots) - times,
        acquire_times(slots, times).len() == slots.len(),
    decreases times,
{
    lemma_tally_bound(slots, lent_only());
    if times > 0 {
        let before = (times - 1) as nat;
        lemma_lends(slots, before);
        lemma_acquire(acquire_times(slots, before));
        lemma_tally_bound(acquire_times(slots, before), lent_only());
    }
}

/// A bounded set of reusable store connections.
pub struct ConnectionPool {
    slots: Vec<Slot>,
}

impl View for ConnectionPool {
    type V = Seq<Slot>;

    closed spec fn view(&self) -> Seq<Slot> {
        self.slots@
    }
}

impl ConnectionPool {
    /// The slots of a pool can be counted in a machine word.
    pub proof fn lemma_capacity_fits(&self)
        ensures
            self@.len() <= usize::MAX,
    {
        assert(self.slots@.len() == self.slots.len());
    }

    /// A pool of `capacity` slots, none of which has a session yet.
    pub fn new(capacity: u32) -> (pool: ConnectionPool)
        ensures
            pool@ == Seq::new(capacity as nat, |i: int| Slot::Vacant),
    {
        let mut slots: Vec<Slot> = Vec::new();
        let mut made: u32 = 0;
        while made < capacity
            invariant
                made <= capacity,
                slots@ == Seq::new(made as nat, |i: int| Slot::Vacant),
            decreases capacity - made,
        {
            slots.push(Slot::Vacant);
            made = made + 1;
            assert(slots@ =~= Seq::new(made as nat, |i: int| Slot::Vacant));
        }
        ConnectionPool { slots }
    }

    /// The number of slots, fixed when the pool was made.
    pub fn capacity(&self) -> (capacity: usize)
        ensures
            capacity == self@.len(),
    {
        self.slots.len()
    }

    /// The state of slot `i`, or `None` where the pool has no such slot.
    pub fn slot(&self, i: usize) -> (state: Option<Slot>)
        ensures
            i < self@.len() ==> state == Some(self@[i as int]),
            i >= self@.len() ==> state is None,
    {
        if i < self.slots.len() {
            Some(self.slots[i])
        } else {
            None
        }
    }

    /// The number of slots that are checked out.
    pub fn checked_out(&self) -> (count: usize)
        ensures
            count == lent(self@),
    {
        let mut count: usize = 0;
        let mut i: usize = 0;
        while i < self.slots.len()
            invariant
                i <= self.slots@.len(),
                count == lent(self.slots@.take(i as int)),
                count <= i,
            decreases self.slots@.len() - i,
        {
            assert(self.slots@.take(i + 1).drop_last() =~= self.slots@.take(i as int));
            if self.slots[i] == Slot::Lent {
                count = count + 1;
            }
            i = i + 1;
        }
        assert(self.slots@.take(i as int) =~= self.slots@);
        count
    }

    /// The lowest slot in state `kind`.
    fn find(&self, kind: Slot) -> (found: Option<usize>)
        ensures
            found matches Some(i) ==> lowest(self@, kind) == Some(i as int),
            found is None ==> lowest(self@, kind) is None,
    {
        let mut i: usize = 0;
        while i < self.slots.len()
            invariant
                i <= self.slots@.len(),
                forall|j: int| 0 <= j < i ==> self.slots@[j] != kind,
            decreases self.slots@.len() - i,
        {
            if self.slots[i] == kind {
                proof {
                    lemma_lowest_is(self@, kind, i as int);
                }
                return Some(i);
            }
            i = i + 1;
        }
        proof {
            lemma_lowest_none(self@, kind);
        }
        None
    }

    /// Checks out a connection: an idle one where there is one, else a vacant
    /// slot whose session the caller has to open, else none. A caller that is
    /// refused waits for a release and asks again; the pool never grows.
    pub fn acquire(&mut self) -> (checkout: Checkout)
        ensures
            checkout == checkout_of(old(self)@),
            final(self)@ == after_acquire(old(self)@),
            final(self)@.len() == old(self)@.len(),
            checkout is Exhausted <==> free(old(self)@) == 0,
            lent(final(self)@) <= final(self)@.len(),
    {
        proof {
            lemma_lowest_meaning(self@, Slot::Idle);
            lemma_lowest_meaning(self@, Slot::Vacant);
            assert(self.slots@.len() == self.slots.len());
            lemma_acquire(self@);
            lemma_tally_bound(after_acquire(self@), lent_only());
        }
        match self.find(Slot::Idle) {
            Some(i) => {
                self.slots.set(i, Slot::Lent);
                Checkout::Ready(Connection { slot: i })
            },
            None => match self.find(Slot::Vacant) {
                Some(i) => {
                    self.slots.set(i, Slot::Lent);
                    Checkout::Fresh(Connection { slot: i })
                },
                None => Checkout::Exhausted,
            },
        }
    }

    /// True when `conn` names a slot of this pool that is checked out.
    pub fn is_lent(&self, conn: Connection) -> (lent: bool)
        ensures
            lent == holds(self@, conn),
    {
        conn.slot < self.slots.len() && self.slots[conn.slot] == Slot::Lent
    }

    /// Returns a connection to the available set. Answers whether `conn` was
    /// checked out; where it was not, nothing changes.
    pub fn release(&mut self, conn: Connection) -> (returned: bool)
        ensures
            returned == holds(old(self)@, conn),
            final(self)@ == after_return(old(self)@, conn, Slot::Idle),
            final(self)@.len() == old(self)@.len(),
    {
        if self.is_lent(conn) {
            self.slots.set(conn.slot, Slot::Idle);
            true
        } else {
            false
        }
    }

    /// Gives up the session of a connection that could not be opened or is
    /// suspected broken: its slot is vacant again and a later checkout opens a
    /// new session for it. Answers whether `conn` was checked out; where it
    /// was not, nothing changes.
    pub fn discard(&mut self, conn: Connection) -> (returned: bool)
        ensures
            returned == holds(old(self)@, conn),
            final(self)@ == after_return(old(self)@, conn, Slot::Vacant),
            final(self)@.len() == old(self)@.len(),
    {
        if self.is_lent(conn) {
            self.slots.set(conn.slot, Slot::Vacant);
            true
        } else {
            false
        }
    }
}

} // verus!
