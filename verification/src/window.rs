//! The reorder window as a mathematical value, and what holds of it.
//!
//! A window is a release cursor and a row of slots. The slot at offset `i`
//! stands for the sequence number `i` steps forward of the cursor; it holds
//! the packet that came in under that number, or is a gap.

use crate::packet::{PacketLocation, PacketView};
use crate::seq_number::{
    lemma_add_add, lemma_add_distance, lemma_distance_add, seq_add, seq_distance, seq_precedes,
    HALF_RANGE, MODULUS,
};
use vstd::prelude::*;

verus! {

/// What is wrong with a packet stream that the window cannot read.
#[derive(Clone, Copy, Debug, PartialEq, Eq, Structural)]
pub enum WindowFault {
    /// The packet at the release cursor does not open a message.
    MissingFirst,
}

/// A slot of the window: a packet, or a gap.
pub type Slot = Option<PacketView>;

/// What a look at the front of the window finds: the number of packets of
/// the message that is there, `None` while no whole message is there, or the
/// fault in the stream.
pub type Readiness = Result<Option<nat>, WindowFault>;

/// What taking from the window gives: the bytes of the message, `None` while
/// no whole message is there, or the fault in the stream.
pub type Taken = Result<Option<Seq<u8>>, WindowFault>;

/// `slots`, with gaps added behind it until it has at least `len` slots.
pub open spec fn padded(slots: Seq<Slot>, len: nat) -> Seq<Slot> {
    if slots.len() >= len {
        slots
    } else {
        slots + Seq::new((len - slots.len()) as nat, |i: int| None::<PacketView>)
    }
}

/// The payloads of the first `count` slots, one after the other.
pub open spec fn payload_run(slots: Seq<Slot>, count: nat) -> Seq<u8>
    recommends
        count <= slots.len(),
        forall|i: int| 0 <= i < count ==> slots[i] is Some,
    decreases count,
{
    if count == 0 {
        Seq::empty()
    } else {
        payload_run(slots, (count - 1) as nat) + slots[count - 1]->0.payload
    }
}

/// What a slot shows of itself for diagnosis: nothing for a gap, else the
/// packet's raw sequence number and its place in its message.
pub open spec fn slot_mark(slot: Slot) -> Option<(u32, PacketLocation)> {
    match slot {
        Some(pack) => Some((pack.seq_number as u32, pack.message_loc)),
        None => None,
    }
}

/// The reorder window as a mathematical value.
pub ghost struct Window {
    /// The release cursor: the sequence number that the slot at offset 0
    /// stands for.
    pub head: nat,
    /// The slots, from the cursor forward.
    pub slots: Seq<Slot>,
}

impl Window {
    /// The cursor is a sequence number, the slots reach no farther forward
    /// than a sequence number can lie ahead of the cursor, and each packet
    /// sits in the slot of its own sequence number.
    pub open spec fn wf(self) -> bool {
        &&& self.head < MODULUS
        &&& self.slots.len() <= HALF_RANGE + 1
        &&& forall|i: int|
            0 <= i < self.slots.len() ==> ((#[trigger] self.slots[i]) matches Some(p)
                ==> p.seq_number == seq_add(self.head, i as nat))
    }

    /// The window with no slot, waiting for `head`.
    pub open spec fn empty(head: nat) -> Window {
        Window { head, slots: Seq::empty() }
    }

    /// What each slot shows of itself, from the cursor forward.
    pub open spec fn marks(self) -> Seq<Option<(u32, PacketLocation)>> {
        Seq::new(self.slots.len(), |i: int| slot_mark(self.slots[i]))
    }

    /// Whether the sequence number lies behind the cursor.
    pub open spec fn is_stale(self, seq_number: nat) -> bool {
        seq_precedes(seq_number, self.head)
    }

    /// The window after a packet came in. One behind the cursor changes
    /// nothing. Any other goes into the slot of its sequence number, over
    /// what was there, the slots growing by gaps as far as needed.
    pub open spec fn insert(self, pack: PacketView) -> Window {
        if self.is_stale(pack.seq_number) {
            self
        } else {
            let offset = seq_distance(self.head, pack.seq_number);
            Window {
                head: self.head,
                slots: padded(self.slots, offset + 1).update(offset as int, Some(pack)),
            }
        }
    }

    /// The window after the packets came in, in their order.
    pub open spec fn insert_all(self, packs: Seq<PacketView>) -> Window
        decreases packs.len(),
    {
        if packs.len() == 0 {
            self
        } else {
            self.insert_all(packs.drop_last()).insert(packs.last())
        }
    }

    /// Whether the packet at the cursor is there and does not open a message.
    pub open spec fn faulty(self) -> bool {
        &&& self.slots.len() > 0
        &&& self.slots[0] matches Some(p)
        &&& !p.message_loc.opens()
    }

    /// Whether the first `count` slots hold a message: all are packets, the
    /// last of them closes a message, and none before it does.
    pub open spec fn message_at_front(self, count: int) -> bool {
        &&& 1 <= count <= self.slots.len()
        &&& forall|i: int| 0 <= i < count ==> (#[trigger] self.slots[i]) is Some
        &&& forall|i: int|
            0 <= i < count - 1 ==> !(#[trigger] self.slots[i])->0.message_loc.closes()
        &&& self.slots[count - 1]->0.message_loc.closes()
    }

    /// The number of packets of the message at the front, if a whole one is
    /// there; the fault, if the packet at the cursor does not open a message.
    pub open spec fn ready(self) -> Readiness {
        if self.faulty() {
            Err(WindowFault::MissingFirst)
        } else if exists|count: int| self.message_at_front(count) {
            Ok(Some((choose|count: int| self.message_at_front(count)) as nat))
        } else {
            Ok(None)
        }
    }

    /// The window after `count` slots left at the front.
    pub open spec fn release(self, count: nat) -> Window {
        Window { head: seq_add(self.head, count), slots: self.slots.skip(count as int) }
    }

    /// The window after the message at the front was taken.
    pub open spec fn after_take(self) -> Window {
        match self.ready() {
            Ok(Some(count)) => self.release(count),
            _ => self,
        }
    }

    /// The message at the front, if a whole one is there: the payloads of its
    /// packets, one after the other. The fault, if the packet at the cursor
    /// does not open a message.
    pub open spec fn message(self) -> Taken {
        match self.ready() {
            Ok(Some(count)) => Ok(Some(payload_run(self.slots, count))),
            Ok(None) => Ok(None),
            Err(fault) => Err(fault),
        }
    }

    /// Whether the message at the front can be put together in memory: it is
    /// a single packet, whose payload is handed on as it is, or its bytes
    /// number no more than one allocation can hold.
    pub open spec fn message_fits(self) -> bool {
        self.ready() matches Ok(Some(count)) ==> count == 1 || payload_run(self.slots, count).len()
            <= isize::MAX
    }

    /// At most one count makes the front of the window a message.
    pub proof fn lemma_message_at_front_unique(self, a: int, b: int)
        requires
            self.message_at_front(a),
            self.message_at_front(b),
        ensures
            a == b,
    {
        if a < b {
            assert(!self.slots[a - 1]->0.message_loc.closes());
        }
        if b < a {
            assert(!self.slots[b - 1]->0.message_loc.closes());
        }
    }

    /// Where a message stands at the front of a window without fault, its
    /// count is what is ready.
    pub proof fn lemma_ready_is_message_at_front(self, count: int)
        requires
            !self.faulty(),
            self.message_at_front(count),
        ensures
            self.ready() == Readiness::Ok(Some(count as nat)),
    {
        let chosen = choose|c: int| self.message_at_front(c);
        self.lemma_message_at_front_unique(chosen, count);
    }

    /// A window with a gap, or with its end, behind packets of which none
    /// closes a message, has no message at its front.
    pub proof fn lemma_no_message_before_gap(self, gap: int)
        requires
            0 <= gap <= self.slots.len(),
            gap < self.slots.len() ==> self.slots[gap] is None,
            forall|i: int|
                0 <= i < gap ==> ((#[trigger] self.slots[i]) matches Some(p)
                    && !p.message_loc.closes()),
        ensures
            forall|count: int| !self.message_at_front(count),
    {
        assert forall|count: int| !self.message_at_front(count) by {
            if self.message_at_front(count) {
                if count <= gap {
                    assert(self.slots[count - 1] is Some);
                } else {
                    assert(self.slots[gap] is Some);
                }
            }
        }
    }

    /// The payloads of a longer run hold at least as many bytes as those of a
    /// shorter one.
    pub proof fn lemma_payload_run_grows(slots: Seq<Slot>, shorter: nat, longer: nat)
        requires
            shorter <= longer,
        ensures
            payload_run(slots, shorter).len() <= payload_run(slots, longer).len(),
        decreases longer,
    {
        if shorter < longer {
            Self::lemma_payload_run_grows(slots, shorter, (longer - 1) as nat);
        }
    }

    /// In a well-formed window the packet at offset 0, if there is one, is
    /// the packet of the release cursor, and no packet is from behind the
    /// cursor.
    pub proof fn lemma_wf_holds_no_stale_packet(self, offset: int)
        requires
            self.wf(),
            0 <= offset < self.slots.len(),
            self.slots[offset] is Some,
        ensures
            offset == 0 ==> self.slots[offset]->0.seq_number == self.head,
            !self.is_stale(self.slots[offset]->0.seq_number),
    {
        lemma_distance_add(self.head, offset as nat);
    }

    /// A packet that comes in makes the window as long as its offset asks
    /// for and no longer, and never shorter than it was.
    pub proof fn lemma_insert_len(self, pack: PacketView)
        requires
            !self.is_stale(pack.seq_number),
        ensures
            self.insert(pack).slots.len() == if self.slots.len() > seq_distance(
                self.head,
                pack.seq_number,
            ) {
                self.slots.len()
            } else {
                seq_distance(self.head, pack.seq_number) + 1
            },
    {
    }

    /// A packet that came in keeps a well-formed window well formed.
    pub proof fn lemma_insert_wf(self, pack: PacketView)
        requires
            self.wf(),
            pack.seq_number < MODULUS,
        ensures
            self.insert(pack).wf(),
    {
        if !self.is_stale(pack.seq_number) {
            lemma_add_distance(self.head, pack.seq_number);
        }
    }

    /// Taking the message at the front keeps a well-formed window well
    /// formed.
    pub proof fn lemma_release_wf(self, count: nat)
        requires
            self.wf(),
            count <= self.slots.len(),
        ensures
            self.release(count).wf(),
    {
        let after = self.release(count);
        assert forall|i: int| 0 <= i < after.slots.len() implies ((
        #[trigger] after.slots[i]) matches Some(p) ==> p.seq_number == seq_add(
            after.head,
            i as nat,
        )) by {
            assert(after.slots[i] == self.slots[count + i]);
            lemma_add_add(self.head, count, i as nat);
        }
    }

    /// Packets that come in never move the release cursor, however many and
    /// in whatever order.
    pub proof fn lemma_insertions_keep_head(self, packs: Seq<PacketView>)
        ensures
            self.insert_all(packs).head == self.head,
        decreases packs.len(),
    {
        if packs.len() > 0 {
            self.lemma_insertions_keep_head(packs.drop_last());
        }
    }

    /// Taking a message moves the release cursor forward by the number of its
    /// packets. Unless the message spans more than half of all sequence
    /// numbers, the cursor does not end up behind where it was.
    pub proof fn lemma_take_moves_head_forward(self, count: nat)
        requires
            self.wf(),
            self.ready() == Readiness::Ok(Some(count)),
            count <= HALF_RANGE,
        ensures
            self.after_take().head == seq_add(self.head, count),
            !seq_precedes(self.after_take().head, self.head),
    {
        lemma_distance_add(self.head, count);
    }

    /// A packet from behind the release cursor changes nothing: the window
    /// stays as it is, and so does what is ready and what is taken.
    pub proof fn lemma_stale_insert_changes_nothing(self, pack: PacketView)
        requires
            self.is_stale(pack.seq_number),
        ensures
            self.insert(pack) == self,
            self.insert(pack).ready() == self.ready(),
            self.insert(pack).message() == self.message(),
            self.insert(pack).after_take() == self.after_take(),
    {
    }

    /// A gap inside a message holds the message back, whatever lies behind
    /// the gap: where `self` has a message of `count` packets ready, a window
    /// that agrees with it before an offset inside that message and has a
    /// gap at that offset has no message ready.
    pub proof fn lemma_gap_blocks(self, other: Window, count: nat, gap: int)
        requires
            self.ready() == Readiness::Ok(Some(count)),
            0 <= gap < count - 1,
            gap < other.slots.len(),
            other.slots[gap] is None,
            forall|i: int| 0 <= i < gap ==> other.slots[i] == self.slots[i],
        ensures
            other.ready() == Readiness::Ok(None),
            other.message() == Taken::Ok(None),
            other.after_take() == other,
    {
        assert(self.message_at_front(count as int));
        assert forall|i: int| 0 <= i < gap implies ((#[trigger] other.slots[i]) matches Some(p)
            && !p.message_loc.closes()) by {
            assert(self.slots[i] is Some);
            assert(!self.slots[i]->0.message_loc.closes());
        }
        other.lemma_no_message_before_gap(gap);
    }

    /// A packet at the release cursor that both opens and closes a message is
    /// a message by itself: one packet is ready, the message is its payload,
    /// and taking it moves the cursor forward by exactly one.
    pub proof fn lemma_single_packet_message(self, pack: PacketView)
        requires
            self.slots.len() > 0,
            self.slots[0] == Some(pack),
            pack.message_loc.opens(),
            pack.message_loc.closes(),
        ensures
            self.ready() == Readiness::Ok(Some(1)),
            self.message() == Taken::Ok(Some(pack.payload)),
            self.after_take().head == seq_add(self.head, 1),
            self.after_take().slots == self.slots.skip(1),
    {
        assert(self.message_at_front(1));
        self.lemma_ready_is_message_at_front(1);
        assert(payload_run(self.slots, 1) =~= pack.payload) by {
            reveal_with_fuel(payload_run, 2);
        }
    }

    /// A window with no slot has no message ready, and taking from it gives
    /// nothing and leaves it as it is.
    pub proof fn lemma_empty_window(head: nat)
        ensures
            Window::empty(head).ready() == Readiness::Ok(None),
            Window::empty(head).message() == Taken::Ok(None),
            Window::empty(head).after_take() == Window::empty(head),
    {
        Window::empty(head).lemma_no_message_before_gap(0);
    }

    /// Packets of different sequence numbers may come in in either order: the
    /// window is the same afterwards, and so is every message taken from it.
    pub proof fn lemma_insert_commutes(self, a: PacketView, b: PacketView)
        requires
            a.seq_number < MODULUS,
            b.seq_number < MODULUS,
            a.seq_number != b.seq_number,
        ensures
            self.insert(a).insert(b) == self.insert(b).insert(a),
    {
        let at_a = seq_distance(self.head, a.seq_number);
        let at_b = seq_distance(self.head, b.seq_number);
        assert(at_a != at_b) by {
            if at_a == at_b {
                vstd::arithmetic::div_mod::lemma_fundamental_div_mod(
                    a.seq_number - self.head,
                    MODULUS as int,
                );
                vstd::arithmetic::div_mod::lemma_fundamental_div_mod(
                    b.seq_number - self.head,
                    MODULUS as int,
                );
            }
        }
        assert(self.insert(a).insert(b).slots =~= self.insert(b).insert(a).slots);
    }
}

} // verus!
