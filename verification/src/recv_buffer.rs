//! The receive buffer: the reorder window that a connection's receive path
//! owns.

use crate::deque::set_at;
use crate::packet::{DataPacket, PacketLocation};
use crate::payload::{append_bytes, bytes_content, bytes_mut_content};
use crate::seq_number::{seq_add, SeqNumber};
use crate::window::{padded, payload_run, slot_mark, Readiness, Slot, Window, WindowFault};
use bytes::{Bytes, BytesMut};
use std::collections::VecDeque;
use vstd::prelude::*;

verus! {

/// A stored slot as a mathematical value.
spec fn slot_view(slot: Option<DataPacket>) -> Slot {
    match slot {
        Some(pack) => Some(pack@),
        None => None,
    }
}

/// Stored slots as mathematical values.
spec fn slots_view(slots: Seq<Option<DataPacket>>) -> Seq<Slot> {
    Seq::new(slots.len(), |i: int| slot_view(slots[i]))
}

/// Buffers the packets of a stream as they come in, in any order, and hands
/// out whole messages in the order of the stream.
pub struct RecvBuffer {
    // `buffer[0]` stands for the sequence number `head`
    buffer: VecDeque<Option<DataPacket>>,
    // the next sequence number to be released
    head: SeqNumber,
}

impl View for RecvBuffer {
    type V = Window;

    closed spec fn view(&self) -> Window {
        Window { head: self.head@, slots: slots_view(self.buffer@) }
    }
}

impl RecvBuffer {
    /// The buffer's window is well formed. Every buffer that this module
    /// hands out is, and every method keeps it so.
    pub open spec fn wf(&self) -> bool {
        self@.wf()
    }

    /// Creates a buffer that holds nothing.
    ///
    /// * `head` - the sequence number of the next packet
    pub fn new(head: SeqNumber) -> (buf: RecvBuffer)
        ensures
            buf.wf(),
            buf@ == Window::empty(head@),
    {
        proof {
            use_type_invariant(&head);
        }
        let buf = RecvBuffer { buffer: VecDeque::new(), head };
        assert(buf@.slots =~= Seq::empty());
        buf
    }

    /// The next sequence number to be released.
    pub fn next_release(&self) -> (head: SeqNumber)
        ensures
            head@ == self@.head,
    {
        self.head
    }

    /// The number of slots that the buffer holds, gaps included.
    pub fn len(&self) -> (len: usize)
        ensures
            len == self@.slots.len(),
    {
        self.buffer.len()
    }

    /// Adds a packet to the buffer. A packet from behind the release cursor
    /// changes nothing.
    pub fn add(&mut self, pack: DataPacket)
        requires
            old(self).wf(),
        ensures
            final(self).wf(),
            final(self)@ == old(self)@.insert(pack@),
            final(self)@.head == old(self)@.head,
    {
        proof {
            use_type_invariant(&pack.seq_number);
            old(self)@.lemma_insert_wf(pack@);
        }
        if pack.seq_number.precedes(self.head) {
            return;
        }
        let idx: usize = pack.seq_number.distance_from(self.head) as usize;
        while self.buffer.len() <= idx
            invariant
                self.head == old(self).head,
                old(self).buffer@.len() <= self.buffer@.len(),
                self.buffer@.len() <= idx + 1 || self.buffer@.len() == old(self).buffer@.len(),
                forall|i: int|
                    0 <= i < old(self).buffer@.len() ==> self.buffer@[i] == old(self).buffer@[i],
                forall|i: int|
                    old(self).buffer@.len() <= i < self.buffer@.len() ==> self.buffer@[i] is None,
            decreases idx + 1 - self.buffer@.len(),
        {
            self.buffer.push_back(None);
        }
        set_at(&mut self.buffer, idx, Some(pack));
        assert(slots_view(self.buffer@) =~= padded(
            slots_view(old(self).buffer@),
            (idx + 1) as nat,
        ).update(idx as int, Some(pack@)));
    }

    /// Checks whether the next message is there. Gives the number of packets
    /// that it spans, or `None` while it is not whole: a gap, or the end of
    /// what came in so far, stands before the packet that closes it.
    ///
    /// Fails where the packet at the release cursor does not open a message.
    pub fn next_msg_ready(&self) -> (ready: Result<Option<usize>, WindowFault>)
        ensures
            self@.ready() == match ready {
                Ok(Some(count)) => Ok(Some(count as nat)),
                Ok(None) => Ok(None),
                Err(fault) => Err(fault),
            },
            ready matches Ok(Some(count)) ==> self@.message_at_front(count as int),
    {
        if self.buffer.len() == 0 {
            proof {
                self@.lemma_no_message_before_gap(0);
            }
            return Ok(None);
        }
        match &self.buffer[0] {
            None => {
                proof {
                    self@.lemma_no_message_before_gap(0);
                }
                return Ok(None);
            },
            Some(first) => {
                if !first.message_loc.contains(PacketLocation::FIRST) {
                    return Err(WindowFault::MissingFirst);
                }
            },
        }
        let mut scanned: usize = 0;
        while scanned < self.buffer.len()
            invariant
                scanned <= self.buffer@.len(),
                !self@.faulty(),
                forall|i: int|
                    0 <= i < scanned ==> ((#[trigger] self@.slots[i]) matches Some(p)
                        && !p.message_loc.closes()),
            decreases self.buffer@.len() - scanned,
        {
            match &self.buffer[scanned] {
                Some(pack) => {
                    if pack.message_loc.contains(PacketLocation::LAST) {
                        proof {
                            self@.lemma_ready_is_message_at_front(scanned + 1);
                        }
                        return Ok(Some(scanned + 1));
                    }
                },
                None => {
                    proof {
                        self@.lemma_no_message_before_gap(scanned as int);
                    }
                    return Ok(None);
                },
            }
            scanned += 1;
        }
        proof {
            self@.lemma_no_message_before_gap(scanned as int);
        }
        Ok(None)
    }

    /// Whether `next_msg` can put the next message together: see
    /// `Window::message_fits`.
    pub fn next_msg_fits(&self) -> (fits: bool)
        ensures
            fits == self@.message_fits(),
    {
        let count: usize = match self.next_msg_ready() {
            Ok(Some(count)) => count,
            _ => {
                return true;
            },
        };
        if count == 1 {
            return true;
        }
        let limit: usize = isize::MAX as usize;
        let mut total: usize = 0;
        let mut summed: usize = 0;
        while summed < count
            invariant
                summed <= count <= self.buffer@.len(),
                self@.message_at_front(count as int),
                self@.ready() == Readiness::Ok(Some(count as nat)),
                count != 1,
                limit == isize::MAX,
                total == payload_run(self@.slots, summed as nat).len(),
                total <= limit,
            decreases count - summed,
        {
            assert(self@.slots[summed as int] is Some);
            let size: usize = match &self.buffer[summed] {
                Some(pack) => pack.payload.len(),
                None => unreached(),
            };
            proof {
                Window::lemma_payload_run_grows(self@.slots, (summed + 1) as nat, count as nat);
            }
            assert(payload_run(self@.slots, (summed + 1) as nat).len() == total + size);
            if size > limit - total {
                return false;
            }
            total += size;
            summed += 1;
        }
        true
    }

    /// Checks whether the next message is there, and takes it out if it is:
    /// its packets leave the buffer, the release cursor moves forward past
    /// them, and their payloads come back as one run of bytes, in the order
    /// of the stream. While no whole message is there, nothing changes.
    ///
    /// Fails, and changes nothing, where the packet at the release cursor
    /// does not open a message.
    pub fn next_msg(&mut self) -> (msg: Result<Option<Bytes>, WindowFault>)
        requires
            old(self).wf(),
            old(self)@.message_fits(),
        ensures
            final(self).wf(),
            final(self)@ == old(self)@.after_take(),
            old(self)@.message() == match msg {
                Ok(Some(bytes)) => Ok(Some(bytes_content(&bytes))),
                Ok(None) => Ok(None),
                Err(fault) => Err(fault),
            },
    {
        let count: usize = match self.next_msg_ready() {
            Ok(Some(count)) => count,
            Ok(None) => {
                return Ok(None);
            },
            Err(fault) => {
                return Err(fault);
            },
        };
        proof {
            old(self)@.lemma_release_wf(count as nat);
        }
        self.head = self.head.advance(count as u32);

        // a message of one packet is that packet's payload as it stands
        if count == 1 {
            let front = self.buffer.pop_front();
            assert(slots_view(self.buffer@) =~= old(self)@.slots.skip(1));
            assert(old(self)@.slots[0] is Some);
            return match front {
                Some(Some(pack)) => {
                    assert(payload_run(old(self)@.slots, 1) =~= bytes_content(&pack.payload)) by {
                        reveal_with_fuel(payload_run, 2);
                    }
                    Ok(Some(pack.payload))
                },
                _ => unreached(),
            };
        }
        // put the payloads of the others together

        let mut bytes = BytesMut::new();
        let mut taken: usize = 0;
        while taken < count
            invariant
                taken <= count <= old(self).buffer@.len(),
                old(self)@.message_at_front(count as int),
                payload_run(old(self)@.slots, count as nat).len() <= isize::MAX,
                self.head@ == seq_add(old(self)@.head, count as nat),
                self.buffer@ =~= old(self).buffer@.skip(taken as int),
                bytes_mut_content(&bytes) == payload_run(old(self)@.slots, taken as nat),
            decreases count - taken,
        {
            assert(old(self)@.slots[taken as int] is Some);
            proof {
                Window::lemma_payload_run_grows(
                    old(self)@.slots,
                    (taken + 1) as nat,
                    count as nat,
                );
            }
            match self.buffer.pop_front() {
                Some(Some(pack)) => {
                    append_bytes(&mut bytes, pack.payload);
                },
                _ => unreached(),
            }
            taken += 1;
        }
        assert(slots_view(self.buffer@) =~= old(self)@.slots.skip(count as int));
        Ok(Some(bytes.freeze()))
    }

    /// Takes the next message out as `next_msg` does, for a caller that has
    /// not looked whether the message can be put together. Where it cannot,
    /// gives `None` and changes nothing.
    pub fn next_msg_if_fits(&mut self) -> (msg: Option<Result<Option<Bytes>, WindowFault>>)
        requires
            old(self).wf(),
        ensures
            final(self).wf(),
            msg is Some <==> old(self)@.message_fits(),
            msg is None ==> final(self)@ == old(self)@,
            msg matches Some(taken) ==> {
                &&& final(self)@ == old(self)@.after_take()
                &&& old(self)@.message() == match taken {
                    Ok(Some(bytes)) => Ok(Some(bytes_content(&bytes))),
                    Ok(None) => Ok(None),
                    Err(fault) => Err(fault),
                }
            },
    {
        if self.next_msg_fits() {
            Some(self.next_msg())
        } else {
            None
        }
    }

    /// What the buffer holds, for diagnosis: for each slot, from the release
    /// cursor forward, `None` for a gap, else the packet's raw sequence number
    /// and its place in its message.
    pub fn slot_marks(&self) -> (marks: Vec<Option<(u32, PacketLocation)>>)
        ensures
            marks@ == self@.marks(),
    {
        let mut marks: Vec<Option<(u32, PacketLocation)>> = Vec::new();
        let mut at: usize = 0;
        while at < self.buffer.len()
            invariant
                at <= self.buffer@.len(),
                marks@.len() == at,
                forall|i: int| 0 <= i < at ==> marks@[i] == slot_mark(self@.slots[i]),
            decreases self.buffer@.len() - at,
        {
            let mark: Option<(u32, PacketLocation)> = match &self.buffer[at] {
                Some(pack) => Some((pack.seq_number.as_raw(), pack.message_loc)),
                None => None,
            };
            marks.push(mark);
            at += 1;
        }
        assert(marks@ =~= self@.marks());
        marks
    }
}

} // verus!
