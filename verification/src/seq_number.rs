//! Sequence numbers: 31-bit counters that wrap around.

use vstd::prelude::*;

verus! {

/// How many sequence numbers there are. Raw values lie below this.
pub const MODULUS: u32 = 0x8000_0000;

/// The farthest ahead of a cursor that a sequence number may lie and still
/// count as being in front of it.
pub const HALF_RANGE: u32 = 0x4000_0000;

/// The number of steps forward from `from` that reach `to`, wrapping around.
pub open spec fn seq_distance(from: nat, to: nat) -> nat {
    ((to - from) % (MODULUS as int)) as nat
}

/// The sequence number `steps` forward of `from`, wrapping around.
pub open spec fn seq_add(from: nat, steps: nat) -> nat {
    (from + steps) % (MODULUS as nat)
}

/// Whether `a` lies behind `b` in window order: stepping forward from `b`
/// reaches `a` only by going more than half way round.
pub open spec fn seq_precedes(a: nat, b: nat) -> bool {
    seq_distance(b, a) > HALF_RANGE
}

/// Stepping forward by the distance between two sequence numbers leads from
/// the one to the other.
pub proof fn lemma_add_distance(from: nat, to: nat)
    requires
        from < MODULUS,
        to < MODULUS,
    ensures
        seq_distance(from, to) < MODULUS,
        seq_add(from, seq_distance(from, to)) == to,
{
}

/// The distance covered by stepping forward is the number of steps, as long
/// as the steps do not go all the way round.
pub proof fn lemma_distance_add(from: nat, steps: nat)
    requires
        from < MODULUS,
        steps < MODULUS,
    ensures
        seq_add(from, steps) < MODULUS,
        seq_distance(from, seq_add(from, steps)) == steps,
{
}

/// Stepping forward twice is stepping forward by the sum.
pub proof fn lemma_add_add(from: nat, first: nat, second: nat)
    ensures
        seq_add(seq_add(from, first), second) == seq_add(from, first + second),
{
    vstd::arithmetic::div_mod::lemma_add_mod_noop(
        (from + first) as int,
        second as int,
        MODULUS as int,
    );
    vstd::arithmetic::div_mod::lemma_add_mod_noop(
        ((from + first) % (MODULUS as nat)) as int,
        second as int,
        MODULUS as int,
    );
    vstd::arithmetic::div_mod::lemma_mod_twice((from + first) as int, MODULUS as int);
}

/// A position in the packet stream: a counter of 31 bits that wraps around.
#[derive(Clone, Copy, Debug, PartialEq, Eq, Structural)]
pub struct SeqNumber(u32);

impl View for SeqNumber {
    type V = nat;

    closed spec fn view(&self) -> nat {
        self.0 as nat
    }
}

impl SeqNumber {
    /// Every sequence number lies below the modulus.
    #[verifier::type_invariant]
    pub open spec fn in_range(self) -> bool {
        self@ < MODULUS
    }

    /// The sequence number with the given raw value, reduced to 31 bits.
    pub fn new(raw: u32) -> (s: SeqNumber)
        ensures
            s@ == raw % MODULUS,
            s.in_range(),
    {
        SeqNumber(raw % MODULUS)
    }

    /// The raw value.
    pub fn as_raw(&self) -> (raw: u32)
        ensures
            raw == self@,
            raw < MODULUS,
    {
        proof {
            use_type_invariant(self);
        }
        self.0
    }

    /// The number of steps forward from `origin` that reach this number.
    pub fn distance_from(&self, origin: SeqNumber) -> (steps: u32)
        ensures
            steps == seq_distance(origin@, self@),
            steps < MODULUS,
    {
        proof {
            use_type_invariant(self);
            use_type_invariant(&origin);
        }
        if self.0 >= origin.0 {
            self.0 - origin.0
        } else {
            MODULUS - origin.0 + self.0
        }
    }

    /// Whether this number lies behind `other` in window order.
    pub fn precedes(&self, other: SeqNumber) -> (behind: bool)
        ensures
            behind == seq_precedes(self@, other@),
    {
        self.distance_from(other) > HALF_RANGE
    }

    /// The sequence number `steps` forward of this one.
    pub fn advance(&self, steps: u32) -> (s: SeqNumber)
        ensures
            s@ == seq_add(self@, steps as nat),
            s.in_range(),
    {
        proof {
            use_type_invariant(self);
        }
        let reduced: u32 = steps % MODULUS;
        let room: u32 = MODULUS - self.0;
        if reduced >= room {
            SeqNumber(reduced - room)
        } else {
            SeqNumber(self.0 + reduced)
        }
    }
}

} // verus!
