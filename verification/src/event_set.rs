//! Sets of event flags, with the bit values of Linux's `EPOLL*` constants.

use vstd::prelude::*;

verus! {

/// Bit of [`EventSet::IN`].
pub const E_IN: u32 = 0x001;

/// Bit of [`EventSet::PRIORITY`].
pub const E_PRI: u32 = 0x002;

/// Bit of [`EventSet::OUT`].
pub const E_OUT: u32 = 0x004;

/// Bit of [`EventSet::ERROR`].
pub const E_ERR: u32 = 0x008;

/// Bit of [`EventSet::HANG_UP`].
pub const E_HUP: u32 = 0x010;

/// Bit of [`EventSet::READ_HANG_UP`].
pub const E_RDHUP: u32 = 0x2000;

/// Bit of [`EventSet::EXCLUSIVE`].
pub const E_EXCLUSIVE: u32 = 0x1000_0000;

/// Bit of [`EventSet::WAKE_UP`].
pub const E_WAKEUP: u32 = 0x2000_0000;

/// Bit of [`EventSet::ONE_SHOT`].
pub const E_ONESHOT: u32 = 0x4000_0000;

/// Bit of [`EventSet::EDGE_TRIGGERED`].
pub const E_ET: u32 = 0x8000_0000;

/// The bits of all flags together.
pub const E_ALL: u32 = 0xf000_201f;

/// Whether every bit of `flag` is set in `bits`.
pub open spec fn covers(bits: u32, flag: u32) -> bool {
    bits & flag == flag
}

/// Whether no bit is set in `bits` but those of the flags.
pub open spec fn known(bits: u32) -> bool {
    bits & E_ALL == bits
}

/// A set of event flags. Bits that are no flag never occur in one.
#[derive(Clone, Copy, PartialEq, Eq, PartialOrd, Ord, Hash, Structural)]
pub struct EventSet {
    bits: u32,
}

impl View for EventSet {
    type V = u32;

    closed spec fn view(&self) -> u32 {
        self.bits
    }
}

impl EventSet {
    #[verifier::type_invariant]
    spec fn only_flags(self) -> bool {
        known(self.bits)
    }

    /// The set with these bits.
    pub closed spec fn of_bits(bits: u32) -> EventSet {
        EventSet { bits }
    }

    /// The descriptor is readable.
    #[allow(non_snake_case)]
    pub fn IN() -> (set: EventSet)
        ensures
            set@ == E_IN,
    {
        proof {
            lemma_flags_known();
        }
        EventSet { bits: E_IN }
    }

    /// The descriptor is writable.
    #[allow(non_snake_case)]
    pub fn OUT() -> (set: EventSet)
        ensures
            set@ == E_OUT,
    {
        proof {
            lemma_flags_known();
        }
        EventSet { bits: E_OUT }
    }

    /// Error condition.
    #[allow(non_snake_case)]
    pub fn ERROR() -> (set: EventSet)
        ensures
            set@ == E_ERR,
    {
        proof {
            lemma_flags_known();
        }
        EventSet { bits: E_ERR }
    }

    /// The peer shut down the read side.
    #[allow(non_snake_case)]
    pub fn READ_HANG_UP() -> (set: EventSet)
        ensures
            set@ == E_RDHUP,
    {
        proof {
            lemma_flags_known();
        }
        EventSet { bits: E_RDHUP }
    }

    /// Edge-triggered mode (`EV_CLEAR` in kqueue terms).
    #[allow(non_snake_case)]
    pub fn EDGE_TRIGGERED() -> (set: EventSet)
        ensures
            set@ == E_ET,
    {
        proof {
            lemma_flags_known();
        }
        EventSet { bits: E_ET }
    }

    /// Hang up.
    #[allow(non_snake_case)]
    pub fn HANG_UP() -> (set: EventSet)
        ensures
            set@ == E_HUP,
    {
        proof {
            lemma_flags_known();
        }
        EventSet { bits: E_HUP }
    }

    /// High-priority data.
    #[allow(non_snake_case)]
    pub fn PRIORITY() -> (set: EventSet)
        ensures
            set@ == E_PRI,
    {
        proof {
            lemma_flags_known();
        }
        EventSet { bits: E_PRI }
    }

    /// Keeps the system awake during delivery; kqueue has no use for it.
    #[allow(non_snake_case)]
    pub fn WAKE_UP() -> (set: EventSet)
        ensures
            set@ == E_WAKEUP,
    {
        proof {
            lemma_flags_known();
        }
        EventSet { bits: E_WAKEUP }
    }

    /// One-shot delivery (`EV_ONESHOT` in kqueue terms).
    #[allow(non_snake_case)]
    pub fn ONE_SHOT() -> (set: EventSet)
        ensures
            set@ == E_ONESHOT,
    {
        proof {
            lemma_flags_known();
        }
        EventSet { bits: E_ONESHOT }
    }

    /// Exclusive wake-up; accepted, though kqueue has no equivalent.
    #[allow(non_snake_case)]
    pub fn EXCLUSIVE() -> (set: EventSet)
        ensures
            set@ == E_EXCLUSIVE,
    {
        proof {
            lemma_flags_known();
        }
        EventSet { bits: E_EXCLUSIVE }
    }

    /// The set without any flag.
    pub fn empty() -> (set: EventSet)
        ensures
            set@ == 0,
    {
        proof {
            lemma_flags_known();
        }
        EventSet { bits: 0 }
    }

    /// The set of all flags.
    pub fn all() -> (set: EventSet)
        ensures
            set@ == E_ALL,
    {
        proof {
            lemma_flags_known();
        }
        EventSet { bits: E_ALL }
    }

    /// The bits of the flags in the set.
    pub fn bits(&self) -> (bits: u32)
        ensures
            bits == self@,
            known(bits),
            bits & 0xf000_201f == bits,
    {
        proof {
            use_type_invariant(self);
        }
        self.bits
    }

    /// The set with exactly these bits, if all of them are flags.
    pub fn from_bits(bits: u32) -> (set: Option<EventSet>)
        ensures
            set is Some <==> known(bits),
            set is Some <==> bits & 0xf000_201f == bits,
            set matches Some(s) ==> s@ == bits,
    {
        if bits & E_ALL == bits {
            Some(EventSet { bits })
        } else {
            None
        }
    }

    /// The set with these bits; those that are no flag are dropped.
    pub fn from_bits_truncate(bits: u32) -> (set: EventSet)
        ensures
            set@ == bits & E_ALL,
            set@ == bits & 0xf000_201f,
            known(set@),
    {
        proof {
            lemma_truncation_known(bits);
        }
        EventSet { bits: bits & E_ALL }
    }

    /// Whether the set holds no flag.
    pub fn is_empty(&self) -> (yes: bool)
        ensures
            yes == (self@ == 0),
    {
        self.bits == 0
    }

    /// Whether the set holds all flags.
    pub fn is_all(&self) -> (yes: bool)
        ensures
            yes == (self@ == E_ALL),
    {
        proof {
            use_type_invariant(self);
            lemma_all_is_greatest(self.bits);
        }
        E_ALL | self.bits == self.bits
    }

    /// Whether the two sets have a flag in common.
    pub fn intersects(&self, other: EventSet) -> (yes: bool)
        ensures
            yes == (self@ & other@ != 0),
    {
        self.bits & other.bits != 0
    }

    /// Whether every flag of `other` is in the set.
    pub fn contains(&self, other: EventSet) -> (yes: bool)
        ensures
            yes == covers(self@, other@),
            yes == (self@ & other@ == other@),
    {
        self.bits & other.bits == other.bits
    }

    /// Adds the flags of `other`.
    pub fn insert(&mut self, other: EventSet)
        ensures
            final(self)@ == old(self)@ | other@,
    {
        *self = self.union(other);
    }

    /// Takes the flags of `other` out.
    pub fn remove(&mut self, other: EventSet)
        ensures
            final(self)@ == old(self)@ & !other@,
    {
        *self = self.difference(other);
    }

    /// Adds the flags of `other` that are missing and takes the rest of them out.
    pub fn toggle(&mut self, other: EventSet)
        ensures
            final(self)@ == old(self)@ ^ other@,
    {
        *self = self.symmetric_difference(other);
    }

    /// Adds the flags of `other` if `value` holds, and takes them out otherwise.
    pub fn set(&mut self, other: EventSet, value: bool)
        ensures
            final(self)@ == if value {
                old(self)@ | other@
            } else {
                old(self)@ & !other@
            },
    {
        if value {
            self.insert(other);
        } else {
            self.remove(other);
        }
    }

    /// The flags that are in both sets.
    pub fn intersection(self, other: EventSet) -> (set: EventSet)
        ensures
            set@ == self@ & other@,
    {
        proof {
            use_type_invariant(&self);
            use_type_invariant(&other);
            lemma_known_closed(self.bits, other.bits);
        }
        EventSet { bits: self.bits & other.bits }
    }

    /// The flags that are in one of the sets, or in both.
    pub fn union(self, other: EventSet) -> (set: EventSet)
        ensures
            set@ == self@ | other@,
    {
        proof {
            use_type_invariant(&self);
            use_type_invariant(&other);
            lemma_known_closed(self.bits, other.bits);
        }
        EventSet { bits: self.bits | other.bits }
    }

    /// The flags of `self` that are not in `other`.
    pub fn difference(self, other: EventSet) -> (set: EventSet)
        ensures
            set@ == self@ & !other@,
    {
        proof {
            use_type_invariant(&self);
            use_type_invariant(&other);
            lemma_known_closed(self.bits, other.bits);
        }
        EventSet { bits: self.bits & !other.bits }
    }

    /// The flags that are in exactly one of the sets.
    pub fn symmetric_difference(self, other: EventSet) -> (set: EventSet)
        ensures
            set@ == self@ ^ other@,
    {
        proof {
            use_type_invariant(&self);
            use_type_invariant(&other);
            lemma_known_closed(self.bits, other.bits);
        }
        EventSet { bits: self.bits ^ other.bits }
    }

    /// The flags that are not in the set.
    pub fn complement(self) -> (set: EventSet)
        ensures
            set@ == !self@ & E_ALL,
    {
        EventSet::from_bits_truncate(!self.bits)
    }
}

impl vstd::std_specs::ops::BitOrSpecImpl for EventSet {
    open spec fn obeys_bitor_spec() -> bool {
        true
    }

    open spec fn bitor_req(self, rhs: EventSet) -> bool {
        true
    }

    open spec fn bitor_spec(self, rhs: EventSet) -> EventSet {
        EventSet::of_bits(self@ | rhs@)
    }
}

impl core::ops::BitOr for EventSet {
    type Output = EventSet;

    fn bitor(self, rhs: EventSet) -> (set: EventSet)
        ensures
            set@ == self@ | rhs@,
    {
        self.union(rhs)
    }
}

impl vstd::std_specs::ops::BitAndSpecImpl for EventSet {
    open spec fn obeys_bitand_spec() -> bool {
        true
    }

    open spec fn bitand_req(self, rhs: EventSet) -> bool {
        true
    }

    open spec fn bitand_spec(self, rhs: EventSet) -> EventSet {
        EventSet::of_bits(self@ & rhs@)
    }
}

impl core::ops::BitAnd for EventSet {
    type Output = EventSet;

    fn bitand(self, rhs: EventSet) -> (set: EventSet)
        ensures
            set@ == self@ & rhs@,
    {
        self.intersection(rhs)
    }
}

impl vstd::std_specs::ops::BitXorSpecImpl for EventSet {
    open spec fn obeys_bitxor_spec() -> bool {
        true
    }

    open spec fn bitxor_req(self, rhs: EventSet) -> bool {
        true
    }

    open spec fn bitxor_spec(self, rhs: EventSet) -> EventSet {
        EventSet::of_bits(self@ ^ rhs@)
    }
}

impl core::ops::BitXor for EventSet {
    type Output = EventSet;

    fn bitxor(self, rhs: EventSet) -> (set: EventSet)
        ensures
            set@ == self@ ^ rhs@,
    {
        self.symmetric_difference(rhs)
    }
}

impl vstd::std_specs::ops::SubSpecImpl for EventSet {
    open spec fn obeys_sub_spec() -> bool {
        true
    }

    open spec fn sub_req(self, rhs: EventSet) -> bool {
        true
    }

    open spec fn sub_spec(self, rhs: EventSet) -> EventSet {
        EventSet::of_bits(self@ & !rhs@)
    }
}

impl core::ops::Sub for EventSet {
    type Output = EventSet;

    fn sub(self, rhs: EventSet) -> (set: EventSet)
        ensures
            set@ == self@ & !rhs@,
    {
        self.difference(rhs)
    }
}

impl vstd::std_specs::ops::NotSpecImpl for EventSet {
    open spec fn obeys_not_spec() -> bool {
        true
    }

    open spec fn not_req(self) -> bool {
        true
    }

    open spec fn not_spec(self) -> EventSet {
        EventSet::of_bits(!self@ & E_ALL)
    }
}

impl core::ops::Not for EventSet {
    type Output = EventSet;

    fn not(self) -> (set: EventSet)
        ensures
            set@ == !self@ & E_ALL,
    {
        self.complement()
    }
}

impl core::ops::BitOrAssign for EventSet {
    fn bitor_assign(&mut self, rhs: EventSet)
        ensures
            final(self)@ == old(self)@ | rhs@,
    {
        self.insert(rhs);
    }
}

impl core::ops::BitAndAssign for EventSet {
    fn bitand_assign(&mut self, rhs: EventSet)
        ensures
            final(self)@ == old(self)@ & rhs@,
    {
        *self = self.intersection(rhs);
    }
}

impl core::ops::BitXorAssign for EventSet {
    fn bitxor_assign(&mut self, rhs: EventSet)
        ensures
            final(self)@ == old(self)@ ^ rhs@,
    {
        self.toggle(rhs);
    }
}

impl core::ops::SubAssign for EventSet {
    fn sub_assign(&mut self, rhs: EventSet)
        ensures
            final(self)@ == old(self)@ & !rhs@,
    {
        self.remove(rhs);
    }
}

/// A set is its bits: two sets with the same bits are the same.
pub proof fn law_bits_are_the_set(a: EventSet, b: EventSet)
    ensures
        a@ == b@ <==> a == b,
{
}

/// The set with these bits has these bits, and every set is the set with its bits.
pub proof fn law_of_bits(bits: u32, set: EventSet)
    ensures
        EventSet::of_bits(bits)@ == bits,
        EventSet::of_bits(set@) == set,
{
}

proof fn lemma_flags_known()
    by (bit_vector)
    ensures
        known(0),
        known(E_ALL),
        known(E_IN),
        known(E_OUT),
        known(E_ERR),
        known(E_RDHUP),
        known(E_ET),
        known(E_HUP),
        known(E_PRI),
        known(E_WAKEUP),
        known(E_ONESHOT),
        known(E_EXCLUSIVE),
{
}

proof fn lemma_truncation_known(bits: u32)
    by (bit_vector)
    ensures
        known(bits & E_ALL),
{
}

proof fn lemma_all_is_greatest(bits: u32)
    by (bit_vector)
    requires
        known(bits),
    ensures
        E_ALL | bits == bits <==> bits == E_ALL,
{
}

proof fn lemma_known_closed(a: u32, b: u32)
    by (bit_vector)
    requires
        known(a),
        known(b),
    ensures
        known(a & b),
        known(a | b),
        known(a ^ b),
        known(a & !b),
{
}

/// The flags have no bit in common, and together they are [`E_ALL`].
pub proof fn law_flags_partition_all()
    by (bit_vector)
    ensures
        E_IN | E_OUT | E_ERR | E_RDHUP | E_ET | E_HUP | E_PRI | E_WAKEUP | E_ONESHOT | E_EXCLUSIVE
            == E_ALL,
        E_IN + E_OUT + E_ERR + E_RDHUP + E_ET + E_HUP + E_PRI + E_WAKEUP + E_ONESHOT + E_EXCLUSIVE
            == E_ALL,
{
}

/// The flags have the bit values of Linux's `EPOLL*` constants, and there are no others.
pub proof fn law_flags_are_those_of_linux(bits: u32)
    ensures
        E_IN == 0x001,
        E_PRI == 0x002,
        E_OUT == 0x004,
        E_ERR == 0x008,
        E_HUP == 0x010,
        E_RDHUP == 0x2000,
        E_EXCLUSIVE == 0x1000_0000,
        E_WAKEUP == 0x2000_0000,
        E_ONESHOT == 0x4000_0000,
        E_ET == 0x8000_0000,
        E_ALL == 0xf000_201f,
        known(bits) <==> bits & !0xf000_201fu32 == 0,
{
    assert(bits & 0xf000_201fu32 == bits <==> bits & !0xf000_201fu32 == 0) by (bit_vector);
}

/// A mask covers a flag exactly if no bit of the flag is missing from it, and so it covers
/// two flags together exactly if it covers each.
pub proof fn law_covers_all_bits(bits: u32, a: u32, b: u32)
    ensures
        covers(bits, a) <==> a & !bits == 0,
        covers(bits, a | b) <==> covers(bits, a) && covers(bits, b),
{
    assert(bits & a == a <==> a & !bits == 0) by (bit_vector);
    assert(bits & (a | b) == (a | b) <==> (bits & a == a && bits & b == b)) by (bit_vector);
}

/// Dropping what is no flag drops no flag: one is in the truncated bits exactly if its bit
/// was set before, and nothing but flags is left.
pub proof fn law_truncation_keeps_flags(bits: u32, flag: u32)
    by (bit_vector)
    requires
        known(flag),
    ensures
        covers(bits & E_ALL, flag) <==> covers(bits, flag),
        known(bits & E_ALL),
{
}

/// Two sets together hold a single flag exactly if one of them does; what they share holds
/// it if both do; the first without the second holds it if only the first does.
pub proof fn law_set_algebra(a: u32, b: u32, flag: u32, position: u32)
    by (bit_vector)
    requires
        position < 32,
        flag == 1u32 << position,
    ensures
        covers(a | b, flag) <==> covers(a, flag) || covers(b, flag),
        covers(a & b, flag) <==> covers(a, flag) && covers(b, flag),
        covers(a & !b, flag) <==> covers(a, flag) && !covers(b, flag),
        covers(a ^ b, flag) <==> covers(a, flag) != covers(b, flag),
        known(flag) ==> (covers(!a & E_ALL, flag) <==> !covers(a, flag)),
{
}

} // verus!
