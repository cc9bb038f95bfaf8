//! Sets of epoll event flags.

use vstd::prelude::*;

verus! {

/// The bit of [`EventSet::IN`].
pub const EPOLLIN: u32 = 0x0000_0001;

/// The bit of [`EventSet::OUT`].
pub const EPOLLOUT: u32 = 0x0000_0004;

/// The bit of [`EventSet::ERROR`].
pub const EPOLLERR: u32 = 0x0000_0008;

/// The bit of [`EventSet::READ_HANG_UP`].
pub const EPOLLRDHUP: u32 = 0x0000_2000;

/// The bit of [`EventSet::EDGE_TRIGGERED`].
pub const EPOLLET: u32 = 0x8000_0000;

/// The bit of [`EventSet::HANG_UP`].
pub const EPOLLHUP: u32 = 0x0000_0010;

/// The bit of [`EventSet::PRIORITY`].
pub const EPOLLPRI: u32 = 0x0000_0002;

/// The bit of [`EventSet::WAKE_UP`].
pub const EPOLLWAKEUP: u32 = 0x2000_0000;

/// The bit of [`EventSet::ONE_SHOT`].
pub const EPOLLONESHOT: u32 = 0x4000_0000;

/// The bit of [`EventSet::EXCLUSIVE`].
pub const EPOLLEXCLUSIVE: u32 = 0x1000_0000;

/// Every bit that stands for a flag.
pub const ALL_BITS: u32 = 0xF000_201F;

/// Whether every bit of `bits` stands for a flag.
pub open spec fn known(bits: u32) -> bool {
    bits & !ALL_BITS == 0
}

/// Whether the mask `bits` holds every bit of `flag`.
pub open spec fn holds(bits: u32, flag: u32) -> bool {
    bits & flag == flag
}

/// A text of flag names with `name` behind it, where the mask holds `flag`.
pub open spec fn with_name(text: Seq<char>, bits: u32, flag: u32, name: Seq<char>) -> Seq<char> {
    if !holds(bits, flag) {
        text
    } else if text.len() == 0 {
        name
    } else {
        text + " | "@ + name
    }
}

/// The names of the flags of a mask, with a bar between them.
pub open spec fn flag_names(bits: u32) -> Seq<char> {
    let text = Seq::empty();
    let text = with_name(text, bits, EPOLLIN, "IN"@);
    let text = with_name(text, bits, EPOLLOUT, "OUT"@);
    let text = with_name(text, bits, EPOLLERR, "ERROR"@);
    let text = with_name(text, bits, EPOLLRDHUP, "READ_HANG_UP"@);
    let text = with_name(text, bits, EPOLLET, "EDGE_TRIGGERED"@);
    let text = with_name(text, bits, EPOLLHUP, "HANG_UP"@);
    let text = with_name(text, bits, EPOLLPRI, "PRIORITY"@);
    let text = with_name(text, bits, EPOLLWAKEUP, "WAKE_UP"@);
    let text = with_name(text, bits, EPOLLONESHOT, "ONE_SHOT"@);
    let text = with_name(text, bits, EPOLLEXCLUSIVE, "EXCLUSIVE"@);
    text
}

/// The text that describes the set with this mask.
pub open spec fn mask_text(bits: u32) -> Seq<char> {
    if bits == 0 {
        "(empty)"@
    } else {
        flag_names(bits)
    }
}

/// Appends `name` to a text of flag names, where the mask holds `flag`.
fn append_name(text: &mut String, bits: u32, flag: u32, name: &str)
    ensures
        final(text)@ == with_name(old(text)@, bits, flag, name@),
{
    if bits & flag == flag {
        if !text.as_str().is_empty() {
            text.append(" | ");
        }
        text.append(name);
        proof {
            if old(text)@.len() == 0 {
                assert(text@ =~= name@);
            }
        }
    }
}

/// The type of events we can monitor a file descriptor for.
///
/// Provides the same flags as the Linux epoll API, mapped to kqueue equivalents.
/// The view of a set is its bit mask. No bit is ever set that stands for no flag.
#[derive(Clone, Copy, PartialEq, Eq, PartialOrd, Ord, Hash, Structural)]
pub struct EventSet {
    bits: u32,
}

impl View for EventSet {
    type V = u32;

    closed spec fn view(&self) -> u32 {
        self.bits
    }
}

impl EventSet {
    /// What holds of every set that a program can get hold of.
    pub open spec fn well_formed(self) -> bool {
        known(self@)
    }

    #[verifier::type_invariant]
    spec fn only_flags(self) -> bool {
        known(self.bits)
    }

    /// The associated file descriptor is available for read operations.
    #[allow(non_snake_case)]
    pub fn IN() -> (set: EventSet)
        ensures
            set@ == EPOLLIN,
    {
        proof {
            lemma_flags_are_known();
        }
        EventSet { bits: EPOLLIN }
    }

    /// The associated file descriptor is available for write operations.
    #[allow(non_snake_case)]
    pub fn OUT() -> (set: EventSet)
        ensures
            set@ == EPOLLOUT,
    {
        proof {
            lemma_flags_are_known();
        }
        EventSet { bits: EPOLLOUT }
    }

    /// Error condition happened on the associated file descriptor.
    #[allow(non_snake_case)]
    pub fn ERROR() -> (set: EventSet)
        ensures
            set@ == EPOLLERR,
    {
        proof {
            lemma_flags_are_known();
        }
        EventSet { bits: EPOLLERR }
    }

    /// This can be used to detect peer shutdown when using Edge Triggered monitoring.
    /// Note: kqueue always reports end of file; this is mapped from that.
    #[allow(non_snake_case)]
    pub fn READ_HANG_UP() -> (set: EventSet)
        ensures
            set@ == EPOLLRDHUP,
    {
        proof {
            lemma_flags_are_known();
        }
        EventSet { bits: EPOLLRDHUP }
    }

    /// Sets the Edge Triggered behavior for the associated file descriptor.
    #[allow(non_snake_case)]
    pub fn EDGE_TRIGGERED() -> (set: EventSet)
        ensures
            set@ == EPOLLET,
    {
        proof {
            lemma_flags_are_known();
        }
        EventSet { bits: EPOLLET }
    }

    /// Hang up happened on the associated file descriptor.
    #[allow(non_snake_case)]
    pub fn HANG_UP() -> (set: EventSet)
        ensures
            set@ == EPOLLHUP,
    {
        proof {
            lemma_flags_are_known();
        }
        EventSet { bits: EPOLLHUP }
    }

    /// There is an exceptional condition on that file descriptor.
    #[allow(non_snake_case)]
    pub fn PRIORITY() -> (set: EventSet)
        ensures
            set@ == EPOLLPRI,
    {
        proof {
            lemma_flags_are_known();
        }
        EventSet { bits: EPOLLPRI }
    }

    /// The event is considered as being "processed".
    #[allow(non_snake_case)]
    pub fn WAKE_UP() -> (set: EventSet)
        ensures
            set@ == EPOLLWAKEUP,
    {
        proof {
            lemma_flags_are_known();
        }
        EventSet { bits: EPOLLWAKEUP }
    }

    /// Sets the one-shot behavior for the associated file descriptor.
    #[allow(non_snake_case)]
    pub fn ONE_SHOT() -> (set: EventSet)
        ensures
            set@ == EPOLLONESHOT,
    {
        proof {
            lemma_flags_are_known();
        }
        EventSet { bits: EPOLLONESHOT }
    }

    /// Sets an exclusive wake up mode.
    #[allow(non_snake_case)]
    pub fn EXCLUSIVE() -> (set: EventSet)
        ensures
            set@ == EPOLLEXCLUSIVE,
    {
        proof {
            lemma_flags_are_known();
        }
        EventSet { bits: EPOLLEXCLUSIVE }
    }

    /// Returns an empty set of flags.
    pub fn empty() -> (set: EventSet)
        ensures
            set@ == 0,
    {
        proof {
            assert(known(0)) by (bit_vector);
        }
        EventSet { bits: 0 }
    }

    /// Returns the set of all flags.
    pub fn all() -> (set: EventSet)
        ensures
            set@ == ALL_BITS,
    {
        proof {
            assert(known(ALL_BITS)) by (bit_vector);
        }
        EventSet { bits: ALL_BITS }
    }

    /// Returns the bit mask of the set, in which every bit stands for a flag.
    pub fn bits(&self) -> (bits: u32)
        ensures
            bits == self@,
            self.well_formed(),
    {
        proof {
            use_type_invariant(&*self);
        }
        self.bits
    }

    /// Returns the set with the given bit mask, unless a bit of it stands for no flag.
    pub fn from_bits(bits: u32) -> (set: Option<EventSet>)
        ensures
            set is Some <==> known(bits),
            set matches Some(s) ==> s@ == bits,
    {
        if bits & !EventSet::all().bits() == 0 {
            Some(EventSet { bits })
        } else {
            None
        }
    }

    /// Returns the set with the flags of the given bit mask, without the bits that stand for
    /// no flag.
    pub fn from_bits_truncate(bits: u32) -> (set: EventSet)
        ensures
            set@ == bits & ALL_BITS,
    {
        proof {
            lemma_part_is_known(bits);
        }
        EventSet { bits: bits & ALL_BITS }
    }

    /// Returns whether the set has no flag.
    pub fn is_empty(&self) -> (empty: bool)
        ensures
            empty <==> self@ == 0,
    {
        self.bits == 0
    }

    /// Returns whether the set has every flag.
    pub fn is_all(&self) -> (all: bool)
        ensures
            all <==> self@ == ALL_BITS,
    {
        proof {
            use_type_invariant(&*self);
            let bits = self.bits;
            assert(ALL_BITS | bits == bits <==> bits == ALL_BITS) by (bit_vector)
                requires
                    known(bits),
            ;
        }
        ALL_BITS | self.bits == self.bits
    }

    /// Returns whether the set and `other` have a flag in common.
    pub fn intersects(&self, other: EventSet) -> (common: bool)
        ensures
            common <==> self@ & other@ != 0,
    {
        self.bits & other.bits != 0
    }

    /// Returns whether every flag of `other` is in the set.
    pub fn contains(&self, other: EventSet) -> (contained: bool)
        ensures
            contained <==> holds(self@, other@),
    {
        self.bits & other.bits == other.bits
    }

    /// Adds the flags of `other` to the set.
    pub fn insert(&mut self, other: EventSet)
        ensures
            final(self)@ == old(self)@ | other@,
    {
        proof {
            use_type_invariant(&*self);
            use_type_invariant(&other);
            lemma_union_is_known(self.bits, other.bits);
        }
        self.bits = self.bits | other.bits;
    }

    /// Takes the flags of `other` out of the set.
    pub fn remove(&mut self, other: EventSet)
        ensures
            final(self)@ == old(self)@ & !other@,
    {
        proof {
            use_type_invariant(&*self);
            lemma_combinations_are_known(self.bits, other.bits);
        }
        self.bits = self.bits & !other.bits;
    }

    /// Adds the flags of `other` that are not in the set, and takes out those that are.
    pub fn toggle(&mut self, other: EventSet)
        ensures
            final(self)@ == old(self)@ ^ other@,
    {
        proof {
            use_type_invariant(&*self);
            use_type_invariant(&other);
            lemma_toggled_is_known(self.bits, other.bits);
        }
        self.bits = self.bits ^ other.bits;
    }

    /// Adds the flags of `other` to the set, or takes them out of it.
    pub fn set(&mut self, other: EventSet, value: bool)
        ensures
            final(self)@ == if value {
                old(self)@ | other@
            } else {
                old(self)@ & !other@
            },
    {
        if value {
            self.insert(other);
        } else {
            self.remove(other);
        }
    }

    /// Returns a text that describes the set: the names of its flags, with a bar between them.
    pub fn debug_text(&self) -> (text: String)
        ensures
            text@ == mask_text(self@),
    {
        if self.bits == 0 {
            return String::from_str("(empty)");
        }
        let mut text = String::new();
        append_name(&mut text, self.bits, EPOLLIN, "IN");
        append_name(&mut text, self.bits, EPOLLOUT, "OUT");
        append_name(&mut text, self.bits, EPOLLERR, "ERROR");
        append_name(&mut text, self.bits, EPOLLRDHUP, "READ_HANG_UP");
        append_name(&mut text, self.bits, EPOLLET, "EDGE_TRIGGERED");
        append_name(&mut text, self.bits, EPOLLHUP, "HANG_UP");
        append_name(&mut text, self.bits, EPOLLPRI, "PRIORITY");
        append_name(&mut text, self.bits, EPOLLWAKEUP, "WAKE_UP");
        append_name(&mut text, self.bits, EPOLLONESHOT, "ONE_SHOT");
        append_name(&mut text, self.bits, EPOLLEXCLUSIVE, "EXCLUSIVE");
        text
    }
}

impl core::ops::BitOr for EventSet {
    type Output = EventSet;

    /// Returns the set with the flags of both sets.
    fn bitor(self, other: EventSet) -> (set: EventSet)
        ensures
            set@ == self@ | other@,
    {
        proof {
            use_type_invariant(&self);
            use_type_invariant(&other);
            lemma_union_is_known(self.bits, other.bits);
        }
        EventSet { bits: self.bits | other.bits }
    }
}

impl vstd::std_specs::ops::BitOrSpecImpl for EventSet {
    open spec fn obeys_bitor_spec() -> bool {
        true
    }

    open spec fn bitor_req(self, other: EventSet) -> bool {
        true
    }

    closed spec fn bitor_spec(self, other: EventSet) -> EventSet {
        EventSet { bits: self.bits | other.bits }
    }
}

impl core::ops::BitAnd for EventSet {
    type Output = EventSet;

    /// Returns the set with the flags that are in both sets.
    fn bitand(self, other: EventSet) -> (set: EventSet)
        ensures
            set@ == self@ & other@,
    {
        proof {
            use_type_invariant(&self);
            lemma_combinations_are_known(self.bits, other.bits);
        }
        EventSet { bits: self.bits & other.bits }
    }
}

impl vstd::std_specs::ops::BitAndSpecImpl for EventSet {
    open spec fn obeys_bitand_spec() -> bool {
        true
    }

    open spec fn bitand_req(self, other: EventSet) -> bool {
        true
    }

    closed spec fn bitand_spec(self, other: EventSet) -> EventSet {
        EventSet { bits: self.bits & other.bits }
    }
}

impl core::ops::Sub for EventSet {
    type Output = EventSet;

    /// Returns the set with the flags of this set that are not in `other`.
    fn sub(self, other: EventSet) -> (set: EventSet)
        ensures
            set@ == self@ & !other@,
    {
        proof {
            use_type_invariant(&self);
            lemma_combinations_are_known(self.bits, other.bits);
        }
        EventSet { bits: self.bits & !other.bits }
    }
}

impl vstd::std_specs::ops::SubSpecImpl for EventSet {
    open spec fn obeys_sub_spec() -> bool {
        true
    }

    open spec fn sub_req(self, other: EventSet) -> bool {
        true
    }

    closed spec fn sub_spec(self, other: EventSet) -> EventSet {
        EventSet { bits: self.bits & !other.bits }
    }
}

impl core::ops::BitXor for EventSet {
    type Output = EventSet;

    /// Returns the set with the flags that are in one of the sets and not in the other.
    fn bitxor(self, other: EventSet) -> (set: EventSet)
        ensures
            set@ == self@ ^ other@,
    {
        proof {
            use_type_invariant(&self);
            use_type_invariant(&other);
            lemma_toggled_is_known(self.bits, other.bits);
        }
        EventSet { bits: self.bits ^ other.bits }
    }
}

impl vstd::std_specs::ops::BitXorSpecImpl for EventSet {
    open spec fn obeys_bitxor_spec() -> bool {
        true
    }

    open spec fn bitxor_req(self, other: EventSet) -> bool {
        true
    }

    closed spec fn bitxor_spec(self, other: EventSet) -> EventSet {
        EventSet { bits: self.bits ^ other.bits }
    }
}

impl core::ops::Not for EventSet {
    type Output = EventSet;

    /// Returns the set with the flags that are not in this set.
    fn not(self) -> (set: EventSet)
        ensures
            set@ == !self@ & ALL_BITS,
    {
        proof {
            lemma_part_is_known(!self.bits);
        }
        EventSet { bits: !self.bits & ALL_BITS }
    }
}

impl vstd::std_specs::ops::NotSpecImpl for EventSet {
    open spec fn obeys_not_spec() -> bool {
        true
    }

    open spec fn not_req(self) -> bool {
        true
    }

    closed spec fn not_spec(self) -> EventSet {
        EventSet { bits: !self.bits & ALL_BITS }
    }
}

/// `ALL_BITS` holds the bit of every flag.
proof fn lemma_flags_are_known()
    ensures
        known(EPOLLIN),
        known(EPOLLOUT),
        known(EPOLLERR),
        known(EPOLLRDHUP),
        known(EPOLLET),
        known(EPOLLHUP),
        known(EPOLLPRI),
        known(EPOLLWAKEUP),
        known(EPOLLONESHOT),
        known(EPOLLEXCLUSIVE),
{
    assert(known(EPOLLIN)
        && known(EPOLLOUT)
        && known(EPOLLERR)
        && known(EPOLLRDHUP)
        && known(EPOLLET)
        && known(EPOLLHUP)
        && known(EPOLLPRI)
        && known(EPOLLWAKEUP)
        && known(EPOLLONESHOT)
        && known(EPOLLEXCLUSIVE)) by (bit_vector);
}

proof fn lemma_union_is_known(a: u32, b: u32)
    requires
        known(a),
        known(b),
    ensures
        known(a | b),
{
    assert(known(a | b)) by (bit_vector)
        requires
            known(a),
            known(b),
    ;
}

proof fn lemma_combinations_are_known(a: u32, b: u32)
    requires
        known(a),
    ensures
        known(a & b),
        known(a & !b),
{
    assert(known(a & b) && known(a & !b)) by (bit_vector)
        requires
            known(a),
    ;
}

proof fn lemma_toggled_is_known(a: u32, b: u32)
    requires
        known(a),
        known(b),
    ensures
        known(a ^ b),
{
    assert(known(a ^ b)) by (bit_vector)
        requires
            known(a),
            known(b),
    ;
}

proof fn lemma_part_is_known(bits: u32)
    ensures
        known(bits & ALL_BITS),
{
    assert(known(bits & ALL_BITS)) by (bit_vector);
}

/// A set is determined by its mask.
pub proof fn law_mask_determines_set(a: EventSet, b: EventSet)
    requires
        a@ == b@,
    ensures
        a == b,
{
}

/// The union of the bits of all flags.
pub open spec fn flag_bits() -> u32 {
    EPOLLIN | EPOLLOUT | EPOLLERR | EPOLLRDHUP | EPOLLET | EPOLLHUP | EPOLLPRI | EPOLLWAKEUP
        | EPOLLONESHOT | EPOLLEXCLUSIVE
}

/// A mask is known exactly when each bit of it is the bit of a flag.
pub proof fn law_known_bits_are_the_flags(bits: u32)
    ensures
        known(bits) <==> bits == bits & flag_bits(),
{
    assert(known(bits) <==> bits == bits & flag_bits()) by (bit_vector);
}

/// The union of two sets contains each of them, and a third set that contains both
/// contains the union.
pub proof fn law_union_is_least(a: u32, b: u32, c: u32)
    ensures
        holds(a | b, a),
        holds(a | b, b),
        holds(c, a) && holds(c, b) ==> holds(c, a | b),
{
    assert((a | b) & a == a && (a | b) & b == b && (c & a == a && c & b == b ==> c & (a | b)
        == (a | b))) by (bit_vector);
}

/// A set and its complement have no flag in common and together have every flag.
pub proof fn law_complement(bits: u32)
    requires
        known(bits),
    ensures
        bits & (!bits & ALL_BITS) == 0,
        bits | (!bits & ALL_BITS) == ALL_BITS,
        !(!bits & ALL_BITS) & ALL_BITS == bits,
{
    assert(bits & (!bits & ALL_BITS) == 0 && bits | (!bits & ALL_BITS) == ALL_BITS && !(!bits
        & ALL_BITS) & ALL_BITS == bits) by (bit_vector)
        requires
            known(bits),
    ;
}

/// To toggle flags twice changes nothing, and a flag that is removed is no longer there.
pub proof fn law_toggle_and_remove(bits: u32, other: u32)
    ensures
        (bits ^ other) ^ other == bits,
        (bits & !other) & other == 0,
{
    assert((bits ^ other) ^ other == bits && (bits & !other) & other == 0) by (bit_vector);
}

/// The flags have the bits of the Linux API.
pub proof fn law_flag_values()
    ensures
        EPOLLIN == 0x1,
        EPOLLPRI == 0x2,
        EPOLLOUT == 0x4,
        EPOLLERR == 0x8,
        EPOLLHUP == 0x10,
        EPOLLRDHUP == 0x2000,
        EPOLLEXCLUSIVE == 0x1000_0000,
        EPOLLWAKEUP == 0x2000_0000,
        EPOLLONESHOT == 0x4000_0000,
        EPOLLET == 0x8000_0000,
{
}

/// A set contains another exactly when no bit of the other is missing from it.
pub proof fn law_contains_all_or_misses_one(a: u32, b: u32)
    ensures
        holds(a, b) <==> b & !a == 0,
{
    assert(a & b == b <==> b & !a == 0) by (bit_vector);
}

/// The bits of the flags and their names, in the order in which they are listed.
pub open spec fn flag_table() -> Seq<(u32, Seq<char>)> {
    seq![
        (EPOLLIN, "IN"@),
        (EPOLLOUT, "OUT"@),
        (EPOLLERR, "ERROR"@),
        (EPOLLRDHUP, "READ_HANG_UP"@),
        (EPOLLET, "EDGE_TRIGGERED"@),
        (EPOLLHUP, "HANG_UP"@),
        (EPOLLPRI, "PRIORITY"@),
        (EPOLLWAKEUP, "WAKE_UP"@),
        (EPOLLONESHOT, "ONE_SHOT"@),
        (EPOLLEXCLUSIVE, "EXCLUSIVE"@),
    ]
}

/// The names of those of the first `n` flags of the table whose bit is in the mask.
pub open spec fn names_held(bits: u32, n: nat) -> Seq<Seq<char>>
    decreases n,
{
    if n == 0 {
        Seq::empty()
    } else {
        let (flag, name) = flag_table()[n - 1];
        let before = names_held(bits, (n - 1) as nat);
        if bits & flag != 0 {
            before.push(name)
        } else {
            before
        }
    }
}

/// The names one behind the other, with a bar between each two.
pub open spec fn joined(names: Seq<Seq<char>>) -> Seq<char>
    decreases names.len(),
{
    if names.len() == 0 {
        Seq::empty()
    } else if names.len() == 1 {
        names[0]
    } else {
        joined(names.drop_last()) + " | "@ + names.last()
    }
}

/// A text with one more name is the text of one more name.
proof fn lemma_one_more_name(bits: u32, n: nat, text: Seq<char>)
    requires
        n < 10,
        text == joined(names_held(bits, n)),
        text.len() == 0 <==> names_held(bits, n).len() == 0,
    ensures
        ({
            let (flag, name) = flag_table()[n as int];
            let more = with_name(text, bits, flag, name);
            more == joined(names_held(bits, n + 1)) && (more.len() == 0 <==> names_held(
                bits,
                n + 1,
            ).len() == 0)
        }),
{
    reveal_strlit("IN");
    reveal_strlit("OUT");
    reveal_strlit("ERROR");
    reveal_strlit("READ_HANG_UP");
    reveal_strlit("EDGE_TRIGGERED");
    reveal_strlit("HANG_UP");
    reveal_strlit("PRIORITY");
    reveal_strlit("WAKE_UP");
    reveal_strlit("ONE_SHOT");
    reveal_strlit("EXCLUSIVE");
    let (flag, name) = flag_table()[n as int];
    assert(bits & flag == flag <==> bits & flag != 0) by (bit_vector)
        requires
            flag == EPOLLIN || flag == EPOLLOUT || flag == EPOLLERR || flag == EPOLLRDHUP || flag
                == EPOLLET || flag == EPOLLHUP || flag == EPOLLPRI || flag == EPOLLWAKEUP || flag
                == EPOLLONESHOT || flag == EPOLLEXCLUSIVE,
    ;
    let before = names_held(bits, n);
    if bits & flag != 0 {
        assert(before.push(name).drop_last() =~= before);
    }
}

/// The text of a set is the names of the flags whose bits are in its mask, each once and no
/// other, with a bar between each two, and says so where there is none.
pub proof fn law_text_lists_the_flags(bits: u32)
    ensures
        bits == 0 ==> mask_text(bits) == "(empty)"@,
        bits != 0 ==> mask_text(bits) == joined(names_held(bits, 10)),
{
    let text = Seq::<char>::empty();
    lemma_one_more_name(bits, 0, text);
    let text = with_name(text, bits, EPOLLIN, "IN"@);
    lemma_one_more_name(bits, 1, text);
    let text = with_name(text, bits, EPOLLOUT, "OUT"@);
    lemma_one_more_name(bits, 2, text);
    let text = with_name(text, bits, EPOLLERR, "ERROR"@);
    lemma_one_more_name(bits, 3, text);
    let text = with_name(text, bits, EPOLLRDHUP, "READ_HANG_UP"@);
    lemma_one_more_name(bits, 4, text);
    let text = with_name(text, bits, EPOLLET, "EDGE_TRIGGERED"@);
    lemma_one_more_name(bits, 5, text);
    let text = with_name(text, bits, EPOLLHUP, "HANG_UP"@);
    lemma_one_more_name(bits, 6, text);
    let text = with_name(text, bits, EPOLLPRI, "PRIORITY"@);
    lemma_one_more_name(bits, 7, text);
    let text = with_name(text, bits, EPOLLWAKEUP, "WAKE_UP"@);
    lemma_one_more_name(bits, 8, text);
    let text = with_name(text, bits, EPOLLONESHOT, "ONE_SHOT"@);
    lemma_one_more_name(bits, 9, text);
}

} // verus!
