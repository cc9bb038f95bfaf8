//! What the machine that the program is built for decides.

use vstd::endian::{endianness, Endian};
use vstd::prelude::*;

verus! {

/// The order in which the bytes of a number lie in memory.
#[derive(Clone, Copy, Debug, PartialEq, Eq, Structural)]
pub enum ByteOrder {
    /// The lowest byte comes first.
    Little,
    /// The highest byte comes first.
    Big,
}

/// The bytes of `v`, the lowest first.
pub open spec fn bytes_up(v: u64) -> Seq<u8> {
    seq![
        v as u8,
        (v >> 8) as u8,
        (v >> 16) as u8,
        (v >> 24) as u8,
        (v >> 32) as u8,
        (v >> 40) as u8,
        (v >> 48) as u8,
        (v >> 56) as u8,
    ]
}

/// The number with the eight bytes `s`, the lowest first.
pub open spec fn number_up(s: Seq<u8>) -> u64 {
    s[0] as u64 | (s[1] as u64) << 8 | (s[2] as u64) << 16 | (s[3] as u64) << 24 | (s[4] as u64)
        << 32 | (s[5] as u64) << 40 | (s[6] as u64) << 48 | (s[7] as u64) << 56
}

impl ByteOrder {
    /// The bytes of `v` in this order.
    pub open spec fn bytes(self, v: u64) -> Seq<u8> {
        match self {
            ByteOrder::Little => bytes_up(v),
            ByteOrder::Big => bytes_up(v).reverse(),
        }
    }

    /// The number with the eight bytes `s` in this order.
    pub open spec fn number(self, s: Seq<u8>) -> u64 {
        match self {
            ByteOrder::Little => number_up(s),
            ByteOrder::Big => number_up(s.reverse()),
        }
    }

    /// Returns the bytes of `v` in this order.
    pub fn to_bytes(self, v: u64) -> (bytes: [u8; 8])
        ensures
            bytes@ == self.bytes(v),
    {
        let b0: u8 = v as u8;
        let b1: u8 = (v >> 8) as u8;
        let b2: u8 = (v >> 16) as u8;
        let b3: u8 = (v >> 24) as u8;
        let b4: u8 = (v >> 32) as u8;
        let b5: u8 = (v >> 40) as u8;
        let b6: u8 = (v >> 48) as u8;
        let b7: u8 = (v >> 56) as u8;
        let bytes = match self {
            ByteOrder::Little => [b0, b1, b2, b3, b4, b5, b6, b7],
            ByteOrder::Big => [b7, b6, b5, b4, b3, b2, b1, b0],
        };
        assert(bytes@ =~= self.bytes(v));
        bytes
    }

    /// Returns the number with the given bytes in this order.
    pub fn to_number(self, bytes: [u8; 8]) -> (v: u64)
        ensures
            v == self.number(bytes@),
    {
        let b = match self {
            ByteOrder::Little => bytes,
            ByteOrder::Big => [
                bytes[7],
                bytes[6],
                bytes[5],
                bytes[4],
                bytes[3],
                bytes[2],
                bytes[1],
                bytes[0],
            ],
        };
        proof {
            if self is Big {
                assert(b@ =~= bytes@.reverse());
            }
        }
        b[0] as u64 | (b[1] as u64) << 8 | (b[2] as u64) << 16 | (b[3] as u64) << 24 | (b[4] as u64)
            << 32 | (b[5] as u64) << 40 | (b[6] as u64) << 48 | (b[7] as u64) << 56
    }

    /// Returns the byte order of the machine.
    ///
    /// Which of the two orders it is, the machine decides.
    fn native() -> (order: ByteOrder)
        ensures
            order == machine().order,
    {
        proof {
            assert(1u64 as u8 == 1 && (1u64 >> 56) as u8 == 0) by (bit_vector);
        }
        ByteOrder::of_one(to_ne_bytes(1))
    }

    /// Returns the order in which `bytes` are the bytes of the number one.
    pub fn of_one(bytes: [u8; 8]) -> (order: ByteOrder)
        requires
            bytes@ == ByteOrder::Little.bytes(1) || bytes@ == ByteOrder::Big.bytes(1),
        ensures
            bytes@ == order.bytes(1),
            order is Little <==> bytes@[0] == 1,
    {
        proof {
            assert(1u64 as u8 == 1 && (1u64 >> 56) as u8 == 0) by (bit_vector);
        }
        if bytes[0] == 1 {
            ByteOrder::Little
        } else {
            ByteOrder::Big
        }
    }
}

/// Calls `u64::to_ne_bytes`, which returns the bytes of a number in the order in which the
/// machine keeps them in memory: the lowest first or the highest first. The machine decides
/// which, and decides the same for every number and every call.
#[verifier::external_body]
fn to_ne_bytes(v: u64) -> (bytes: [u8; 8])
    ensures
        bytes@ == ByteOrder::Little.bytes(v) || bytes@ == ByteOrder::Big.bytes(v),
        bytes@ == machine().order.bytes(v),
{
    v.to_ne_bytes()
}

/// A number can be read back from its bytes.
pub proof fn law_number_of_bytes(order: ByteOrder, v: u64)
    ensures
        order.bytes(v).len() == 8,
        order.number(order.bytes(v)) == v,
{
    let s = bytes_up(v);
    assert(number_up(s) == v) by {
        assert(v as u8 as u64 | ((v >> 8) as u8 as u64) << 8 | ((v >> 16) as u8 as u64) << 16 | ((v
            >> 24) as u8 as u64) << 24 | ((v >> 32) as u8 as u64) << 32 | ((v >> 40) as u8 as u64)
            << 40 | ((v >> 48) as u8 as u64) << 48 | ((v >> 56) as u8 as u64) << 56 == v)
            by (bit_vector);
    }
    assert(s.reverse().reverse() =~= s);
}

/// The bytes of a number are its digits to the base 256, the lowest digit first where the
/// order is little and last where it is big.
pub proof fn law_bytes_are_digits(v: u64)
    ensures
        ({
            let (low, high) = (ByteOrder::Little.bytes(v), ByteOrder::Big.bytes(v));
            &&& low.len() == 8 && high.len() == 8
            &&& low[0] == v % 0x100 && high[7] == v % 0x100
            &&& low[1] == v / 0x100 % 0x100 && high[6] == v / 0x100 % 0x100
            &&& low[2] == v / 0x1_0000 % 0x100 && high[5] == v / 0x1_0000 % 0x100
            &&& low[3] == v / 0x100_0000 % 0x100 && high[4] == v / 0x100_0000 % 0x100
            &&& low[4] == v / 0x1_0000_0000 % 0x100 && high[3] == v / 0x1_0000_0000 % 0x100
            &&& low[5] == v / 0x100_0000_0000 % 0x100 && high[2] == v / 0x100_0000_0000 % 0x100
            &&& low[6] == v / 0x1_0000_0000_0000 % 0x100 && high[1] == v / 0x1_0000_0000_0000
                % 0x100
            &&& low[7] == v / 0x100_0000_0000_0000 && high[0] == v / 0x100_0000_0000_0000
        }),
{
    assert(v as u8 == v % 0x100 && (v >> 8) as u8 == v / 0x100 % 0x100 && (v >> 16) as u8 == v
        / 0x1_0000 % 0x100 && (v >> 24) as u8 == v / 0x100_0000 % 0x100 && (v >> 32) as u8 == v
        / 0x1_0000_0000 % 0x100 && (v >> 40) as u8 == v / 0x100_0000_0000 % 0x100 && (v >> 48)
        as u8 == v / 0x1_0000_0000_0000 % 0x100 && (v >> 56) as u8 == v / 0x100_0000_0000_0000)
        by (bit_vector);
}

/// Eight bytes are the bytes of the number that is read from them.
pub proof fn law_bytes_of_number(order: ByteOrder, s: Seq<u8>)
    requires
        s.len() == 8,
    ensures
        order.bytes(order.number(s)) == s,
{
    let t = match order {
        ByteOrder::Little => s,
        ByteOrder::Big => s.reverse(),
    };
    let v = number_up(t);
    let (b0, b1, b2, b3) = (t[0], t[1], t[2], t[3]);
    let (b4, b5, b6, b7) = (t[4], t[5], t[6], t[7]);
    assert(v as u8 == b0 && (v >> 8) as u8 == b1 && (v >> 16) as u8 == b2 && (v >> 24) as u8 == b3
        && (v >> 32) as u8 == b4 && (v >> 40) as u8 == b5 && (v >> 48) as u8 == b6 && (v >> 56)
        as u8 == b7) by (bit_vector)
        requires
            v == b0 as u64 | (b1 as u64) << 8 | (b2 as u64) << 16 | (b3 as u64) << 24 | (b4 as u64)
                << 32 | (b5 as u64) << 40 | (b6 as u64) << 48 | (b7 as u64) << 56,
    ;
    assert(bytes_up(v) =~= t);
    assert(t.reverse().reverse() =~= t);
    assert(s.reverse().reverse() =~= s);
}

/// Whether a number is the status flag of a descriptor that does not block on some system: a
/// single bit, 4 on macOS.
pub open spec fn is_nonblock_flag(flag: i32) -> bool {
    ||| flag == 0x4
    ||| flag == 0x8
    ||| flag == 0x10
    ||| flag == 0x80
    ||| flag == 0x800
    ||| flag == 0x4000
    ||| flag == 0x4_0000
}

/// Whether a number is the flag of a descriptor that is closed when a program is executed, on
/// some system: a single bit, 1 on macOS.
pub open spec fn is_cloexec_flag(flag: i32) -> bool {
    flag == 1 || flag == 0x100_0000
}

/// What the machine and its system headers decide.
#[derive(Clone, Copy, Debug, PartialEq, Eq)]
pub struct Host {
    /// The status flag of a descriptor that does not block.
    pub nonblock: i32,
    /// The flag of a descriptor that is closed when a program is executed.
    pub cloexec: i32,
    /// The order of the bytes of a number.
    pub order: ByteOrder,
}

impl Host {
    /// What holds of every machine.
    pub open spec fn well_formed(self) -> bool {
        &&& is_nonblock_flag(self.nonblock)
        &&& is_cloexec_flag(self.cloexec)
    }

    /// Returns what the machine that the program is built for decides.
    pub fn current() -> (host: Host)
        ensures
            host.well_formed(),
            host == machine(),
    {
        Host { nonblock: o_nonblock(), cloexec: fd_cloexec(), order: ByteOrder::native() }
    }
}

/// The machine that the program is built for: one host, the same throughout. Its byte order is
/// that of the hardware. Which of the possible flags it has is left open.
pub closed spec fn machine() -> Host {
    Host {
        nonblock: choose|flag: i32| is_nonblock_flag(flag),
        cloexec: choose|flag: i32| is_cloexec_flag(flag),
        order: match endianness() {
            Endian::Little => ByteOrder::Little,
            Endian::Big => ByteOrder::Big,
        },
    }
}

/// The machine has flags that a machine can have, and the byte order of the hardware.
pub proof fn law_machine()
    ensures
        machine().well_formed(),
        machine().order is Little <==> endianness() is Little,
        machine().order is Big <==> endianness() is Big,
{
    assert(is_nonblock_flag(0x4));
    assert(is_cloexec_flag(1));
}

/// Reads `libc::O_NONBLOCK`, the status flag of a descriptor that does not block. Its value
/// differs between systems; on each it is one of the single bits of `is_nonblock_flag`. It is
/// a constant, so that every call on a machine returns the same.
#[verifier::external_body]
fn o_nonblock() -> (flag: i32)
    ensures
        is_nonblock_flag(flag),
        flag == machine().nonblock,
{
    libc::O_NONBLOCK
}

/// Reads `libc::FD_CLOEXEC`, the flag of a descriptor that is closed when a program is
/// executed. It is 1 on every system but one, Redox, where it is 0x1000000. It is a constant,
/// so that every call on a machine returns the same.
#[verifier::external_body]
fn fd_cloexec() -> (flag: i32)
    ensures
        is_cloexec_flag(flag),
        flag == machine().cloexec,
{
    libc::FD_CLOEXEC
}

} // verus!
