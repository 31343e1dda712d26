//! The opcodes and the integers of the WebSocket framing.

use vstd::prelude::*;

verus! {

/// The opcode of a frame.
#[derive(Debug, Clone, Copy, PartialEq, Eq)]
pub enum OpCode {
    /// A data frame.
    Data(Data),
    /// A control frame.
    Control(Control),
}

/// The kinds of data frame.
#[derive(Debug, Clone, Copy, PartialEq, Eq)]
pub enum Data {
    /// A continuation frame.
    Continue,
    /// A text frame.
    Text,
    /// A binary frame.
    Binary,
}

/// The kinds of control frame.
#[derive(Debug, Clone, Copy, PartialEq, Eq)]
pub enum Control {
    /// A close frame.
    Close,
    /// A ping frame.
    Ping,
    /// A pong frame.
    Pong,
}

/// The number that stands for an opcode in a frame.
pub open spec fn opcode_to_code(opcode: OpCode) -> u8 {
    match opcode {
        OpCode::Data(Data::Continue) => 0,
        OpCode::Data(Data::Text) => 1,
        OpCode::Data(Data::Binary) => 2,
        OpCode::Control(Control::Close) => 8,
        OpCode::Control(Control::Ping) => 9,
        OpCode::Control(Control::Pong) => 10,
    }
}

/// The opcode that a number stands for; the other numbers are reserved.
pub open spec fn opcode_from_code(code: u8) -> Option<OpCode> {
    if code == 0 {
        Some(OpCode::Data(Data::Continue))
    } else if code == 1 {
        Some(OpCode::Data(Data::Text))
    } else if code == 2 {
        Some(OpCode::Data(Data::Binary))
    } else if code == 8 {
        Some(OpCode::Control(Control::Close))
    } else if code == 9 {
        Some(OpCode::Control(Control::Ping))
    } else if code == 10 {
        Some(OpCode::Control(Control::Pong))
    } else {
        None
    }
}

impl OpCode {
    /// The number that stands for the opcode in a frame.
    pub fn to_code(self) -> (code: u8)
        ensures
            code == opcode_to_code(self),
    {
        match self {
            OpCode::Data(Data::Continue) => 0,
            OpCode::Data(Data::Text) => 1,
            OpCode::Data(Data::Binary) => 2,
            OpCode::Control(Control::Close) => 8,
            OpCode::Control(Control::Ping) => 9,
            OpCode::Control(Control::Pong) => 10,
        }
    }

    /// The opcode that `code` stands for.
    pub fn from_code(code: u8) -> (opcode: Option<OpCode>)
        ensures
            opcode == opcode_from_code(code),
    {
        match code {
            0 => Some(OpCode::Data(Data::Continue)),
            1 => Some(OpCode::Data(Data::Text)),
            2 => Some(OpCode::Data(Data::Binary)),
            8 => Some(OpCode::Control(Control::Close)),
            9 => Some(OpCode::Control(Control::Ping)),
            10 => Some(OpCode::Control(Control::Pong)),
            _ => None,
        }
    }
}

/// The number that `bytes` are in network byte order.
pub open spec fn be_value(bytes: Seq<u8>) -> nat
    decreases bytes.len(),
{
    if bytes.len() == 0 {
        0
    } else {
        be_value(bytes.drop_last()) * 256 + bytes.last() as nat
    }
}

/// The lowest `size` bytes of `value` in network byte order.
pub open spec fn be_bytes(value: nat, size: nat) -> Seq<u8>
    decreases size,
{
    if size == 0 {
        Seq::empty()
    } else {
        be_bytes(value / 256, (size - 1) as nat).push((value % 256) as u8)
    }
}

/// The least number that does not fit in `size` bytes.
pub open spec fn be_limit(size: nat) -> nat
    decreases size,
{
    if size == 0 {
        1
    } else {
        be_limit((size - 1) as nat) * 256
    }
}

/// The limits of the two sizes in which a length can follow the second byte of
/// a frame.
pub(crate) proof fn lemma_be_limits()
    ensures
        be_limit(2) == 0x1_0000,
        be_limit(8) == 0x1_0000_0000_0000_0000,
{
    reveal_with_fuel(be_limit, 9);
}

pub(crate) proof fn lemma_be_value_bound(bytes: Seq<u8>)
    ensures
        be_value(bytes) < be_limit(bytes.len()),
    decreases bytes.len(),
{
    if bytes.len() > 0 {
        lemma_be_value_bound(bytes.drop_last());
    }
}

pub(crate) proof fn lemma_be_bytes_len(value: nat, size: nat)
    ensures
        be_bytes(value, size).len() == size,
    decreases size,
{
    if size > 0 {
        lemma_be_bytes_len(value / 256, (size - 1) as nat);
    }
}

/// A number that fits in `size` bytes is read back from them.
pub proof fn law_be_round_trip(value: nat, size: nat)
    requires
        value < be_limit(size),
    ensures
        be_bytes(value, size).len() == size,
        be_value(be_bytes(value, size)) == value,
    decreases size,
{
    if size > 0 {
        law_be_round_trip(value / 256, (size - 1) as nat);
        let high = be_bytes(value / 256, (size - 1) as nat);
        assert(be_bytes(value, size).drop_last() =~= high);
    }
}

/// Reads a number of at most eight bytes in network byte order.
pub fn read_be(bytes: &[u8]) -> (value: u64)
    requires
        bytes@.len() <= 8,
    ensures
        value == be_value(bytes@),
{
    let mut value: u64 = 0;
    let mut i: usize = 0;
    while i < bytes.len()
        invariant
            i <= bytes@.len() <= 8,
            value == be_value(bytes@.take(i as int)),
        decreases bytes@.len() - i,
    {
        let ghost next = bytes@.take(i + 1);
        assert(next.drop_last() =~= bytes@.take(i as int));
        proof {
            lemma_be_value_bound(next);
            reveal_with_fuel(be_limit, 9);
        }
        value = value * 256 + bytes[i] as u64;
        i = i + 1;
    }
    assert(bytes@.take(i as int) =~= bytes@);
    value
}

/// Appends the lowest `size` bytes of `value` in network byte order.
pub fn write_be(value: u64, size: usize, output: &mut Vec<u8>)
    requires
        size <= 8,
    ensures
        final(output)@ == old(output)@ + be_bytes(value as nat, size as nat),
    decreases size,
{
    if size > 0 {
        write_be(value / 256, size - 1, output);
        output.push((value % 256) as u8);
    }
    assert(output@ =~= old(output)@ + be_bytes(value as nat, size as nat));
}

} // verus!
