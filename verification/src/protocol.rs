//! Wire framing: opcodes, payload lengths and the big-endian duration field.

use byteorder::{BigEndian, ByteOrder};
use vstd::prelude::*;

verus! {

/// Size in bytes of one filler buffer. Both peers must use the same value:
/// the stream carries no length field, so the opcode alone frames a chunk.
pub const BUFFER_SIZE: usize = 16384;

/// Length in bytes of the duration that follows a streaming request.
pub const DURATION_LEN: usize = 8;

/// Opcode of one data chunk; a filler buffer follows.
pub const OP_DATA: u8 = 0;

/// Opcode of a streaming request; a big-endian millisecond count follows.
pub const OP_REQUEST: u8 = 1;

/// Opcode of the end-of-test marker.
pub const OP_END: u8 = 2;

/// Opcode of a ping, and of the answer to one.
pub const OP_PING: u8 = 3;

/// Opcode of a graceful disconnect.
pub const OP_DISCONNECT: u8 = 255;

/// What an opcode byte announces.
#[derive(Clone, Copy, Debug, PartialEq, Eq, Structural)]
pub enum Command {
    /// One filler buffer follows.
    Data,
    /// A duration follows: stream data for that many milliseconds.
    Request,
    /// End of a streamed test.
    EndOfTest,
    /// Ping; the receiver answers with the same opcode.
    Ping,
    /// The peer asks to end the connection.
    Disconnect,
    /// Any other byte; carries no payload and is ignored.
    Other(u8),
}

impl Command {
    /// `Other` holds only bytes that no named command uses.
    pub open spec fn wf(self) -> bool {
        match self {
            Command::Other(b) => b != OP_DATA && b != OP_REQUEST && b != OP_END && b != OP_PING
                && b != OP_DISCONNECT,
            _ => true,
        }
    }

    /// The command that an opcode byte stands for.
    pub open spec fn spec_from_opcode(op: u8) -> Command {
        if op == OP_DATA {
            Command::Data
        } else if op == OP_REQUEST {
            Command::Request
        } else if op == OP_END {
            Command::EndOfTest
        } else if op == OP_PING {
            Command::Ping
        } else if op == OP_DISCONNECT {
            Command::Disconnect
        } else {
            Command::Other(op)
        }
    }

    /// The byte that announces this command on the wire.
    pub open spec fn spec_opcode(self) -> u8 {
        match self {
            Command::Data => OP_DATA,
            Command::Request => OP_REQUEST,
            Command::EndOfTest => OP_END,
            Command::Ping => OP_PING,
            Command::Disconnect => OP_DISCONNECT,
            Command::Other(b) => b,
        }
    }

    /// Number of payload bytes that follow the opcode.
    pub open spec fn spec_payload_len(self) -> nat {
        match self {
            Command::Data => BUFFER_SIZE as nat,
            Command::Request => DURATION_LEN as nat,
            _ => 0,
        }
    }

    /// Classifies an opcode byte. Every byte is some command.
    pub fn from_opcode(op: u8) -> (c: Command)
        ensures
            c == Command::spec_from_opcode(op),
            c.wf(),
    {
        if op == OP_DATA {
            Command::Data
        } else if op == OP_REQUEST {
            Command::Request
        } else if op == OP_END {
            Command::EndOfTest
        } else if op == OP_PING {
            Command::Ping
        } else if op == OP_DISCONNECT {
            Command::Disconnect
        } else {
            Command::Other(op)
        }
    }

    /// The opcode byte of this command.
    pub fn opcode(self) -> (op: u8)
        ensures
            op == self.spec_opcode(),
    {
        match self {
            Command::Data => OP_DATA,
            Command::Request => OP_REQUEST,
            Command::EndOfTest => OP_END,
            Command::Ping => OP_PING,
            Command::Disconnect => OP_DISCONNECT,
            Command::Other(b) => b,
        }
    }

    /// How many payload bytes follow this command's opcode.
    pub fn payload_len(self) -> (n: usize)
        ensures
            n == self.spec_payload_len(),
    {
        match self {
            Command::Data => BUFFER_SIZE,
            Command::Request => DURATION_LEN,
            _ => 0,
        }
    }
}

/// Number of payload bytes that follow an opcode byte.
pub open spec fn spec_payload_len(op: u8) -> nat {
    Command::spec_from_opcode(op).spec_payload_len()
}

/// Number of payload bytes that follow an opcode byte: a filler buffer after
/// a data chunk, eight bytes after a request, nothing after anything else.
pub fn payload_len(op: u8) -> (n: usize)
    ensures
        n == spec_payload_len(op),
        n == (if op == OP_DATA {
            BUFFER_SIZE as int
        } else if op == OP_REQUEST {
            DURATION_LEN as int
        } else {
            0
        }),
{
    Command::from_opcode(op).payload_len()
}

/// The opcode of a command classifies back to that command, and the command
/// of a byte has that byte as its opcode.
pub proof fn law_opcode_round_trip(op: u8, c: Command)
    ensures
        Command::spec_from_opcode(op).spec_opcode() == op,
        c.wf() ==> Command::spec_from_opcode(c.spec_opcode()) == c,
{
}

/// The number that eight bytes spell, most significant byte first.
pub open spec fn be_u64(b: Seq<u8>) -> int
    recommends
        b.len() == 8,
{
    b[0] * 0x100_0000_0000_0000 + b[1] * 0x1_0000_0000_0000 + b[2] * 0x100_0000_0000 + b[3]
        * 0x1_0000_0000 + b[4] * 0x100_0000 + b[5] * 0x1_0000 + b[6] * 0x100 + b[7]
}

/// `byteorder::BigEndian::read_u64`, which reads the first eight bytes of a
/// slice as a big-endian number and panics on a shorter slice.
#[verifier::external_body]
fn read_be_u64(bytes: &[u8]) -> (v: u64)
    requires
        bytes@.len() >= 8,
    ensures
        v == be_u64(bytes@.subrange(0, 8)),
{
    BigEndian::read_u64(bytes)
}

/// `byteorder::BigEndian::write_u64` on a fresh eight-byte buffer: the buffer
/// then holds the number's big-endian bytes.
#[verifier::external_body]
fn write_be_u64(n: u64) -> (out: Vec<u8>)
    ensures
        out@.len() == 8,
        be_u64(out@) == n,
{
    let mut buf = vec![0u8; 8];
    BigEndian::write_u64(&mut buf, n);
    buf
}

/// Reads the payload of a streaming request: the duration in milliseconds.
/// A payload of any length but eight is refused.
pub fn decode_duration(payload: &[u8]) -> (r: Option<u64>)
    ensures
        payload@.len() == DURATION_LEN <==> r.is_some(),
        r matches Some(ms) ==> ms == be_u64(payload@),
{
    if payload.len() == DURATION_LEN {
        assert(payload@.subrange(0, 8) =~= payload@);
        Some(read_be_u64(payload))
    } else {
        None
    }
}

/// The payload of a streaming request for `ms` milliseconds.
pub fn encode_duration(ms: u64) -> (out: Vec<u8>)
    ensures
        out@.len() == DURATION_LEN,
        be_u64(out@) == ms,
{
    write_be_u64(ms)
}

/// Two eight-byte fields that spell the same number are the same bytes.
pub proof fn law_be_u64_injective(a: Seq<u8>, b: Seq<u8>)
    requires
        a.len() == 8,
        b.len() == 8,
        be_u64(a) == be_u64(b),
    ensures
        a == b,
{
    let a1: int = a[0] * 0x100 + a[1];
    let b1: int = b[0] * 0x100 + b[1];
    let a2: int = a1 * 0x100 + a[2];
    let b2: int = b1 * 0x100 + b[2];
    let a3: int = a2 * 0x100 + a[3];
    let b3: int = b2 * 0x100 + b[3];
    let a4: int = a3 * 0x100 + a[4];
    let b4: int = b3 * 0x100 + b[4];
    let a5: int = a4 * 0x100 + a[5];
    let b5: int = b4 * 0x100 + b[5];
    let a6: int = a5 * 0x100 + a[6];
    let b6: int = b5 * 0x100 + b[6];
    assert(be_u64(a) == a6 * 0x100 + a[7]);
    assert(be_u64(b) == b6 * 0x100 + b[7]);
    assert(a6 == b6 && a[7] == b[7]);
    assert(a5 == b5 && a[6] == b[6]);
    assert(a4 == b4 && a[5] == b[5]);
    assert(a3 == b3 && a[4] == b[4]);
    assert(a2 == b2 && a[3] == b[3]);
    assert(a1 == b1 && a[2] == b[2]);
    assert(a[0] == b[0] && a[1] == b[1]);
    assert(a =~= b);
}

/// The bytes of a frame: the opcode, then the payload.
pub open spec fn spec_frame(op: u8, payload: Seq<u8>) -> Seq<u8> {
    seq![op] + payload
}

/// Builds the frame of an opcode and its payload. A payload of another
/// length than the opcode announces would break the framing, and is refused.
pub fn frame(op: u8, payload: &[u8]) -> (out: Option<Vec<u8>>)
    ensures
        out.is_some() <==> payload@.len() == spec_payload_len(op),
        out matches Some(bytes) ==> bytes@ == spec_frame(op, payload@),
{
    if payload.len() == payload_len(op) {
        let mut bytes: Vec<u8> = Vec::new();
        bytes.push(op);
        bytes.extend_from_slice(payload);
        assert(bytes@ =~= spec_frame(op, payload@));
        Some(bytes)
    } else {
        None
    }
}

/// A frame that is an opcode and nothing more: an end marker, a ping, a
/// disconnect. For an opcode that announces a payload there is none.
pub fn bare_frame(op: u8) -> (out: Option<Vec<u8>>)
    ensures
        out.is_some() <==> spec_payload_len(op) == 0,
        out matches Some(bytes) ==> bytes@ == seq![op],
{
    if payload_len(op) == 0 {
        let mut bytes: Vec<u8> = Vec::new();
        bytes.push(op);
        assert(bytes@ =~= seq![op]);
        Some(bytes)
    } else {
        None
    }
}

/// The filler buffer: `BUFFER_SIZE` bytes, all zero.
pub open spec fn spec_filler() -> Seq<u8> {
    Seq::new(BUFFER_SIZE as nat, |i: int| 0u8)
}

/// One data chunk on the wire: its opcode and a filler buffer of zeros.
pub fn data_frame() -> (out: Vec<u8>)
    ensures
        out@ == spec_frame(OP_DATA, spec_filler()),
        out@.len() == 1 + BUFFER_SIZE,
{
    let mut bytes: Vec<u8> = Vec::new();
    bytes.push(OP_DATA);
    let mut i: usize = 0;
    while i < BUFFER_SIZE
        invariant
            i <= BUFFER_SIZE,
            bytes@.len() == 1 + i,
            bytes@[0] == OP_DATA,
            forall|j: int| 1 <= j < bytes@.len() ==> bytes@[j] == 0u8,
        decreases BUFFER_SIZE - i,
    {
        bytes.push(0u8);
        i = i + 1;
    }
    assert(bytes@ =~= spec_frame(OP_DATA, spec_filler()));
    bytes
}

/// A streaming request on the wire: its opcode and the duration in
/// milliseconds, most significant byte first.
pub fn request_frame(duration_ms: u64) -> (out: Vec<u8>)
    ensures
        out@.len() == 1 + DURATION_LEN,
        out@[0] == OP_REQUEST,
        be_u64(out@.subrange(1, 1 + DURATION_LEN as int)) == duration_ms,
{
    let payload: Vec<u8> = encode_duration(duration_ms);
    let mut bytes: Vec<u8> = Vec::new();
    bytes.push(OP_REQUEST);
    bytes.extend_from_slice(payload.as_slice());
    assert(bytes@.subrange(1, 1 + DURATION_LEN as int) =~= payload@);
    bytes
}

} // verus!
