//! The connect exchange of the UDP tracker protocol: two fixed 16-byte
//! packets, every number big-endian.

use crate::error::TrackerError;
use rand::Rng;
use vstd::prelude::*;

verus! {

/// The constant that opens every connect request.
pub const PROTOCOL_ID: u64 = 0x41727101980;

/// The action code of a connect.
pub const ACTION_CONNECT: u32 = 0;

/// The number of bytes in a connect request, and in the answer to it.
pub const CONNECT_PACKET_SIZE: usize = 16;

/// A connect request.
#[derive(Debug, Clone, PartialEq, Eq)]
pub struct UDPConnectRequest {
    pub transaction_id: u32,
}

/// The answer to a connect request.
#[derive(Debug, Clone, PartialEq, Eq)]
pub struct UDPConnectResponse {
    pub action: u32,
    pub transaction_id: u32,
    pub connection_id: u64,
}

/// The number that the `width` bytes of `bytes` from `at` on spell, most
/// significant first.
pub open spec fn be_uint(bytes: Seq<u8>, at: int, width: nat) -> nat
    decreases width,
{
    if width == 0 {
        0
    } else {
        be_uint(bytes, at, (width - 1) as nat) * 0x100 + bytes[at + width - 1] as nat
    }
}

/// `Rng::gen` on the thread's generator: some 32-bit number.
#[verifier::external_body]
fn random_u32() -> u32 {
    rand::thread_rng().gen::<u32>()
}

/// Reads the big-endian number in the four bytes at `at`.
fn read_u32(bytes: &Vec<u8>, at: usize) -> (value: u32)
    requires
        at + 4 <= bytes.len(),
    ensures
        value == be_uint(bytes@, at as int, 4),
{
    reveal_with_fuel(be_uint, 5);
    let b0 = bytes[at] as u32;
    let b1 = bytes[at + 1] as u32;
    let b2 = bytes[at + 2] as u32;
    let b3 = bytes[at + 3] as u32;
    b0 * 0x100_0000 + b1 * 0x1_0000 + b2 * 0x100 + b3
}

/// Writes `value` into the four bytes at `at`, most significant first.
fn write_u32(bytes: &mut [u8; 16], at: usize, value: u32)
    requires
        at + 4 <= 16,
    ensures
        be_uint(final(bytes)@, at as int, 4) == value,
        forall|j: int| 0 <= j < 16 && !(at <= j < at + 4) ==> final(bytes)@[j] == old(bytes)@[j],
{
    reveal_with_fuel(be_uint, 5);
    bytes[at] = (value / 0x100_0000) as u8;
    bytes[at + 1] = (value / 0x1_0000 % 0x100) as u8;
    bytes[at + 2] = (value / 0x100 % 0x100) as u8;
    bytes[at + 3] = (value % 0x100) as u8;
}

/// The number spelled by `width` bytes depends on those bytes only.
proof fn lemma_be_uint_same(a: Seq<u8>, b: Seq<u8>, at: int, width: nat)
    requires
        forall|j: int| at <= j < at + width ==> a[j] == b[j],
    ensures
        be_uint(a, at, width) == be_uint(b, at, width),
    decreases width,
{
    if width > 0 {
        lemma_be_uint_same(a, b, at, (width - 1) as nat);
    }
}

/// A number of eight bytes is its upper four bytes times 2^32 plus its lower four.
proof fn lemma_be_uint_halves(bytes: Seq<u8>, at: int)
    ensures
        be_uint(bytes, at, 8) == be_uint(bytes, at, 4) * 0x1_0000_0000 + be_uint(bytes, at + 4, 4),
        be_uint(bytes, at, 4) < 0x1_0000_0000,
        be_uint(bytes, at + 4, 4) < 0x1_0000_0000,
{
    reveal_with_fuel(be_uint, 9);
}

impl UDPConnectRequest {
    pub fn new(transaction_id: u32) -> (request: Self)
        ensures
            request.transaction_id == transaction_id,
    {
        Self { transaction_id }
    }

    /// A connect request with a transaction id drawn at random.
    pub fn with_random_id() -> (request: Self) {
        Self::new(random_u32())
    }

    /// The 16 bytes of the request: the protocol id in eight bytes, the
    /// connect action in four, the transaction id in four.
    pub fn to_bytes(&self) -> (bytes: [u8; 16])
        ensures
            be_uint(bytes@, 0, 8) == PROTOCOL_ID,
            be_uint(bytes@, 8, 4) == ACTION_CONNECT,
            be_uint(bytes@, 12, 4) == self.transaction_id,
    {
        let mut bytes: [u8; 16] = [0u8; 16];
        write_u32(&mut bytes, 0, 0x417);
        let ghost first = bytes@;
        write_u32(&mut bytes, 4, 0x27101980);
        let ghost second = bytes@;
        write_u32(&mut bytes, 8, ACTION_CONNECT);
        let ghost third = bytes@;
        write_u32(&mut bytes, 12, self.transaction_id);
        proof {
            lemma_be_uint_same(bytes@, first, 0, 4);
            lemma_be_uint_same(bytes@, second, 4, 4);
            lemma_be_uint_same(bytes@, third, 8, 4);
            lemma_be_uint_same(second, first, 0, 4);
            lemma_be_uint_same(third, second, 0, 4);
            lemma_be_uint_same(third, second, 4, 4);
            lemma_be_uint_same(bytes@, third, 0, 4);
            lemma_be_uint_same(bytes@, third, 4, 4);
            lemma_be_uint_halves(bytes@, 0);
        }
        bytes
    }
}

impl UDPConnectResponse {
    /// Reads a response off its packet: the action in four bytes, the
    /// transaction id in four, the connection id in eight. Bytes after the
    /// sixteenth are ignored. Fails exactly where there are fewer than 16.
    pub fn from_bytes(response: Vec<u8>) -> (result: Result<Self, TrackerError>)
        ensures
            response@.len() < 16 ==> result == Err::<Self, _>(TrackerError::ShortPacket),
            response@.len() >= 16 ==> result.is_ok() && ({
                let parsed = result.unwrap();
                &&& parsed.action == be_uint(response@, 0, 4)
                &&& parsed.transaction_id == be_uint(response@, 4, 4)
                &&& parsed.connection_id == be_uint(response@, 8, 8)
            }),
    {
        if response.len() < CONNECT_PACKET_SIZE {
            return Err(TrackerError::ShortPacket);
        }
        let action = read_u32(&response, 0);
        let transaction_id = read_u32(&response, 4);
        let high = read_u32(&response, 8) as u64;
        let low = read_u32(&response, 12) as u64;
        proof {
            lemma_be_uint_halves(response@, 8);
        }
        let connection_id = high * 0x1_0000_0000 + low;
        Ok(Self { action, transaction_id, connection_id })
    }

    /// The connection id that this response grants to `request`: it must
    /// echo the transaction id and carry the connect action.
    pub fn connection_for(&self, request: &UDPConnectRequest) -> (connection_id: Option<u64>)
        ensures
            connection_id == (if self.transaction_id == request.transaction_id && self.action
                == ACTION_CONNECT {
                Some(self.connection_id)
            } else {
                None
            }),
    {
        if self.transaction_id == request.transaction_id && self.action == ACTION_CONNECT {
            Some(self.connection_id)
        } else {
            None
        }
    }
}

} // verus!
