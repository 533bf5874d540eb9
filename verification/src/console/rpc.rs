use vstd::prelude::*;

verus! {

/// One round of CRC-8 with polynomial 0x07: shift left, and fold the
/// polynomial in when the top bit falls out.
pub open spec fn crc8_round(v: u8) -> u8 {
    if v & 0x80u8 != 0 {
        ((v << 1u8) ^ 0x07u8) as u8
    } else {
        (v << 1u8) as u8
    }
}

/// Eight rounds: what one byte does to the register.
pub open spec fn crc8_byte(v: u8) -> u8 {
    crc8_round(crc8_round(crc8_round(crc8_round(crc8_round(crc8_round(crc8_round(crc8_round(v))))))))
}

/// CRC-8/SMBUS (polynomial 0x07, initial value 0, no reflection, no final
/// xor) of `bytes`.
pub open spec fn crc8_smbus(bytes: Seq<u8>) -> u8
    decreases bytes.len(),
{
    if bytes.len() == 0 {
        0
    } else {
        crc8_byte(crc8_smbus(bytes.drop_last()) ^ bytes.last())
    }
}

/// `crc::Crc::<u8>::new(&crc::CRC_8_SMBUS).checksum`: the crc crate's
/// table-driven CRC-8/SMBUS, which is `crc8_smbus`.
#[verifier::external_body]
fn checksum_smbus(bytes: &[u8]) -> (r: u8)
    ensures
        r == crc8_smbus(bytes@),
{
    crc::Crc::<u8>::new(&crc::CRC_8_SMBUS).checksum(bytes)
}

/// The checksum that guards requests and responses.
pub fn rpc_checksum(bytes: &[u8]) -> (r: u8)
    ensures
        r == crc8_smbus(bytes@),
{
    checksum_smbus(bytes)
}

/// The id byte that asks the server to reset.
pub const RESET_REQUEST_ID: u8 = 255;

/// What the server answers a reset with.
pub const RESET_REPLY_MARK: u8 = 0x69;

/// A request frame as the server takes it in: the id, the archived request,
/// and a checksum over both.
pub open spec fn spec_frame_intact(frame: Seq<u8>) -> bool {
    frame.len() >= 1 && crc8_smbus(frame.drop_last()) == frame.last()
}

/// Whether the checksum at the end of `frame` matches the bytes before it.
pub fn frame_intact(frame: &[u8]) -> (r: bool)
    ensures
        r == spec_frame_intact(frame@),
{
    if frame.len() == 0 {
        return false;
    }
    let body = vstd::slice::slice_subrange(frame, 0, frame.len() - 1);
    assert(body@ =~= frame@.drop_last());
    rpc_checksum(body) == frame[frame.len() - 1]
}

/// Appends the checksum of what `frame` holds, sealing it.
pub fn seal_frame(frame: &mut Vec<u8>)
    ensures
        final(frame)@ == old(frame)@.push(crc8_smbus(old(frame)@)),
{
    let c = rpc_checksum(frame.as_slice());
    frame.push(c);
}

/// A sealed frame passes the check, and a frame whose last byte was
/// changed does not.
pub proof fn lemma_sealed_frame_intact(body: Seq<u8>, b: u8)
    ensures
        spec_frame_intact(body.push(crc8_smbus(body))),
        b != crc8_smbus(body) ==> !spec_frame_intact(body.push(b)),
{
    assert(body.push(crc8_smbus(body)).drop_last() =~= body);
    assert(body.push(b).drop_last() =~= body);
}

/// Whether `reply` is the answer to a reset request.
pub fn is_reset_reply(reply: [u8; 2]) -> (r: bool)
    ensures
        r == (reply[0] == RESET_REQUEST_ID && reply[1] == RESET_REPLY_MARK),
{
    reply[0] == RESET_REQUEST_ID && reply[1] == RESET_REPLY_MARK
}

/// Why a remote call failed, the serial error type being `E`.
pub enum RpcClientError<E> {
    Timeout,
    UnexpectedEof,
    Serial(E),
}

impl<E> RpcClientError<E> {
    /// The error for a failed exact read: the serial error it carries, or
    /// an early end of input when it carries none.
    pub fn from_read_exact(serial_error: Option<E>) -> (r: Self)
        ensures
            match serial_error {
                Some(e) => r == RpcClientError::<E>::Serial(e),
                None => r is UnexpectedEof,
            },
    {
        match serial_error {
            Some(e) => RpcClientError::Serial(e),
            None => RpcClientError::UnexpectedEof,
        }
    }
}

} // verus!
