//! Wire primitives shared by both transports: status bytes, the XOR
//! checksum and the frames that carry commands, addresses and data.

use vstd::prelude::*;

verus! {

/// Positive acknowledgement.
pub const ACK: u8 = 0x79;

/// Negative acknowledgement.
pub const NAK: u8 = 0x1F;

/// Reported while the device is busy or resetting.
pub const BUSY: u8 = 0xFF;

/// Reported when a protection change or erase was already carried out.
pub const ALREADY_DONE: u8 = 0xA5;

/// The byte that opens a UART session.
pub const UART_SYNC: u8 = 0x7F;

/// The byte that opens every SPI frame.
pub const SPI_SYNC: u8 = 0x5A;

/// XOR of every byte of `s`; zero for an empty sequence.
pub open spec fn xor_fold(s: Seq<u8>) -> u8
    decreases s.len(),
{
    if s.len() == 0 {
        0
    } else {
        xor_fold(s.drop_last()) ^ s.last()
    }
}

/// The frame that introduces a command: the opcode and its complement.
pub open spec fn command_bytes(opcode: u8) -> Seq<u8> {
    seq![opcode, opcode ^ 0xFF]
}

/// The four bytes of `address`, most significant first.
pub open spec fn be_bytes(address: u32) -> Seq<u8> {
    seq![(address >> 24u32) as u8, (address >> 16u32) as u8, (address >> 8u32) as u8, address as u8]
}

/// An address frame: the big-endian address followed by its checksum.
pub open spec fn address_bytes(address: u32) -> Seq<u8> {
    be_bytes(address).push(xor_fold(be_bytes(address)))
}

/// A byte count as the protocol sends it: `size - 1` and its complement.
pub open spec fn size_bytes(size: u8) -> Seq<u8>
    recommends
        size >= 1,
{
    seq![(size - 1) as u8, ((size - 1) as u8) ^ 0xFF]
}

/// A UART data frame: the length byte `len - 1`, the data, and the checksum
/// of everything before it.
pub open spec fn uart_data_bytes(data: Seq<u8>) -> Seq<u8> {
    let body = seq![(data.len() - 1) as u8] + data;
    body.push(xor_fold(body))
}

/// An SPI data block: as the UART frame, but with a `0xFF` pad byte after
/// data of odd length, which the checksum covers too.
pub open spec fn spi_data_bytes(data: Seq<u8>) -> Seq<u8> {
    let head = seq![(data.len() - 1) as u8] + data;
    let body = if data.len() % 2 == 1 {
        head.push(0xFF)
    } else {
        head
    };
    body.push(xor_fold(body))
}

/// The bytes of `data`, from the first to the last, XOR-folded into one.
pub fn calculate_checksum(data: &[u8]) -> (r: u8)
    ensures
        r == xor_fold(data@),
{
    let mut acc: u8 = 0;
    let mut i: usize = 0;
    while i < data.len()
        invariant
            i <= data@.len(),
            acc == xor_fold(data@.take(i as int)),
        decreases data@.len() - i,
    {
        assert(data@.take(i + 1).drop_last() == data@.take(i as int));
        acc = acc ^ data[i];
        i = i + 1;
    }
    assert(data@.take(data@.len() as int) == data@);
    acc
}

/// The two-byte frame for `opcode`.
pub fn command_frame(opcode: u8) -> (r: Vec<u8>)
    ensures
        r@ == command_bytes(opcode),
{
    let r = vec![opcode, opcode ^ 0xFF];
    assert(r@ == command_bytes(opcode));
    r
}

/// The five-byte frame for `address`.
pub fn address_frame(address: u32) -> (r: Vec<u8>)
    ensures
        r@ == address_bytes(address),
{
    let mut r = vec![
        (address >> 24u32) as u8,
        (address >> 16u32) as u8,
        (address >> 8u32) as u8,
        address as u8,
    ];
    assert(r@ == be_bytes(address));
    let c = calculate_checksum(r.as_slice());
    r.push(c);
    r
}

/// The two-byte frame that gives a byte count of `size`.
pub fn size_frame(size: u8) -> (r: Vec<u8>)
    requires
        size >= 1,
    ensures
        r@ == size_bytes(size),
{
    let n: u8 = size - 1;
    let r = vec![n, n ^ 0xFF];
    assert(r@ == size_bytes(size));
    r
}

/// The frame that carries `data` to the device over UART.
pub fn uart_data_frame(data: &[u8]) -> (r: Vec<u8>)
    requires
        1 <= data@.len() <= 256,
    ensures
        r@ == uart_data_bytes(data@),
{
    let mut r: Vec<u8> = vec![(data.len() - 1) as u8];
    let mut i: usize = 0;
    while i < data.len()
        invariant
            i <= data@.len(),
            r@ == seq![(data@.len() - 1) as u8] + data@.take(i as int),
        decreases data@.len() - i,
    {
        r.push(data[i]);
        i = i + 1;
        assert(r@ == seq![(data@.len() - 1) as u8] + data@.take(i as int));
    }
    assert(data@.take(data@.len() as int) == data@);
    let c = calculate_checksum(r.as_slice());
    r.push(c);
    r
}

/// The block that carries `data` to the device over SPI.
pub fn spi_data_block(data: &[u8]) -> (r: Vec<u8>)
    requires
        1 <= data@.len() <= 256,
    ensures
        r@ == spi_data_bytes(data@),
{
    let mut r: Vec<u8> = vec![(data.len() - 1) as u8];
    let mut i: usize = 0;
    while i < data.len()
        invariant
            i <= data@.len(),
            r@ == seq![(data@.len() - 1) as u8] + data@.take(i as int),
        decreases data@.len() - i,
    {
        r.push(data[i]);
        i = i + 1;
        assert(r@ == seq![(data@.len() - 1) as u8] + data@.take(i as int));
    }
    assert(data@.take(data@.len() as int) == data@);
    if data.len() % 2 == 1 {
        r.push(0xFF);
    }
    let c = calculate_checksum(r.as_slice());
    r.push(c);
    r
}

/// The 32-bit address of a data record: the upper half comes from the last
/// extended linear address record, the lower half is the record's offset.
pub fn linear_address(upper: u16, offset: u16) -> (r: u32)
    ensures
        r == upper as int * 0x10000 + offset as int,
{
    upper as u32 * 0x10000 + offset as u32
}

/// Appending a byte folds it into the checksum.
pub proof fn lemma_xor_fold_push(s: Seq<u8>, b: u8)
    ensures
        xor_fold(s.push(b)) == xor_fold(s) ^ b,
{
    assert(s.push(b).drop_last() == s);
}

/// A sequence followed by its own checksum folds to zero.
pub proof fn lemma_checksummed_folds_to_zero(s: Seq<u8>)
    ensures
        xor_fold(s.push(xor_fold(s))) == 0,
{
    lemma_xor_fold_push(s, xor_fold(s));
    let c = xor_fold(s);
    assert(c ^ c == 0) by (bit_vector);
}

/// The last byte of a UART data frame is the XOR of every byte before it,
/// so the whole frame XORs to zero.
pub proof fn lemma_uart_data_frame_checksum(data: Seq<u8>)
    requires
        1 <= data.len() <= 256,
    ensures
        uart_data_bytes(data).last() == xor_fold(uart_data_bytes(data).drop_last()),
        xor_fold(uart_data_bytes(data)) == 0,
{
    let body = seq![(data.len() - 1) as u8] + data;
    assert(uart_data_bytes(data).drop_last() == body);
    lemma_checksummed_folds_to_zero(body);
}

/// The same holds of an SPI data block, pad byte included.
pub proof fn lemma_spi_data_block_checksum(data: Seq<u8>)
    requires
        1 <= data.len() <= 256,
    ensures
        spi_data_bytes(data).last() == xor_fold(spi_data_bytes(data).drop_last()),
        xor_fold(spi_data_bytes(data)) == 0,
        spi_data_bytes(data).len() % 2 == 0,
{
    let head = seq![(data.len() - 1) as u8] + data;
    let body = if data.len() % 2 == 1 {
        head.push(0xFF)
    } else {
        head
    };
    assert(spi_data_bytes(data).drop_last() == body);
    lemma_checksummed_folds_to_zero(body);
}

} // verus!
