use stm32boot::dfuloader::{DfuLoaderError, Functions};
use stm32boot::wire::{
    address_frame, calculate_checksum, command_frame, linear_address, size_frame, spi_data_block,
    uart_data_frame,
};

const KNOWN: [u8; 15] =
    [0x00, 0x01, 0x02, 0x11, 0x21, 0x31, 0x43, 0x44, 0x50, 0x51, 0x63, 0x73, 0x82, 0x92, 0xA1];

#[test]
fn checksum_is_xor_fold() {
    assert_eq!(calculate_checksum(&[0x12, 0x34, 0x56]), 0x70);
    assert_eq!(calculate_checksum(&[0x12, 0x34, 0x56]), 0x12 ^ 0x34 ^ 0x56);
    assert_eq!(calculate_checksum(&[0xAB]), 0xAB);
    assert_eq!(calculate_checksum(&[]), 0x00);
}

#[test]
fn opcodes_round_trip() {
    for b in 0..=255u8 {
        let f = Functions::from(b);
        assert_eq!(f.opcode(), b);
        assert_eq!(KNOWN.contains(&b), !matches!(f, Functions::Unknown(_)));
        if !KNOWN.contains(&b) {
            assert_eq!(f, Functions::Unknown(b));
        }
    }
}

#[test]
fn opcodes_decode_to_named_commands() {
    assert_eq!(Functions::from(0x00), Functions::Get);
    assert_eq!(Functions::from(0x44), Functions::ExtendedErase);
    assert_eq!(Functions::from(0x73), Functions::WriteUnprotect);
    assert_eq!(Functions::from(0xA1), Functions::GetChecksum);
    assert_eq!(Functions::from_opcode(0x92), Functions::ReadoutUnprotect);
    assert_eq!(Functions::ExtendedErase.name(), "ExtendedErase");
    assert_eq!(Functions::Unknown(0x12).name(), "Unknown");
}

#[test]
fn write_frame_closes_with_checksum() {
    for payload in [[0x12u8, 0x34, 0x56], [0, 0, 0], [0xFF, 0x01, 0x80]] {
        let f = uart_data_frame(&payload);
        assert_eq!(f.len(), 5);
        assert_eq!(f[0], 2);
        let (last, rest) = f.split_last().unwrap();
        assert_eq!(*last, rest.iter().fold(0u8, |a, b| a ^ b));
    }
}

#[test]
fn spi_block_closes_with_checksum() {
    let f = spi_data_block(&[0x10, 0x20, 0x30]);
    assert_eq!(f, vec![0x02, 0x10, 0x20, 0x30, 0xFF, 0x02 ^ 0x10 ^ 0x20 ^ 0x30 ^ 0xFF]);
}

#[test]
fn frames_have_their_layout() {
    assert_eq!(command_frame(0x11), vec![0x11, 0xEE]);
    assert_eq!(address_frame(0x0800_0000), vec![0x08, 0x00, 0x00, 0x00, 0x08]);
    assert_eq!(address_frame(0x1234_5678), vec![0x12, 0x34, 0x56, 0x78, 0x12 ^ 0x34 ^ 0x56 ^ 0x78]);
    assert_eq!(size_frame(16), vec![0x0F, 0xF0]);
    assert_eq!(size_frame(1), vec![0x00, 0xFF]);
}

#[test]
fn error_summaries() {
    assert_eq!(DfuLoaderError::ProtocolError().summary(), "Protocol error");
    assert_eq!(DfuLoaderError::Timeout().summary(), "Timeout");
    assert_eq!(DfuLoaderError::CommandFailed(0xA5).summary(), "Command failed");
}

#[test]
fn linear_address_combines_halves() {
    assert_eq!(linear_address(0x0800, 0x1234), 0x0800_1234);
    assert_eq!(linear_address(0xFFFF, 0xFFFF), 0xFFFF_FFFF);
    assert_eq!(linear_address(0, 0x10), 0x10);
}
