use stm32f3_common::register::{RegisterBlock, RegisterError, Width};

#[test]
fn aligned_offset_inside_block_gives_address() {
    let rcc = RegisterBlock::new(0x4002_1000, 0x400).unwrap();
    assert_eq!(rcc.address(0x18, Width::Word), Some(0x4002_1018));
    assert_eq!(rcc.address(0x3FC, Width::Word), Some(0x4002_13FC));
    assert_eq!(rcc.address(0x3FF, Width::Byte), Some(0x4002_13FF));
    assert_eq!(rcc.address(0x02, Width::HalfWord), Some(0x4002_1002));
}

#[test]
fn access_past_block_end_is_refused() {
    let rcc = RegisterBlock::new(0x4002_1000, 0x400).unwrap();
    assert_eq!(rcc.address(0x3FE, Width::Word), None);
    assert_eq!(rcc.address(0x400, Width::Byte), None);
    assert_eq!(rcc.address(u32::MAX, Width::Byte), None);
}

#[test]
fn unaligned_access_is_refused() {
    let rcc = RegisterBlock::new(0x4002_1000, 0x400).unwrap();
    assert_eq!(rcc.address(0x02, Width::Word), None);
    assert_eq!(rcc.address(0x01, Width::HalfWord), None);
}

#[test]
fn block_past_address_space_is_refused() {
    assert_eq!(RegisterBlock::new(0xFFFF_FF00, 0x101).err(), Some(RegisterError::PastAddressSpace));
    assert!(RegisterBlock::new(0xFFFF_FF00, 0x100).is_ok());
    assert_eq!(Width::HalfWord.bytes(), 2);
}
