use lib_rv32::error::RiscvError;
use lib_rv32::Memory;

#[test]
fn out_of_bounds() {
    let mem = Memory::new(1024);
    match mem.read_byte(1028) {
        Err(why) => assert_eq!(why, RiscvError::MemoryOutOfBoundsError(1028)),
        _ => panic!(),
    };
}

#[test]
fn misaligned() {
    let mut mem = Memory::new(1024);

    match mem.read_half_word(3) {
        Err(why) => assert_eq!(why, RiscvError::MemoryAlignmentError(3)),
        _ => panic!(),
    };
    match mem.read_word(2) {
        Err(why) => assert_eq!(why, RiscvError::MemoryAlignmentError(2)),
        _ => panic!(),
    };
    match mem.write_half_word(3, 0) {
        Err(why) => assert_eq!(why, RiscvError::MemoryAlignmentError(3)),
        _ => panic!(),
    };
    match mem.write_word(2, 0) {
        Err(why) => assert_eq!(why, RiscvError::MemoryAlignmentError(2)),
        _ => panic!(),
    };
}

#[test]
fn create() {
    let mem = Memory::new(1024);
    assert_eq!(1024, mem.size());
}

#[test]
fn byte() {
    let mut mem = Memory::new(1024);

    for data in 0..0xFF {
        for addr in 0..16 {
            mem.write_byte(addr, data).unwrap();
            assert_eq!(data, mem.read_byte(addr).unwrap());
        }
    }
}

#[test]
fn half_word_write() {
    const ADDR: u32 = 0x02;
    let mut mem = Memory::new(1024);

    mem.write_half_word(ADDR, 0x1712).unwrap();

    assert_eq!(0x12, mem.read_byte(ADDR).unwrap());
    assert_eq!(0x17, mem.read_byte(ADDR + 1).unwrap());
}

#[test]
fn half_word_read() {
    const ADDR: u32 = 0x02;
    let mut mem = Memory::new(1024);

    mem.write_byte(ADDR, 0x12).unwrap();
    mem.write_byte(ADDR + 1, 0x17).unwrap();

    assert_eq!(0x1712, mem.read_half_word(ADDR).unwrap());
}

#[test]
fn half_word_read_write() {
    const ADDR: u32 = 0x02;
    let mut mem = Memory::new(1024);
    for data in 0..0xFFFF {
        mem.write_half_word(ADDR, data).unwrap();
        assert_eq!(data, mem.read_half_word(ADDR).unwrap());
    }
}

#[test]
fn word_write() {
    const ADDR: u32 = 0x04;
    let mut mem = Memory::new(1024);

    mem.write_word(ADDR, 0x76821712).unwrap();

    assert_eq!(0x12, mem.read_byte(ADDR).unwrap());
    assert_eq!(0x17, mem.read_byte(ADDR + 1).unwrap());
    assert_eq!(0x82, mem.read_byte(ADDR + 2).unwrap());
    assert_eq!(0x76, mem.read_byte(ADDR + 3).unwrap());
}

#[test]
fn word_read() {
    const ADDR: u32 = 0x04;
    let mut mem = Memory::new(1024);

    mem.write_byte(ADDR, 0x12).unwrap();
    mem.write_byte(ADDR + 1, 0x17).unwrap();
    mem.write_byte(ADDR + 2, 0x82).unwrap();
    mem.write_byte(ADDR + 3, 0x76).unwrap();

    assert_eq!(0x76821712, mem.read_word(ADDR).unwrap());
}

#[test]
fn word_read_write() {
    const ADDR: u32 = 0x04;
    let mut mem = Memory::new(1024);
    for data in 0xFE000000u32..0xFE100000u32 {
        mem.write_word(ADDR, data).unwrap();
        assert_eq!(data, mem.read_word(ADDR).unwrap());
    }
}

#[test]
fn program_big_endian() {
    const NUM: u32 = 0x12345678;
    const BE_BYTES: [u8; 4] = [0x12, 0x34, 0x56, 0x78];

    let mut mem = Memory::new(1024);
    mem.program_be_bytes(&BE_BYTES).unwrap();

    assert_eq!(NUM, mem.read_word(0).unwrap());
}

#[test]
fn program_little_endian() {
    const NUM: u32 = 0x12345678;
    const LE_BYTES: [u8; 4] = [0x78, 0x56, 0x34, 0x12];

    let mut mem = Memory::new(1024);
    mem.program_le_bytes(&LE_BYTES).unwrap();

    assert_eq!(NUM, mem.read_word(0).unwrap());
}

#[test]
fn test_out_of_bounds() {
    let mem = Memory::new(1024);
    match mem.read_byte(1028) {
        Err(why) => assert_eq!(why, RiscvError::MemoryOutOfBoundsError(1028)),
        _ => panic!(),
    };
}

#[test]
fn test_misaligned() {
    let mut mem = Memory::new(1024);

    match mem.read_half_word(3) {
        Err(why) => assert_eq!(why, RiscvError::MemoryAlignmentError(3)),
        _ => panic!(),
    };
    match mem.read_word(2) {
        Err(why) => assert_eq!(why, RiscvError::MemoryAlignmentError(2)),
        _ => panic!(),
    };
    match mem.write_half_word(3, 0) {
        Err(why) => assert_eq!(why, RiscvError::MemoryAlignmentError(3)),
        _ => panic!(),
    };
    match mem.write_word(2, 0) {
        Err(why) => assert_eq!(why, RiscvError::MemoryAlignmentError(2)),
        _ => panic!(),
    };
}

#[test]
fn test_create() {
    let mem = Memory::new(1024);
    assert_eq!(1024, mem.size());
}

#[test]
fn test_byte() {
    let mut mem = Memory::new(1024);

    for data in 0..0xFF {
        for addr in 0..16 {
            mem.write_byte(addr, data).unwrap();
            assert_eq!(data, mem.read_byte(addr).unwrap());
        }
    }
}

#[test]
fn test_half_word_write() {
    const ADDR: u32 = 0x02;
    let mut mem = Memory::new(1024);

    mem.write_half_word(ADDR, 0x1712).unwrap();

    assert_eq!(0x12, mem.read_byte(ADDR).unwrap());
    assert_eq!(0x17, mem.read_byte(ADDR + 1).unwrap());
}

#[test]
fn test_half_word_read() {
    const ADDR: u32 = 0x02;
    let mut mem = Memory::new(1024);

    mem.write_byte(ADDR, 0x12).unwrap();
    mem.write_byte(ADDR + 1, 0x17).unwrap();

    assert_eq!(0x1712, mem.read_half_word(ADDR).unwrap());
}

#[test]
fn test_half_word_read_write() {
    const ADDR: u32 = 0x02;
    let mut mem = Memory::new(1024);
    for data in 0..0xFFFF {
        mem.write_half_word(ADDR, data).unwrap();
        assert_eq!(data, mem.read_half_word(ADDR).unwrap());
    }
}

#[test]
fn test_word_write() {
    const ADDR: u32 = 0x04;
    let mut mem = Memory::new(1024);

    mem.write_word(ADDR, 0x76821712).unwrap();

    assert_eq!(0x12, mem.read_byte(ADDR).unwrap());
    assert_eq!(0x17, mem.read_byte(ADDR + 1).unwrap());
    assert_eq!(0x82, mem.read_byte(ADDR + 2).unwrap());
    assert_eq!(0x76, mem.read_byte(ADDR + 3).unwrap());
}

#[test]
fn test_word_read() {
    const ADDR: u32 = 0x04;
    let mut mem = Memory::new(1024);

    mem.write_byte(ADDR, 0x12).unwrap();
    mem.write_byte(ADDR + 1, 0x17).unwrap();
    mem.write_byte(ADDR + 2, 0x82).unwrap();
    mem.write_byte(ADDR + 3, 0x76).unwrap();

    assert_eq!(0x76821712, mem.read_word(ADDR).unwrap());
}

#[test]
fn test_word_read_write() {
    const ADDR: u32 = 0x04;
    let mut mem = Memory::new(1024);
    for data in 0xFE000000u32..0xFE100000u32 {
        mem.write_word(ADDR, data).unwrap();
        assert_eq!(data, mem.read_word(ADDR).unwrap());
    }
}

#[test]
fn test_program_little_endian() {
    const NUM: u32 = 0x12345678;
    const LE_BYTES: [u8; 4] = [0x78, 0x56, 0x34, 0x12];

    let mut mem = Memory::new(1024);
    mem.program_le_bytes(&LE_BYTES).unwrap();

    assert_eq!(NUM, mem.read_word(0).unwrap());
}

#[test]
fn program_words_lays_out_words() {
    let mut mem = Memory::new(64);
    mem.program_words(&[0x00112233, 0x44556677]).unwrap();
    assert_eq!(0x00112233, mem.read_word(0).unwrap());
    assert_eq!(0x44556677, mem.read_word(4).unwrap());
    assert_eq!(0x33, mem.read_byte(0).unwrap());
    assert_eq!(0x22, mem.read_byte(1).unwrap());
    assert_eq!(0x11, mem.read_byte(2).unwrap());
    assert_eq!(0x00, mem.read_byte(3).unwrap());
    assert_eq!(0, mem.read_word(8).unwrap());
}

#[test]
fn program_too_large_reports_bound() {
    let mut mem = Memory::new(4);
    let bytes = [1u8, 2, 3, 4, 5];
    assert_eq!(
        Err(RiscvError::MemoryOutOfBoundsError(4)),
        mem.program_le_bytes(&bytes)
    );
    assert_eq!(1, mem.read_byte(0).unwrap());
}
