use lib_rv32::assemble_program;
use lib_rv32::error::RiscvError;
use lib_rv32::exec_one;
use lib_rv32::Mcu;

const MEM_SIZE: u32 = 1024 * 64;

const ADDI_X5_X5_1: u32 = 0x00128293;
const ADDI_X5_X6_NEG_1: u32 = 0xfff30293;

fn step(mcu: &mut Mcu) -> Result<(), RiscvError> {
    exec_one(&mut mcu.pc, &mut mcu.mem, &mut mcu.rf)
}

fn multiply_program_words() -> Vec<u32> {
    let program = "
        addi t0, x0, 4
        addi a1, x0, 4
        addi a0, x0, 0
        jal ra, mult
        mult: beq a1, zero, done
        addi a0, a0, 5
        addi a1, a1, -1
        j mult
        done:
    ";
    assemble_program(program).unwrap()
}

fn simple_loop_words() -> Vec<u32> {
    let program = "addi t0, x0, 4\nloop: addi t0, t0, -1\nbne t0, x0, loop";
    assemble_program(program).unwrap()
}

#[test]
fn program_mcu() {
    let words = multiply_program_words();
    let mut mcu = Mcu::new(MEM_SIZE as usize);
    mcu.mem.program_words(&words).unwrap();

    for (i, w) in words.iter().enumerate() {
        assert_eq!(*w, mcu.mem.read_word((i * 4) as u32).unwrap());
    }
    for i in words.len() as u32..(MEM_SIZE / 4) {
        assert_eq!(0, mcu.mem.read_word(i * 4).unwrap());
    }
}

#[test]
fn addi_x5_x5_1() {
    let mut mcu = Mcu::new(MEM_SIZE as usize);
    let bytes = ADDI_X5_X5_1.to_le_bytes();
    mcu.mem.program_le_bytes(&bytes).unwrap();
    step(&mut mcu).unwrap();

    for i in 0..32 {
        assert_eq!(
            match i {
                5 => 1,
                _ => 0,
            },
            mcu.rf.read(i).unwrap()
        );
    }

    for i in 1..(MEM_SIZE / 4) {
        assert_eq!(0, mcu.mem.read_word(i * 4).unwrap());
    }

    assert_eq!(4, mcu.pc);
}

#[test]
fn addi_x5_x6_neg_1() {
    let mut mcu = Mcu::new(MEM_SIZE as usize);
    let bytes = ADDI_X5_X6_NEG_1.to_le_bytes();
    mcu.mem.program_le_bytes(&bytes).unwrap();
    step(&mut mcu).unwrap();

    for i in 0..32 {
        assert_eq!(
            match i {
                5 => -1,
                _ => 0,
            },
            mcu.rf.read(i).unwrap() as i32
        );
    }

    for i in 1..(MEM_SIZE / 4) {
        assert_eq!(0, mcu.mem.read_word(i * 4).unwrap());
    }

    assert_eq!(4, mcu.pc);
}

#[test]
fn test_addi_x5_x5_1() {
    let mut mcu = Mcu::new(0x10000);
    let bytes = ADDI_X5_X5_1.to_le_bytes();
    mcu.mem.program_le_bytes(&bytes).unwrap();
    step(&mut mcu).unwrap();

    for i in 0..32 {
        assert_eq!(
            match i {
                5 => 1,
                _ => 0,
            },
            mcu.rf.read(i).unwrap()
        );
    }

    for i in 1..(0x10000 / 4) {
        assert_eq!(0, mcu.mem.read_word(i * 4).unwrap());
    }

    assert_eq!(4, mcu.pc);
}

#[test]
fn test_addi_x5_x6_neg_1() {
    let mut mcu = Mcu::new(0x10000);
    let bytes = ADDI_X5_X6_NEG_1.to_le_bytes();
    mcu.mem.program_le_bytes(&bytes).unwrap();
    step(&mut mcu).unwrap();

    for i in 0..32 {
        assert_eq!(
            match i {
                5 => -1,
                _ => 0,
            },
            mcu.rf.read(i).unwrap() as i32
        );
    }

    for i in 1..(0x10000 / 4) {
        assert_eq!(0, mcu.mem.read_word(i * 4).unwrap());
    }

    assert_eq!(4, mcu.pc);
}

#[test]
fn addi_x6_x0_1() {
    let mut mcu = Mcu::new(1024);

    let bytes = ADDI_X5_X5_1.to_le_bytes();
    mcu.mem.program_le_bytes(&bytes).unwrap();

    step(&mut mcu).unwrap();

    for i in 0..32 {
        assert_eq!(
            match i {
                5 => 1,
                _ => 0,
            },
            mcu.rf.read(i).unwrap()
        );
    }

    assert_eq!(4, mcu.pc);
}

#[test]
fn simple_loop() {
    let words = simple_loop_words();
    let mut mcu = Mcu::new(MEM_SIZE as usize);
    mcu.mem.program_words(&words).unwrap();

    let mut cycles = 0;
    loop {
        step(&mut mcu).unwrap();

        if cycles == 0 {
            assert_eq!(4, mcu.rf.read(5).unwrap());
        }

        if mcu.pc == (words.len() * 4) as u32 {
            break;
        }

        cycles += 1;
        assert!(cycles < 12);
    }
    assert_eq!(0, mcu.rf.read(5).unwrap());
}

#[test]
fn multiply_program() {
    let words = multiply_program_words();
    let mut mcu = Mcu::new(MEM_SIZE as usize);
    mcu.mem.program_words(&words).unwrap();

    let mut cycles = 0;
    loop {
        step(&mut mcu).unwrap();
        if mcu.pc == (words.len() * 4) as u32 {
            break;
        }
        cycles += 1;
        assert!(cycles < 25);
    }

    assert_eq!(20, mcu.rf.read(10).unwrap());
    assert_eq!(0, mcu.rf.read(11).unwrap());
    assert_eq!(4, mcu.rf.read(5).unwrap());
    assert_eq!(16, mcu.rf.read(1).unwrap());
}

#[test]
fn two_pass_program_runs_to_end() {
    let program = "
        init:   jal ra, fun
                jal x0, end
        fun:    addi t0, t0, 1
                jalr x0, ra, 0
        end:
    ";
    let labels = lib_rv32::parse_labels(program).unwrap();
    assert_eq!(0, labels.get("init").unwrap());
    assert_eq!(8, labels.get("fun").unwrap());
    assert_eq!(16, labels.get("end").unwrap());

    let words = assemble_program(program).unwrap();
    assert_eq!(4, words.len());

    let mut mcu = Mcu::new(1024);
    mcu.mem.program_words(&words).unwrap();
    let stop_pc = labels.get("end").unwrap();
    let mut cycles = 0;
    while mcu.pc != stop_pc {
        step(&mut mcu).unwrap();
        cycles += 1;
        assert!(cycles < 16);
    }
    assert_eq!(1, mcu.rf.read(5).unwrap());
    assert_eq!(4, mcu.rf.read(1).unwrap());
}

#[test]
fn addi_at_pc_zero_encodes_exactly() {
    let mut labels = lib_rv32::LabelTable::new();
    let word = lib_rv32::assemble_ir("addi t0, x6, 0", &mut labels, 0).unwrap()[0];
    assert_eq!(0x00030293, word);
}

#[test]
fn addi_negative_round_trip() {
    let mut labels = lib_rv32::LabelTable::new();
    let word = lib_rv32::assemble_ir("addi t0, t1, -12", &mut labels, 0).unwrap()[0];
    assert_eq!(0xff430293, word);
    assert_eq!(-12, lib_rv32::decode::decode_i_imm(word) as i32);
}

#[test]
fn load_effective_address_is_rs1_plus_imm() {
    let mut labels = lib_rv32::LabelTable::new();
    let word = lib_rv32::assemble_ir("lw x5, 0(x5)", &mut labels, 0).unwrap()[0];
    assert_eq!(0x0002a283, word);

    let mut mcu = Mcu::new(1024);
    mcu.mem.program_words(&[word]).unwrap();
    mcu.mem.write_word(8, 0xDEADBEEF).unwrap();
    mcu.rf.write(5, 8).unwrap();
    step(&mut mcu).unwrap();
    assert_eq!(0xDEADBEEF, mcu.rf.read(5).unwrap());
}

#[test]
fn add_wraps_around() {
    let words = assemble_program("add t2, t0, t1").unwrap();
    let mut mcu = Mcu::new(1024);
    mcu.mem.program_words(&words).unwrap();
    mcu.rf.write(5, 0xFFFFFFFF).unwrap();
    mcu.rf.write(6, 1).unwrap();
    step(&mut mcu).unwrap();
    assert_eq!(0x00000000, mcu.rf.read(7).unwrap());
}

#[test]
fn sub_wraps_around() {
    let words = assemble_program("sub t2, t0, t1").unwrap();
    let mut mcu = Mcu::new(1024);
    mcu.mem.program_words(&words).unwrap();
    mcu.rf.write(5, 0).unwrap();
    mcu.rf.write(6, 1).unwrap();
    step(&mut mcu).unwrap();
    assert_eq!(0xFFFFFFFF, mcu.rf.read(7).unwrap());
}

#[test]
fn blt_is_signed_bltu_is_unsigned() {
    // t0 = -1 (0xFFFFFFFF), t1 = 1: blt takes the branch, bltu does not.
    let words = assemble_program("blt t0, t1, 8").unwrap();
    let mut mcu = Mcu::new(1024);
    mcu.mem.program_words(&words).unwrap();
    mcu.rf.write(5, 0xFFFFFFFF).unwrap();
    mcu.rf.write(6, 1).unwrap();
    step(&mut mcu).unwrap();
    assert_eq!(8, mcu.pc);

    let words = assemble_program("bltu t0, t1, 8").unwrap();
    let mut mcu = Mcu::new(1024);
    mcu.mem.program_words(&words).unwrap();
    mcu.rf.write(5, 0xFFFFFFFF).unwrap();
    mcu.rf.write(6, 1).unwrap();
    step(&mut mcu).unwrap();
    assert_eq!(4, mcu.pc);
}

#[test]
fn bgeu_on_equal_operands_is_taken() {
    let words = assemble_program("bgeu t0, t1, 12").unwrap();
    let mut mcu = Mcu::new(1024);
    mcu.mem.program_words(&words).unwrap();
    mcu.rf.write(5, 7).unwrap();
    mcu.rf.write(6, 7).unwrap();
    step(&mut mcu).unwrap();
    assert_eq!(12, mcu.pc);
}

#[test]
fn sra_extends_sign_srl_does_not() {
    let words = assemble_program("sra t2, t0, t1").unwrap();
    let mut mcu = Mcu::new(1024);
    mcu.mem.program_words(&words).unwrap();
    mcu.rf.write(5, 0x80000000).unwrap();
    mcu.rf.write(6, 4).unwrap();
    step(&mut mcu).unwrap();
    assert_eq!(0xF8000000, mcu.rf.read(7).unwrap());

    let words = assemble_program("srl t2, t0, t1").unwrap();
    let mut mcu = Mcu::new(1024);
    mcu.mem.program_words(&words).unwrap();
    mcu.rf.write(5, 0x80000000).unwrap();
    mcu.rf.write(6, 4).unwrap();
    step(&mut mcu).unwrap();
    assert_eq!(0x08000000, mcu.rf.read(7).unwrap());
}

#[test]
fn lb_sign_extends_lbu_does_not() {
    let words = assemble_program("lb t1, 16(x0)\nlbu t2, 16(x0)").unwrap();
    let mut mcu = Mcu::new(1024);
    mcu.mem.program_words(&words).unwrap();
    mcu.mem.write_byte(16, 0x80).unwrap();
    step(&mut mcu).unwrap();
    step(&mut mcu).unwrap();
    assert_eq!(0xFFFFFF80, mcu.rf.read(6).unwrap());
    assert_eq!(0x00000080, mcu.rf.read(7).unwrap());
}

#[test]
fn lh_sign_extends_lhu_does_not() {
    let words = assemble_program("lh t1, 16(x0)\nlhu t2, 16(x0)").unwrap();
    let mut mcu = Mcu::new(1024);
    mcu.mem.program_words(&words).unwrap();
    mcu.mem.write_half_word(16, 0x8001).unwrap();
    step(&mut mcu).unwrap();
    step(&mut mcu).unwrap();
    assert_eq!(0xFFFF8001, mcu.rf.read(6).unwrap());
    assert_eq!(0x00008001, mcu.rf.read(7).unwrap());
}

#[test]
fn stores_write_low_bytes() {
    let words = assemble_program("sb t0, 16(x0)\nsh t0, 20(x0)\nsw t0, 24(x0)").unwrap();
    let mut mcu = Mcu::new(1024);
    mcu.mem.program_words(&words).unwrap();
    mcu.rf.write(5, 0x76821712).unwrap();
    step(&mut mcu).unwrap();
    step(&mut mcu).unwrap();
    step(&mut mcu).unwrap();
    assert_eq!(0x12, mcu.mem.read_byte(16).unwrap());
    assert_eq!(0, mcu.mem.read_byte(17).unwrap());
    assert_eq!(0x1712, mcu.mem.read_half_word(20).unwrap());
    assert_eq!(0x76821712, mcu.mem.read_word(24).unwrap());
}

#[test]
fn jalr_clears_low_bit_of_target() {
    let words = assemble_program("jalr ra, t0, 0").unwrap();
    let mut mcu = Mcu::new(1024);
    mcu.mem.program_words(&words).unwrap();
    mcu.rf.write(5, 13).unwrap();
    step(&mut mcu).unwrap();
    assert_eq!(12, mcu.pc);
    assert_eq!(4, mcu.rf.read(1).unwrap());
}

#[test]
fn lui_and_auipc() {
    let words = assemble_program("lui t0, 4\nauipc t1, 4").unwrap();
    let mut mcu = Mcu::new(1024);
    mcu.mem.program_words(&words).unwrap();
    step(&mut mcu).unwrap();
    step(&mut mcu).unwrap();
    assert_eq!(0x4000, mcu.rf.read(5).unwrap());
    assert_eq!(0x4004, mcu.rf.read(6).unwrap());
}

#[test]
fn writes_to_x0_are_discarded() {
    let words = assemble_program("addi x0, x0, 5\naddi t0, x0, 3").unwrap();
    let mut mcu = Mcu::new(1024);
    mcu.mem.program_words(&words).unwrap();
    step(&mut mcu).unwrap();
    assert_eq!(0, mcu.rf.read(0).unwrap());
    step(&mut mcu).unwrap();
    assert_eq!(3, mcu.rf.read(5).unwrap());
    assert_eq!(0, mcu.rf.read(0).unwrap());
}

#[test]
fn invalid_opcode_reports_error() {
    let mut mcu = Mcu::new(1024);
    mcu.mem.program_words(&[0x00000000]).unwrap();
    assert_eq!(
        Err(RiscvError::InvalidOpcodeError(0, 0)),
        step(&mut mcu)
    );
    assert_eq!(0, mcu.pc);
}

#[test]
fn misaligned_load_reports_error() {
    let words = assemble_program("lw t0, 2(x0)").unwrap();
    let mut mcu = Mcu::new(1024);
    mcu.mem.program_words(&words).unwrap();
    assert_eq!(Err(RiscvError::MemoryAlignmentError(2)), step(&mut mcu));
    assert_eq!(0, mcu.pc);
}

#[test]
fn out_of_bounds_store_reports_error() {
    let words = assemble_program("sw t0, 0(t1)").unwrap();
    let mut mcu = Mcu::new(1024);
    mcu.mem.program_words(&words).unwrap();
    mcu.rf.write(6, 2048).unwrap();
    assert_eq!(
        Err(RiscvError::MemoryOutOfBoundsError(2048)),
        step(&mut mcu)
    );
    assert_eq!(0, mcu.pc);
}

#[test]
fn assert_all_checks_state() {
    let words = assemble_program("addi a0, x0, 20\nsw a0, 16(x0)").unwrap();
    let mut mcu = Mcu::new(1024);
    mcu.mem.program_words(&words).unwrap();
    step(&mut mcu).unwrap();
    step(&mut mcu).unwrap();

    let mut asserts = lib_rv32::Assertions {
        register_assertions: vec![(10, 20, false), (11, 9, false)],
        memory_assertions: vec![(16, 20, false), (20, 1, false)],
    };
    asserts.assert_all(&mut mcu.mem, &mut mcu.rf);
    assert_eq!(true, asserts.register_assertions[0].2);
    assert_eq!(false, asserts.register_assertions[1].2);
    assert_eq!(true, asserts.memory_assertions[0].2);
    assert_eq!(false, asserts.memory_assertions[1].2);
}
