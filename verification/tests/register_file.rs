use lib_rv32::error::RiscvError;
use lib_rv32::RegisterFile;

#[test]
fn test_zero() {
    let mut rf = RegisterFile::new();
    rf.write(0, 17).unwrap();
    assert_eq!(0, rf.read(0).unwrap());
}

#[test]
fn test_read_write() {
    let mut rf = RegisterFile::new();
    for i in 0..128 {
        let d = i << 16;
        for n in 0..32 {
            rf.write(n, d).unwrap();
            assert_eq!(if n == 0 { 0 } else { d }, rf.read(n).unwrap());
        }
    }
}

#[test]
fn test_out_of_range() {
    assert_eq!(
        Err(RiscvError::RegisterOutOfRangeError(32)),
        RegisterFile::new().read(32)
    )
}

#[test]
fn write_out_of_range() {
    let mut rf = RegisterFile::new();
    assert_eq!(
        Err(RiscvError::RegisterOutOfRangeError(40)),
        rf.write(40, 1)
    );
}
