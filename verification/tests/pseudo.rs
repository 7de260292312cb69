use lib_rv32::transform_psuedo_ir;

fn toks(words: &[&str]) -> Vec<String> {
    words.iter().map(|w| w.to_string()).collect()
}

#[test]
fn transform_mv() {
    let out = transform_psuedo_ir(&toks(&["mv", "t0", "t1"])).unwrap();
    assert_eq!(vec![toks(&["add", "t0", "t1", "x0"])], out);
}

#[test]
fn transform_nop() {
    let out = transform_psuedo_ir(&toks(&["nop"])).unwrap();
    assert_eq!(vec![toks(&["addi", "x0", "x0", "0"])], out);
}

#[test]
fn transform_ret() {
    let out = transform_psuedo_ir(&toks(&["ret"])).unwrap();
    assert_eq!(vec![toks(&["jalr", "x0", "ra", "0"])], out);
}

#[test]
fn transform_bgt_swaps_operands() {
    let out = transform_psuedo_ir(&toks(&["bgt", "t0", "t1", "loop"])).unwrap();
    assert_eq!(vec![toks(&["blt", "t1", "t0", "loop"])], out);
}

#[test]
fn transform_li_small() {
    let out = transform_psuedo_ir(&toks(&["li", "t0", "5"])).unwrap();
    assert_eq!(vec![toks(&["addi", "t0", "x0", "5"])], out);
}

#[test]
fn transform_li_large() {
    let out = transform_psuedo_ir(&toks(&["li", "t0", "0x12345678"])).unwrap();
    assert_eq!(
        vec![
            toks(&["lui", "t0", "74565"]),
            toks(&["addi", "t0", "t0", "1656"]),
        ],
        out
    );
}

#[test]
fn transform_passes_base_instructions_through() {
    let out = transform_psuedo_ir(&toks(&["addi", "t0", "t1", "17"])).unwrap();
    assert_eq!(vec![toks(&["addi", "t0", "t1", "17"])], out);
}
