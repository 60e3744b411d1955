use microcode::bus::{
    AND, A_AND_NOT_B, A_OR_NOT_B, B_AND_NOT_A, B_OR_NOT_A, LOGIC_A, LOGIC_B, LOGIC_ZERO, NAND,
    NOR, NOT_A, NOT_B, ONES, OR, XNOR, XOR,
};

fn value(code: u8, a: bool, b: bool) -> bool {
    (code >> (2 * a as u8 + b as u8)) & 1 == 1
}

#[test]
fn logic_codes_are_truth_tables() {
    let cases: [(u8, fn(bool, bool) -> bool); 16] = [
        (LOGIC_ZERO, |_, _| false),
        (ONES, |_, _| true),
        (AND, |a, b| a && b),
        (OR, |a, b| a || b),
        (XOR, |a, b| a != b),
        (NAND, |a, b| !(a && b)),
        (NOR, |a, b| !(a || b)),
        (XNOR, |a, b| a == b),
        (LOGIC_A, |a, _| a),
        (LOGIC_B, |_, b| b),
        (NOT_A, |a, _| !a),
        (NOT_B, |_, b| !b),
        (A_AND_NOT_B, |a, b| a && !b),
        (B_AND_NOT_A, |a, b| b && !a),
        (A_OR_NOT_B, |a, b| a || !b),
        (B_OR_NOT_A, |a, b| b || !a),
    ];
    let mut seen = Vec::new();
    for (code, f) in cases {
        assert!(code < 16);
        assert!(!seen.contains(&code));
        seen.push(code);
        for a in [false, true] {
            for b in [false, true] {
                assert_eq!(value(code, a, b), f(a, b));
            }
        }
    }
}
