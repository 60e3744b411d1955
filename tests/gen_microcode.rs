use microcode::instruction::{Keyword, MovFrom, MovTo, GPR};

#[test]
fn lib_it_works() {
    assert_eq!(2 + 2, 4);
}

#[test]
fn returns_zero_on_first_variant() {
    assert_eq!(0u8, Keyword::Mov(MovFrom::A, MovTo::A).into());
}

#[test]
fn returns_four_on_fith_variant() {
    assert_eq!(4u8, Keyword::Or(GPR::A, GPR::A).into());
}
