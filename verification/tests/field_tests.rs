use vm_core::field::{Felt, MODULUS};

#[test]
fn test_field_add_sub_wraparound() {
    let a = Felt::from_u32(MODULUS - 1);
    let b = Felt::from_u32(2);
    assert_eq!(a.add(b).as_u32(), 1);
    assert_eq!(b.sub(a).as_u32(), 3);
    assert_eq!(Felt::zero().sub(b).as_u32(), MODULUS - 2);
    assert_eq!(b.neg().as_u32(), MODULUS - 2);
}

#[test]
fn test_field_mul_and_pow() {
    let three = Felt::from_u32(3);
    assert_eq!(three.mul(Felt::from_u32(7)).as_u32(), 21);
    assert_eq!(three.pow(5).as_u32(), 243);
    assert_eq!(three.pow(0).as_u32(), 1);
    // reduction happens for large products
    let big = Felt::from_u32(MODULUS - 1);
    assert_eq!(big.mul(big).as_u32(), 1);
}

#[test]
fn test_field_inverse() {
    for &v in &[1u32, 2, 3, 1234567, MODULUS - 1] {
        let x = Felt::from_u32(v);
        assert_eq!(x.mul(x.inverse()).as_u32(), 1, "inverse failed for {}", v);
    }
    // zero maps to zero
    assert_eq!(Felt::zero().inverse().as_u32(), 0);
}

#[test]
fn test_from_u32_reduces() {
    assert_eq!(Felt::from_u32(MODULUS).as_u32(), 0);
    assert_eq!(Felt::from_u32(MODULUS + 5).as_u32(), 5);
}
