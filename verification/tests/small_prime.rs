use competitive::gf::GF;

type Gf7 = GF<7>;

#[test]
fn test_small_prime_exact_values() {
    assert_eq!(Gf7::new(3).add(Gf7::new(5)).as_u64(), 1);
    assert_eq!(Gf7::new(3).sub(Gf7::new(5)).as_u64(), 5);
    assert_eq!(Gf7::new(3).mul(Gf7::new(5)).as_u64(), 1);
    assert_eq!(Gf7::new(3).neg().as_u64(), 4);
    assert_eq!(Gf7::new(0).neg().as_u64(), 0);
    // 3^5 mod 7 = 243 mod 7 = 5, the inverse of 3
    assert_eq!(Gf7::new(3).recip().as_u64(), 5);
    assert_eq!(Gf7::new(1).div(Gf7::new(3)).as_u64(), 5);
    assert_eq!(Gf7::new(-1).as_u64(), 6);
    assert_eq!(Gf7::new(-8).as_u64(), 6);
    assert_eq!(Gf7::new(7).as_u64(), 0);
}

#[test]
fn test_large_modulus_no_overflow() {
    // the largest prime below 2^63
    type GfBig = GF<9223372036854775783>;
    let p: u64 = 9223372036854775783;
    let a: u64 = p - 1;
    let b: u64 = p - 2;
    let x = GfBig::new(a as i64);
    let y = GfBig::new(b as i64);
    let expected: u64 = (((a as u128) * (b as u128)) % (p as u128)) as u64;
    assert_eq!(x.mul(y).as_u64(), expected);
    assert_eq!(x.add(y).as_u64(), p - 3);
    assert_eq!(x.sub(y).as_u64(), 1);
    assert_eq!(y.sub(x).as_u64(), p - 1);
}

#[test]
fn test_to_decimal() {
    assert_eq!(Gf7::new(0).to_decimal(), "0");
    assert_eq!(Gf7::new(-1).to_decimal(), "6");
    type Gf = GF<1000000007>;
    assert_eq!(Gf::new(2).pow(100).to_decimal(), "976371285");
    assert_eq!(Gf::new(-1).to_decimal(), "1000000006");
    assert_eq!(Gf::new(10).to_decimal(), "10");
    assert_eq!(Gf::new(987654321).to_decimal(), "987654321");
}

#[test]
fn test_default_is_zero() {
    let z: Gf7 = Default::default();
    assert_eq!(z.as_u64(), 0);
}
