use competitive::gf::GF;

type Gf = GF<1000000007>;

const P: u64 = 1000000007;

#[test]
fn test_gf() {
    // operator test
    let _ = Gf::new(0);
    let x: Gf = Gf::new(0);
    let x = x.neg();

    let x = Gf::new(1).add(x);
    let x = x.add(Gf::new(1));
    let mut x = x.add(x);
    x.add_assign(Gf::new(1));

    let x = Gf::new(1).sub(x);
    let x = x.sub(Gf::new(1));
    let mut x = x.sub(x);
    x.sub_assign(Gf::new(1));

    let x = Gf::new(1).mul(x);
    let x = x.mul(Gf::new(1));
    let mut x = x.mul(x);
    x.mul_assign(Gf::new(1));

    let x = Gf::new(1).div(x);
    let x = x.div(Gf::new(1));
    let mut x = x.div(x);
    x.div_assign(Gf::new(1));
    let _ = x;

    // basic tests
    let x: Gf = Gf::new(12345678);
    let y: Gf = Gf::new(87654321);
    assert_eq!(y.mul(x).mul(x.recip()), y);

    assert_eq!(Gf::new(2).pow(50).0, (1u64 << 50) % P);
}

#[test]
fn test_closure_range() {
    let samples: [i64; 8] = [0, 1, -1, 17, -17, i64::MAX, i64::MIN, 1000000007];
    for &v in samples.iter() {
        let a = Gf::new(v);
        assert!(a.as_u64() < P);
    }
    let b = Gf::new(5).pow(u64::MAX);
    assert!(b.as_u64() < P);
}

#[test]
fn test_euclidean_reduction() {
    assert_eq!(Gf::new(-1).as_u64(), P - 1);
    assert_eq!(Gf::new(P as i64).as_u64(), 0);
    let ks: [i64; 5] = [-3, -1, 0, 2, 5];
    let rs: [u64; 4] = [0, 1, 123456, P - 1];
    for &k in ks.iter() {
        for &r in rs.iter() {
            let v: i64 = k * (P as i64) + r as i64;
            assert_eq!(Gf::new(v).as_u64(), r);
        }
    }
}

#[test]
fn test_field_axioms() {
    let a = Gf::new(123456789);
    let b = Gf::new(-987654321);
    let c = Gf::new(314159265);
    assert_eq!(a.add(b), b.add(a));
    assert_eq!(a.add(b).add(c), a.add(b.add(c)));
    assert_eq!(a.mul(b), b.mul(a));
    assert_eq!(a.mul(b).mul(c), a.mul(b.mul(c)));
    assert_eq!(a.mul(b.add(c)), a.mul(b).add(a.mul(c)));
    assert_eq!(a.add(Gf::new(0)), a);
    assert_eq!(a.mul(Gf::new(1)), a);
    assert_eq!(a.add(a.neg()).as_u64(), 0);
    assert_eq!(a.mul(a.recip()).as_u64(), 1);
    assert_eq!(b.mul(b.recip()).as_u64(), 1);
}

#[test]
fn test_division_consistency() {
    let pairs: [(i64, i64); 4] = [(1, 1), (12345678, 87654321), (-5, 7), (0, 999)];
    for &(x, y) in pairs.iter() {
        let a = Gf::new(x);
        let b = Gf::new(y);
        assert_eq!(a.div(b).mul(b), a);
    }
}

#[test]
fn test_exponentiation_laws() {
    assert_eq!(Gf::new(0).pow(0).as_u64(), 1);
    assert_eq!(Gf::new(5).pow(0).as_u64(), 1);
    let a = Gf::new(123456789);
    assert_eq!(a.pow(1), a);
    assert_eq!(a.pow(13 + 29), a.pow(13).mul(a.pow(29)));
    // Fermat: a^(P-1) == 1 for nonzero a and prime P.
    assert_eq!(a.pow(P - 1).as_u64(), 1);
    assert_eq!(Gf::new(2).pow(P - 1).as_u64(), 1);
}

#[test]
fn test_symmetric_promotion() {
    let x = Gf::new(123456789);
    assert_eq!(Gf::new(1).add(x), x.add(Gf::new(1)));
    // the same element is reached from every integer width
    let from_u8: u8 = 200;
    let from_u16: u16 = 200;
    let from_u32: u32 = 200;
    let from_u64: u64 = 200;
    let from_i8: i8 = -100;
    let from_i16: i16 = -100;
    let from_i32: i32 = -100;
    let from_usize: usize = 200;
    let from_isize: isize = -100;
    assert_eq!(Gf::new(from_u8 as i64), Gf::new(200));
    assert_eq!(Gf::new(from_u16 as i64), Gf::new(200));
    assert_eq!(Gf::new(from_u32 as i64), Gf::new(200));
    assert_eq!(Gf::new(from_u64 as i64), Gf::new(200));
    assert_eq!(Gf::new(from_usize as i64), Gf::new(200));
    assert_eq!(Gf::new(from_i8 as i64), Gf::new(-100));
    assert_eq!(Gf::new(from_i16 as i64), Gf::new(-100));
    assert_eq!(Gf::new(from_i32 as i64), Gf::new(-100));
    assert_eq!(Gf::new(from_isize as i64), Gf::new(-100));
    // a promoted left operand matches explicit construction for every operator
    let n: i64 = 42;
    assert_eq!(Gf::new(n).add(x), Gf::new(n).add(x));
    assert_eq!(Gf::new(n).sub(x).add(x), Gf::new(n));
    assert_eq!(Gf::new(n).mul(x), x.mul(Gf::new(n)));
    assert_eq!(Gf::new(n).div(x).mul(x), Gf::new(n));
}

#[test]
fn test_concrete_pow() {
    assert_eq!(Gf::new(2).pow(100).as_u64(), 976371285);
    assert_eq!(Gf::new(2).pow(50).as_u64(), (1u64 << 50) % P);
}

#[test]
fn test_concrete_recip() {
    let x = Gf::new(12345678);
    let y = Gf::new(87654321);
    assert_eq!(y.mul(x).mul(x.recip()), y);
}

#[test]
fn test_round_trip() {
    let samples: [i64; 7] = [0, 1, -1, 12345678, -12345678, i64::MAX, i64::MIN];
    for &v in samples.iter() {
        let once = Gf::new(v);
        let twice = Gf::new(once.as_u64() as i64);
        assert_eq!(twice, once);
    }
}
