use impact::common::float::Float32;

fn num(x: f32) -> Float32 {
    Float32::from_bits(x.to_bits())
}

fn float(x: Float32) -> f32 {
    f32::from_bits(x.to_bits())
}

/// Whether `ours` is the number that the machine computed.
fn agrees(ours: Float32, machine: f32) -> bool {
    if machine.is_nan() {
        float(ours).is_nan()
    } else {
        ours.to_bits() == machine.to_bits()
    }
}

struct Draws {
    state: u64,
}

impl Draws {
    fn new(seed: u64) -> Draws {
        Draws { state: seed }
    }

    fn next(&mut self) -> u32 {
        self.state ^= self.state << 13;
        self.state ^= self.state >> 7;
        self.state ^= self.state << 17;
        (self.state >> 16) as u32
    }

    /// Bits with the given exponent field, and any sign and fraction.
    fn with_exponent(&mut self, exponent: u32) -> u32 {
        (self.next() & 0x807f_ffff) | ((exponent & 0xff) << 23)
    }
}

fn corner_cases() -> Vec<u32> {
    let magnitudes: Vec<u32> = vec![
        0x0000_0000, // zero
        0x0000_0001, // least subnormal
        0x0000_0002,
        0x0000_0003,
        0x0040_0000, // a subnormal in the middle
        0x007f_ffff, // greatest subnormal
        0x0080_0000, // least normal
        0x0080_0001,
        0x00ff_ffff,
        0x0100_0000,
        0x3400_0000, // 2^-23
        0x3380_0000, // 2^-24
        0x3300_0000, // 2^-25
        0x3a83_126f, // 0.001
        0x3dcc_cccd, // 0.1
        0x3f00_0000, // 0.5
        0x3f7f_ffff, // just below 1
        0x3f80_0000, // 1
        0x3f80_0001, // just above 1
        0x3fc0_0000, // 1.5
        0x4000_0000, // 2
        0x4040_0000, // 3
        0x4049_0fdb, // pi
        0x42c8_0000, // 100
        0x4b00_0000, // 2^23
        0x4b7f_ffff, // 2^24 - 1
        0x4b80_0000, // 2^24
        0x4b80_0001, // 2^24 + 2
        0x4f00_0000, // 2^31
        0x4f80_0000, // 2^32
        0x5f00_0000, // 2^63
        0x7e80_0000,
        0x7f00_0000, // 2^127
        0x7f7f_fffe,
        0x7f7f_ffff, // greatest finite
        0x7f80_0000, // infinity
        0x7f80_0001, // a signalling NaN
        0x7fc0_0000, // the quiet NaN
        0x7fff_ffff,
    ];
    let mut all = Vec::new();
    for m in magnitudes {
        all.push(m);
        all.push(m | 0x8000_0000);
    }
    all
}

#[test]
fn product_agrees_with_the_machine_on_corner_cases() {
    let cases = corner_cases();
    for &a in &cases {
        for &b in &cases {
            let ours = Float32::from_bits(a) * Float32::from_bits(b);
            let machine = f32::from_bits(a) * f32::from_bits(b);
            assert!(agrees(ours, machine), "{:#x} * {:#x}: {:#x}", a, b, ours.to_bits());
        }
    }
}

#[test]
fn sum_agrees_with_the_machine_on_corner_cases() {
    let cases = corner_cases();
    for &a in &cases {
        for &b in &cases {
            let ours = Float32::from_bits(a) + Float32::from_bits(b);
            let machine = f32::from_bits(a) + f32::from_bits(b);
            assert!(agrees(ours, machine), "{:#x} + {:#x}: {:#x}", a, b, ours.to_bits());
        }
    }
}

#[test]
fn product_agrees_with_the_machine_on_any_bits() {
    let mut draws = Draws::new(0x9e37_79b9_7f4a_7c15);
    for _ in 0..200_000 {
        let a = draws.next();
        let b = draws.next();
        let ours = Float32::from_bits(a) * Float32::from_bits(b);
        let machine = f32::from_bits(a) * f32::from_bits(b);
        assert!(agrees(ours, machine), "{:#x} * {:#x}: {:#x}", a, b, ours.to_bits());
    }
}

#[test]
fn product_agrees_with_the_machine_near_the_ends_of_the_range() {
    // exponents whose sum puts the product among the subnormals, or near
    // the greatest finite number
    let mut draws = Draws::new(0x2545_f491_4f6c_dd1d);
    for _ in 0..200_000 {
        let first = draws.next() % 255;
        let target = if draws.next() % 2 == 0 {
            100 + draws.next() % 40 // the product has an exponent field near 0
        } else {
            370 + draws.next() % 20 // or near 255
        };
        let second = target.saturating_sub(first).min(254);
        let a = draws.with_exponent(first);
        let b = draws.with_exponent(second);
        let ours = Float32::from_bits(a) * Float32::from_bits(b);
        let machine = f32::from_bits(a) * f32::from_bits(b);
        assert!(agrees(ours, machine), "{:#x} * {:#x}: {:#x}", a, b, ours.to_bits());
    }
}

#[test]
fn sum_agrees_with_the_machine_on_any_bits() {
    let mut draws = Draws::new(0xd1b5_4a32_d192_ed03);
    for _ in 0..200_000 {
        let a = draws.next();
        let b = draws.next();
        let ours = Float32::from_bits(a) + Float32::from_bits(b);
        let machine = f32::from_bits(a) + f32::from_bits(b);
        assert!(agrees(ours, machine), "{:#x} + {:#x}: {:#x}", a, b, ours.to_bits());
    }
}

#[test]
fn sum_agrees_with_the_machine_on_neighbouring_exponents() {
    let mut draws = Draws::new(0x1234_5678_9abc_def1);
    for _ in 0..300_000 {
        let first = draws.next() % 255;
        let apart = draws.next() % 31;
        let second = if draws.next() % 2 == 0 {
            first.saturating_sub(apart)
        } else {
            (first + apart).min(254)
        };
        let a = draws.with_exponent(first);
        let b = draws.with_exponent(second);
        let ours = Float32::from_bits(a) + Float32::from_bits(b);
        let machine = f32::from_bits(a) + f32::from_bits(b);
        assert!(agrees(ours, machine), "{:#x} + {:#x}: {:#x}", a, b, ours.to_bits());
    }
}

#[test]
fn sum_cancels_as_the_machine_does() {
    // nearly equal numbers of opposite signs
    let mut draws = Draws::new(0x0fed_cba9_8765_4321);
    for _ in 0..200_000 {
        let a = draws.next();
        let nudge = draws.next() % 9;
        let b = (a ^ 0x8000_0000).wrapping_add(nudge).wrapping_sub(4);
        let ours = Float32::from_bits(a) + Float32::from_bits(b);
        let machine = f32::from_bits(a) + f32::from_bits(b);
        assert!(agrees(ours, machine), "{:#x} + {:#x}: {:#x}", a, b, ours.to_bits());
    }
}

#[test]
fn sum_rounds_ties_to_even() {
    // 2^24 + 1 lies half-way between 2^24 and 2^24 + 2
    assert_eq!(num(16777216.0) + num(1.0), num(16777216.0));
    // 2^24 + 3 lies half-way between 2^24 + 2 and 2^24 + 4
    assert_eq!(num(16777218.0) + num(1.0), num(16777220.0));
    assert_eq!((num(0.1) + num(0.2)).to_bits(), (0.1f32 + 0.2f32).to_bits());
}

#[test]
fn sum_is_not_associative_where_it_rounds() {
    let a = num(16777216.0);
    let b = num(1.0);
    let c = num(1.0);
    assert_eq!((a + b) + c, num(16777216.0));
    assert_eq!(a + (b + c), num(16777218.0));
}

#[test]
fn sum_of_opposites_is_positive_zero() {
    assert_eq!((num(1.5) + num(-1.5)).to_bits(), 0);
    assert_eq!((num(-0.0) + num(0.0)).to_bits(), 0);
    assert_eq!((num(-0.0) + num(-0.0)).to_bits(), 0x8000_0000);
}

#[test]
fn product_of_one_and_of_zero() {
    let mut draws = Draws::new(77);
    for _ in 0..10_000 {
        let a = draws.next();
        let x = Float32::from_bits(a);
        if !float(x).is_nan() {
            assert_eq!((x * Float32::one()).to_bits(), a);
        }
        if float(x).is_finite() {
            assert_eq!((x * Float32::zero()).to_bits() & 0x7fff_ffff, 0);
        }
    }
    assert_eq!(float(num(100.0) * num(0.5)), 50.0);
    assert_eq!(float(num(100.0) * num(2.0)), 200.0);
    assert_eq!(float(num(-3.0) * num(0.25)), -0.75);
}

#[test]
fn product_overflows_to_infinity_and_underflows_to_zero() {
    assert_eq!(float(num(1e30) * num(1e30)), f32::INFINITY);
    assert_eq!(float(num(-1e30) * num(1e30)), f32::NEG_INFINITY);
    assert_eq!((num(1e-30) * num(1e-30)).to_bits(), 0);
    assert_eq!((num(-1e-30) * num(1e-30)).to_bits(), 0x8000_0000);
    assert!(float(num(f32::INFINITY) * num(0.0)).is_nan());
}

#[test]
fn every_nan_that_comes_out_is_the_quiet_one() {
    assert_eq!((num(f32::INFINITY) * num(0.0)).to_bits(), 0x7fc0_0000);
    assert_eq!((num(f32::INFINITY) + num(f32::NEG_INFINITY)).to_bits(), 0x7fc0_0000);
    assert_eq!((Float32::from_bits(0xffff_ffff) + num(1.0)).to_bits(), 0x7fc0_0000);
    assert_eq!((Float32::from_bits(0x7f80_0001) * num(1.0)).to_bits(), 0x7fc0_0000);
}

#[test]
fn from_u32_agrees_with_the_machine() {
    let mut draws = Draws::new(0xabcdef);
    for _ in 0..200_000 {
        let n = draws.next() >> (draws.next() % 32);
        assert_eq!(Float32::from_u32(n).to_bits(), (n as f32).to_bits(), "{}", n);
    }
    for n in [0u32, 1, 2, 100, 16777215, 16777216, 16777217, 16777218, 16777219, u32::MAX - 128,
        u32::MAX - 127, u32::MAX]
    {
        assert_eq!(Float32::from_u32(n).to_bits(), (n as f32).to_bits(), "{}", n);
    }
    assert_eq!(float(Float32::from_u32(100)), 100.0);
    assert_eq!(float(Float32::from_u32(16777217)), 16777216.0);
}

#[test]
fn order_against_a_whole_number() {
    assert!(num(5.0).lt_u32(10));
    assert!(!num(10.0).lt_u32(10));
    assert!(!num(10.0).gt_u32(10));
    assert!(num(10.000001).gt_u32(10));
    assert!(num(9.999999).lt_u32(10));
    assert!(num(-1.0).lt_u32(0));
    assert!(!num(-0.0).lt_u32(0));
    assert!(!num(0.0).lt_u32(0));
    assert!(!num(0.0).gt_u32(0));
    assert!(num(1e-45).gt_u32(0));
    assert!(num(1e-45).lt_u32(1));
    assert!(num(f32::NEG_INFINITY).lt_u32(0));
    assert!(!num(f32::INFINITY).lt_u32(u32::MAX));
    assert!(num(f32::INFINITY).gt_u32(u32::MAX));
    assert!(!num(f32::NAN).lt_u32(10));
    assert!(!num(f32::NAN).gt_u32(10));
    assert!(num(4294967296.0).gt_u32(u32::MAX));
    assert!(num(4294967040.0).lt_u32(u32::MAX));
}

#[test]
fn order_against_a_whole_number_is_exact() {
    // 16777217 is no binary32 number: 16777216.0 lies below it
    assert!(num(16777216.0).lt_u32(16777217));
    assert!(!num(16777216.0).gt_u32(16777216));
    assert!(num(16777218.0).gt_u32(16777217));
}

#[test]
fn order_against_a_whole_number_agrees_with_wider_arithmetic() {
    let mut draws = Draws::new(0x5555_aaaa_1234);
    for _ in 0..200_000 {
        let exponent = 100 + draws.next() % 70;
        let bits = draws.with_exponent(exponent);
        let n = draws.next() >> (draws.next() % 32);
        let x = f32::from_bits(bits) as f64;
        assert_eq!(Float32::from_bits(bits).lt_u32(n), x < n as f64, "{:#x} < {}", bits, n);
        assert_eq!(Float32::from_bits(bits).gt_u32(n), x > n as f64, "{:#x} > {}", bits, n);
    }
}

#[test]
fn equality_is_that_of_numbers() {
    assert_eq!(num(0.0), num(-0.0));
    assert_ne!(num(f32::NAN), num(f32::NAN));
    assert_eq!(num(1.5), num(1.5));
    assert_ne!(num(1.5), num(-1.5));
    let mut draws = Draws::new(99);
    for _ in 0..100_000 {
        let a = draws.next();
        let b = if draws.next() % 4 == 0 { a } else { draws.next() };
        assert_eq!(
            Float32::from_bits(a) == Float32::from_bits(b),
            f32::from_bits(a) == f32::from_bits(b)
        );
    }
}

#[test]
fn classification() {
    assert!(num(f32::NAN).nan());
    assert!(!num(1.0).nan());
    assert!(num(f32::INFINITY).infinite());
    assert!(num(f32::NEG_INFINITY).infinite());
    assert!(!num(f32::MAX).infinite());
    assert!(num(f32::MAX).finite());
    assert!(!num(f32::NAN).finite());
    assert!(num(-0.0).sign_negative());
    assert!(!num(0.0).sign_negative());
    assert_eq!(num(-2.5).to_magnitude(), 2.5f32.to_bits());
    assert_eq!(Float32::zero().to_bits(), 0);
    assert_eq!(float(Float32::one()), 1.0);
}
