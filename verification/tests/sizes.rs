use squeeze::arith::{div_round, mul_div, mul_div_round, root_round};
use squeeze::text::{div_even, mb, push_decimal, push_number};

#[test]
fn sizes_in_megabytes() {
    assert_eq!(mb(0), "0.0 MB");
    assert_eq!(mb(10_000_000), "10.0 MB");
    assert_eq!(mb(9_949_999), "9.9 MB");
    assert_eq!(mb(9_950_000), "9.9 MB");
    assert_eq!(mb(9_950_001), "10.0 MB");
    assert_eq!(mb(50_000), "0.1 MB");
    assert_eq!(mb(150_000), "0.1 MB");
    assert_eq!(mb(250_000), "0.2 MB");
    assert_eq!(mb(750_000), "0.8 MB");
    assert_eq!(mb(98_765_432), "98.8 MB");
}

#[test]
fn sizes_print_as_doubles_do() {
    let mut n: u64 = 0;
    while n < 60_000_000 {
        assert_eq!(mb(n), format!("{:.1} MB", n as f64 / 1_000_000.0));
        n += 50_000;
    }
    let mut x: u64 = 1;
    for i in 0..4000u64 {
        x = x.wrapping_mul(6_364_136_223_846_793_005).wrapping_add(1_442_695_040_888_963_407);
        let y = x >> (i % 64);
        assert_eq!(mb(y), format!("{:.1} MB", y as f64 / 1_000_000.0));
    }
    for y in [u64::MAX, u64::MAX - 1, 1 << 53, (1 << 53) + 1, (1 << 53) + 3, (1 << 63) + 1025] {
        assert_eq!(mb(y), format!("{:.1} MB", y as f64 / 1_000_000.0));
    }
}

#[test]
fn decimals() {
    for i in [0i64, 7, 10, -1, -10, 1920, i64::MAX, i64::MIN] {
        let mut s = String::from("x");
        push_decimal(&mut s, i);
        assert_eq!(s, format!("x{}", i));
    }
    let mut s = String::new();
    push_number(&mut s, u128::MAX);
    assert_eq!(s, format!("{}", u128::MAX));
}

#[test]
fn nearest_quotients() {
    assert_eq!(div_round(7, 2), 4);
    assert_eq!(div_round(5, 3), 2);
    assert_eq!(div_round(4, 3), 1);
    assert_eq!(div_round(0, 9), 0);
    assert_eq!(div_even(5, 2), 2);
    assert_eq!(div_even(7, 2), 4);
    assert_eq!(div_even(8, 3), 3);
    assert_eq!(mul_div(10, 3, 7), (4, 2));
    assert_eq!(mul_div(u64::MAX, u128::MAX, u128::MAX), (u64::MAX, 0));
    assert_eq!(mul_div_round(10, 3, 7), 4);
    assert_eq!(mul_div_round(3, 1, 2), 2);
}

#[test]
fn nearest_roots() {
    assert_eq!(root_round(2, 1, 9), 1);
    assert_eq!(root_round(3, 1, 9), 2);
    assert_eq!(root_round(9, 4, 9), 2);
    assert_eq!(root_round(0, 5, 9), 0);
    assert_eq!(root_round(1_000_000, 1, 2000), 1000);
}
