use pong::units::{isqrt, Colour, Vector2};

#[test]
fn the_square_root_is_rounded_down() {
    let expected = [0u64, 1, 1, 1, 2, 2, 2, 2, 2, 3, 3];
    for (n, root) in expected.iter().enumerate() {
        assert_eq!(isqrt(n as u64), *root);
    }
    assert_eq!(isqrt(15), 3);
    assert_eq!(isqrt(16), 4);
    assert_eq!(isqrt(17), 4);
    assert_eq!(isqrt(99), 9);
    assert_eq!(isqrt(100), 10);
}

#[test]
fn the_square_root_of_large_numbers() {
    assert_eq!(isqrt(250_000_000_000), 500_000);
    assert_eq!(isqrt(249_999_999_999), 499_999);
    assert_eq!(isqrt(u64::MAX), 4_294_967_295);
    assert_eq!(isqrt(4_294_967_295 * 4_294_967_295), 4_294_967_295);
    assert_eq!(isqrt(4_294_967_295 * 4_294_967_295 - 1), 4_294_967_294);
    assert_eq!(isqrt(1 << 62), 1 << 31);
}

#[test]
fn the_square_root_brackets_its_argument() {
    let mut n: u64 = 1;
    while n < u64::MAX / 3 {
        let r = isqrt(n) as u128;
        assert!(r * r <= n as u128);
        assert!((r + 1) * (r + 1) > n as u128);
        n = n * 3 + 1;
    }
}

#[test]
fn vectors_and_colours_are_compared_by_their_fields() {
    assert_eq!(Vector2 { x: 1, y: -2 }, Vector2 { x: 1, y: -2 });
    assert_ne!(Vector2 { x: 1, y: -2 }, Vector2 { x: -2, y: 1 });
    let white = Colour { red: 1000, green: 1000, blue: 1000, alpha: 1000 };
    assert_eq!(white, white.clone());
    assert_ne!(white, Colour { alpha: 0, ..white });
}
