use betadog::wide::{compare_products, wide_mul};

#[test]
fn full_products() {
    assert_eq!(wide_mul(0, 12345), (0, 0));
    assert_eq!(wide_mul(3, 4), (0, 12));
    assert_eq!(wide_mul(u128::MAX, 1), (0, u128::MAX));
    assert_eq!(wide_mul(u128::MAX, 2), (1, u128::MAX - 1));
    assert_eq!(wide_mul(u128::MAX, u128::MAX), (u128::MAX - 1, 1));
    assert_eq!(wide_mul(1 << 64, 1 << 64), (1, 0));
    assert_eq!(wide_mul(1 << 127, 4), (2, 0));
    assert_eq!(wide_mul((1 << 64) + 1, (1 << 64) + 1), (1, (1 << 65) + 1));
}

#[test]
fn products_compared() {
    assert_eq!(compare_products(2, 3, 3, 2), 0);
    assert_eq!(compare_products(2, 3, 7, 1), -1);
    assert_eq!(compare_products(7, 1, 2, 3), 1);
    assert_eq!(compare_products(u128::MAX, u128::MAX, u128::MAX, u128::MAX - 1), 1);
    assert_eq!(compare_products(u128::MAX, u128::MAX - 1, u128::MAX, u128::MAX), -1);
    assert_eq!(compare_products(1 << 100, 1 << 100, 1 << 120, 1 << 80), 0);
    assert_eq!(compare_products(0, u128::MAX, 0, 1), 0);
}
