use parallel_disk_usage::size::{Blocks, Bytes, Size};

#[test]
fn bytes_plus_and_zero() {
    assert_eq!(Bytes::zero().inner(), 0);
    assert_eq!(Bytes::new(3).plus(Bytes::new(4)).inner(), 7);
    assert_eq!((Bytes::new(3) + Bytes::new(4)).to_u64(), 7);
}

#[test]
fn bytes_plus_saturates() {
    assert_eq!(Bytes::new(u64::MAX).plus(Bytes::new(1)).inner(), u64::MAX);
    assert_eq!((Bytes::new(u64::MAX - 1) + Bytes::new(5)).inner(), u64::MAX);
}

#[test]
fn blocks_plus_and_zero() {
    assert_eq!(Blocks::zero().inner(), 0);
    assert_eq!((Blocks::new(2) + Blocks::new(2)).to_u64(), 4);
    assert_eq!(Blocks::new(u64::MAX).plus(Blocks::new(u64::MAX)).inner(), u64::MAX);
}

#[test]
fn sizes_are_ordered() {
    assert!(Bytes::new(1) < Bytes::new(2));
    assert!(Blocks::new(7) > Blocks::new(3));
}
