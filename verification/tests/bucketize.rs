use rust_bucketize::{Bucketizer, Float};

fn num(x: f64) -> Float {
    Float::from_bits(x.to_bits())
}

fn some(x: f64) -> Option<Float> {
    Some(num(x))
}

fn slot(b: &Bucketizer, x: f64) -> Option<f64> {
    b.bucketize(num(x)).map(|v| f64::from_bits(v.to_bits()))
}

#[test]
fn single_bucket_middle_values() {
    let bucketizer = Bucketizer::new().bucket(some(0.0), some(1.0), num(0.5));

    assert_eq!(slot(&bucketizer, 0.1), Some(0.5));
    assert_eq!(slot(&bucketizer, 999.999), None);
}

#[test]
fn single_bucket_end_values() {
    let bucketizer = Bucketizer::new().bucket(some(0.0), some(1.0), num(0.5));

    assert_eq!(slot(&bucketizer, 0.0), Some(0.5));
    assert_eq!(slot(&bucketizer, 1.0), None);
}

#[test]
fn multiple_buckets_closed_ends() {
    let b = Bucketizer::new()
        .bucket(some(-1.0), some(0.0), num(-0.5))
        .bucket(some(0.0), some(1.0), num(0.5));
    assert_eq!(slot(&b, 0.0), Some(0.5));
    assert_eq!(slot(&b, -0.7), Some(-0.5));
    assert_eq!(slot(&b, 999.99), None);
}

#[test]
fn multiple_buckets_opened_ends() {
    let b = Bucketizer::new()
        .bucket(some(0.0), some(1.0), num(0.5))
        .bucket(some(1.0), None, num(1.5));

    assert_eq!(slot(&b, 0.0), Some(0.5));
    assert_eq!(slot(&b, -0.7), None);
    assert_eq!(slot(&b, 999.99), Some(1.5));
}
