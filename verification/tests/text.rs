use zm_aidect::text::{append_i64, append_u64};

#[test]
fn decimal_rendering_of_unsigned_values() {
    let mut s = String::new();
    append_u64(&mut s, 0);
    assert_eq!(s, "0");
    let mut s = String::new();
    append_u64(&mut s, 907);
    assert_eq!(s, "907");
    let mut s = String::new();
    append_u64(&mut s, 1_000_000_000);
    assert_eq!(s, "1000000000");
    let mut s = String::from("n=");
    append_u64(&mut s, 25);
    assert_eq!(s, "n=25");
}

#[test]
fn decimal_rendering_of_signed_values() {
    let mut s = String::new();
    append_i64(&mut s, -42);
    assert_eq!(s, "-42");
    let mut s = String::new();
    append_i64(&mut s, 17);
    assert_eq!(s, "17");
    let mut s = String::new();
    append_i64(&mut s, 0);
    assert_eq!(s, "0");
}
