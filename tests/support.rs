use chunked_fetch::digest::{hex_lower, sha256_hex};
use chunked_fetch::progress_bar::ProgressBar;
use chunked_fetch::text::append_decimal;

#[test]
fn sha256_hex_of_known_inputs() {
    assert_eq!(
        sha256_hex(b"abc"),
        "ba7816bf8f01cfea414140de5dae2223b00361a396177a9cb410ff61f20015ad"
    );
    assert_eq!(
        sha256_hex(b""),
        "e3b0c44298fc1c149afbf4c8996fb92427ae41e4649b934ca495991b7852b855"
    );
}

#[test]
fn hex_is_lower_case_two_digits_per_byte() {
    assert_eq!(hex_lower(&[0x00, 0x0f, 0xa5, 0xff]), "000fa5ff");
    assert_eq!(hex_lower(&[]), "");
}

#[test]
fn decimal_rendering() {
    let mut s = String::from("n=");
    append_decimal(&mut s, 0);
    assert_eq!(s, "n=0");
    let mut s = String::new();
    append_decimal(&mut s, 1234509);
    assert_eq!(s, "1234509");
    let mut s = String::new();
    append_decimal(&mut s, usize::MAX);
    assert_eq!(s, usize::MAX.to_string());
}

#[test]
fn progress_bar_fills_in_proportion() {
    let mut p = ProgressBar::new(100, 10);
    assert_eq!(p.bar(), "[          ]");
    p.update(50);
    assert_eq!(p.current, 50);
    assert_eq!(p.filled(), 5);
    assert_eq!(p.bar(), "[=====     ]");
    p.update(100);
    assert_eq!(p.bar(), "[==========]");
    p.set_total(0);
    assert_eq!(p.filled(), 0);
    p.set_total(1000);
    assert_eq!(p.filled(), 1);
    assert_eq!(p.total, 1000);
    p.update(2000);
    assert_eq!(p.filled(), 10);
}
