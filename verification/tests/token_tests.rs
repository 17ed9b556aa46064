use pipo::http::MatrixBearer;
use pipo::token::{to_hex_lower, TokenGenerator};

#[test]
fn hex_is_two_lower_case_digits_per_byte() {
    assert_eq!(to_hex_lower(&[0x00, 0x0f, 0xa0, 0xff, 0x5c]), "000fa0ff5c");
    assert_eq!(to_hex_lower(&[]), "");
}

#[test]
fn tokens_are_sixty_four_hex_digits() {
    let mut gen = TokenGenerator::new();
    let a = gen.generate_token();
    let b = gen.generate_token();
    assert_eq!(a.len(), 64);
    assert!(a.chars().all(|c| c.is_ascii_digit() || ('a'..='f').contains(&c)));
    assert_ne!(a, b);
    assert_ne!(a, "0".repeat(64));
}

#[test]
fn generated_tokens_make_bearers() {
    let mut gen = TokenGenerator::new();
    let t = gen.generate_token();
    assert!(MatrixBearer::accepts_token(&t));
    let b = MatrixBearer::new(&t);
    assert!(b.validate(Some(format!("Bearer {t}").as_bytes())).is_ok());
}
