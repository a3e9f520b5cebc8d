use url_shortener::error::AppError;
use url_shortener::qr_code::generate_qr_code;

#[test]
fn qr_code_is_a_png_image() {
    let png = generate_qr_code("http://localhost:8080/abc123").unwrap();
    assert!(png.len() > 8);
    assert_eq!(&png[..8], &[137u8, 80, 78, 71, 13, 10, 26, 10]);
}

#[test]
fn qr_code_of_an_overlong_address_fails() {
    let url = format!("https://example.com/{}", "x".repeat(4000));
    assert_eq!(generate_qr_code(&url), Err(AppError::QrEncoding));
}
