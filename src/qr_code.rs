//! QR-code images of short links.
use vstd::prelude::*;

use crate::error::AppError;
use image::{ImageError, Luma};
use qrcode::types::QrError;
use qrcode::QrCode;

verus! {

#[verifier::external_type_specification]
#[verifier::external_body]
pub struct ExQrCode(QrCode);

#[verifier::external_type_specification]
#[verifier::external_body]
pub struct ExQrError(QrError);

#[verifier::external_type_specification]
#[verifier::external_body]
pub struct ExImageError(ImageError);

/// Relies on `qrcode::QrCode::new`: the smallest QR code at error-correction level M that
/// holds `data`, or an error when no version can hold it.
#[verifier::external_body]
fn encode_qr(data: &[u8]) -> (r: Result<QrCode, QrError>) {
    QrCode::new(data)
}

/// Relies on `qrcode::QrCode::render` with `image::Luma<u8>` pixels (one grey-scale image of
/// the code, with its default quiet zone) and on `image::ImageBuffer::write_to` with
/// `ImageFormat::Png`, which encodes that image as PNG bytes.
#[verifier::external_body]
fn render_png(code: &QrCode) -> (r: Result<Vec<u8>, ImageError>) {
    let image = code.render::<Luma<u8>>().build();
    let mut buffer = Vec::new();
    image.write_to(&mut std::io::Cursor::new(&mut buffer), image::ImageFormat::Png).map(
        |_| buffer,
    )
}

/// A PNG image of the QR code of `url`. Fails with `QrEncoding` when the address is too long
/// for any QR code or the image cannot be encoded; no other error comes out.
pub fn generate_qr_code(url: &str) -> (r: Result<Vec<u8>, AppError>)
    ensures
        r is Err ==> r == Err::<Vec<u8>, AppError>(AppError::QrEncoding),
{
    let code = match encode_qr(url.as_bytes()) {
        Ok(c) => c,
        Err(_) => return Err(AppError::QrEncoding),
    };
    match render_png(&code) {
        Ok(png) => Ok(png),
        Err(_) => Err(AppError::QrEncoding),
    }
}

} // verus!
