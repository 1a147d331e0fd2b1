use tailsend::qr::{generate_qr_rgba, render_qr, QrError};

#[test]
fn test_qr_generation() {
    let result = generate_qr_rgba("https://tailsend.example.com/#i=test", 300).unwrap();
    assert!(result.width >= 300);
    assert!(result.height >= 300);
    assert_eq!(result.rgba_pixels.len(), (result.width * result.height * 4) as usize);
    // The top-left pixel lies in the quiet zone and is light.
    assert_eq!(result.rgba_pixels[0], 255);
    assert_eq!(result.rgba_pixels[1], 255);
    assert_eq!(result.rgba_pixels[2], 255);
    assert_eq!(result.rgba_pixels[3], 255);
}

#[test]
fn qr_bitmap_has_rgba_pixels_for_invitation() {
    let image = generate_qr_rgba("https://ponlet.example/#i=test", 256).expect("QR should encode");
    assert!(image.width >= 256);
    assert_eq!(image.width, image.height);
    assert_eq!(image.rgba_pixels.len(), (image.width * image.height * 4) as usize);
}

#[test]
fn text_too_long_for_a_qr_code_is_refused() {
    let long = "x".repeat(8000);
    assert!(matches!(generate_qr_rgba(&long, 300), Err(QrError::Qr(_))));
}

#[test]
fn modules_are_scaled_inside_the_quiet_zone() {
    // A 21-module grid whose first module is dark, scaled to at least 50 px.
    let mut dark = vec![false; 21 * 21];
    dark[0] = true;
    let image = render_qr(21, &dark, 50);
    // (21 + 8) modules at 2 px each.
    assert_eq!(image.width, 58);
    let scale = 2usize;
    let quiet = 4 * scale;
    let at = |x: usize, y: usize| image.rgba_pixels[4 * (y * image.width as usize + x)];
    assert_eq!(at(quiet, quiet), 0x1a);
    assert_eq!(at(quiet + 1, quiet + 1), 0x1a);
    assert_eq!(at(quiet + scale, quiet), 255);
    assert_eq!(at(0, 0), 255);
    assert_eq!(image.rgba_pixels[4 * (quiet * image.width as usize + quiet) + 3], 255);
}
