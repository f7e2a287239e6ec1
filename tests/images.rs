use ajazz_sdk::error::AjazzError;
use ajazz_sdk::images::{convert_image, convert_image_with_format, convert_logo_image, FitMode, Pixels};
use ajazz_sdk::info::{ImageFormat, ImageMirroring, ImageMode, ImageRotation, Kind};

fn gradient(width: u32, height: u32) -> Pixels {
    let mut data = Vec::new();
    for y in 0..height {
        for x in 0..width {
            data.push((x * 255 / width.max(1)) as u8);
            data.push((y * 255 / height.max(1)) as u8);
            data.push(((x + y) % 256) as u8);
        }
    }
    Pixels { width, height, data }
}

fn format(rotation: ImageRotation, mirror: ImageMirroring) -> ImageFormat {
    ImageFormat { mode: ImageMode::JPEG, size: (40, 24), rotation, mirror }
}

#[test]
fn conversion_is_deterministic() {
    let img = gradient(120, 90);
    let a = convert_image(Kind::Akp153, &img).unwrap();
    let b = convert_image(Kind::Akp153, &gradient(120, 90)).unwrap();
    assert_eq!(a, b);
    assert_eq!(&a[..2], &[0xff, 0xd8]);
}

#[test]
fn rotation_and_mirroring_change_the_output() {
    let img = gradient(64, 48);
    let plain = convert_image_with_format(format(ImageRotation::Rot0, ImageMirroring::Unmirrored), &img).unwrap();
    for rot in [ImageRotation::Rot90, ImageRotation::Rot180, ImageRotation::Rot270] {
        let turned = convert_image_with_format(format(rot, ImageMirroring::Unmirrored), &img).unwrap();
        assert_ne!(plain, turned);
    }
    for m in [ImageMirroring::X, ImageMirroring::Y, ImageMirroring::Both] {
        let flipped = convert_image_with_format(format(ImageRotation::Rot0, m), &img).unwrap();
        assert_ne!(plain, flipped);
    }
}

#[test]
fn half_turn_equals_both_flips() {
    let img = gradient(50, 30);
    let a = convert_image_with_format(format(ImageRotation::Rot180, ImageMirroring::Unmirrored), &img).unwrap();
    let b = convert_image_with_format(format(ImageRotation::Rot0, ImageMirroring::Both), &img).unwrap();
    assert_eq!(a, b);
}

#[test]
fn oversized_target_is_an_image_error() {
    let img = gradient(70000, 1);
    let f = ImageFormat {
        mode: ImageMode::JPEG,
        size: (70000, 1),
        rotation: ImageRotation::Rot0,
        mirror: ImageMirroring::Unmirrored,
    };
    assert!(matches!(convert_image_with_format(f, &img), Err(AjazzError::ImageError(_))));
}

#[test]
fn logo_bytes_are_blue_green_red() {
    let img = Pixels { width: 10, height: 6, data: [200u8, 20, 2].repeat(60) };
    let bytes = convert_logo_image(Kind::Akp815, &img, FitMode::Stretch).unwrap();
    assert_eq!(bytes.len(), 800 * 480 * 3);
    assert_eq!(&bytes[..3], &[2, 20, 200]);
    assert_eq!(&bytes[bytes.len() - 3..], &[2, 20, 200]);
}

#[test]
fn logo_contain_letterboxes() {
    let img = Pixels { width: 10, height: 10, data: vec![255u8; 300] };
    let bytes = convert_logo_image(Kind::Akp153, &img, FitMode::Contain).unwrap();
    assert_eq!(bytes.len(), 854 * 480 * 3);
    assert!(bytes.iter().any(|b| *b == 0));
    assert!(bytes.iter().any(|b| *b == 255));
    let covered = convert_logo_image(Kind::Akp153, &img, FitMode::default()).unwrap();
    assert!(covered.iter().all(|b| *b == 255));
}

#[test]
fn logo_quarter_turn_moves_pixels() {
    let mut data = vec![0u8; 854 * 480 * 3];
    data[0] = 255;
    let img = Pixels { width: 854, height: 480, data };
    let bytes = convert_logo_image(Kind::Akp153, &img, FitMode::Stretch).unwrap();
    assert_eq!(bytes.len(), 854 * 480 * 3);
    assert_eq!(bytes[2], 0);
    assert_eq!(bytes.iter().filter(|b| **b == 255).count(), 1);
}

#[test]
fn logo_conversion_needs_a_screen() {
    let img = gradient(4, 4);
    assert!(matches!(
        convert_logo_image(Kind::Akp03, &img, FitMode::Cover),
        Err(AjazzError::UnsupportedOperation)
    ));
}
