use image::GenericImageView;
use image_tiers::pipeline::output_filename;
use image_tiers::pipeline::process;
use image_tiers::pipeline::ProcessError;
use image_tiers::tiers::Dimensions;
use image_tiers::tiers::ImageOrientation;
use image_tiers::tiers::ImageSize;

#[test]
fn output_filenames_match_pattern() {
    let expected = [
        "photo.lg.jpg",
        "photo.md.jpg",
        "photo.sm.jpg",
        "photo.xs.jpg",
        "photo.thumb.jpg",
        "photo.avatar.jpg",
    ];
    let tiers = ImageSize::values();
    for (tier, want) in tiers.iter().zip(expected.iter()) {
        assert_eq!(output_filename("photo", tier), *want);
    }
}

#[test]
fn landscape_two_to_one_image_produces_six_bounded_outputs() {
    let img = image::DynamicImage::new_rgb8(2000, 1000);
    let d = Dimensions { width: 2000, height: 1000 };
    assert_eq!(ImageOrientation::from(d), ImageOrientation::Landscape);
    assert_eq!(ImageSize::from(d), ImageSize::Large);

    let outs = process(Some(&img), "scene").expect("processing a decoded image succeeds");
    assert_eq!(outs.len(), 6);

    let expected_dims = [(1024, 512), (640, 320), (320, 160), (240, 120), (128, 64), (64, 32)];
    let tiers = ImageSize::values();
    for (i, out) in outs.iter().enumerate() {
        assert_eq!(out.size, tiers[i]);
        assert_eq!(out.filename, format!("scene.{}.jpg", tiers[i].tag()));
        assert_eq!((out.width, out.height), expected_dims[i]);
        // The actual pixels were resized, not merely relabelled.
        assert_eq!(out.image.dimensions(), expected_dims[i]);
        let largest = out.width.max(out.height);
        assert!(largest <= tiers[i].max_dimension());
        // Aspect ratio stays exactly 2:1 for these dimensions.
        assert_eq!(out.width, 2 * out.height);
    }
}

#[test]
fn square_avatar_image_is_never_upscaled() {
    let img = image::DynamicImage::new_rgb8(100, 100);
    let d = Dimensions { width: 100, height: 100 };
    assert_eq!(ImageOrientation::from(d), ImageOrientation::Square);
    assert_eq!(ImageSize::from(d), ImageSize::Avatar);

    let outs = process(Some(&img), "avatar_pic").expect("processing a decoded image succeeds");
    assert_eq!(outs.len(), 6);
    for out in &outs {
        assert!(out.width <= 100 && out.height <= 100);
        assert_eq!((out.width, out.height), out.image.dimensions());
    }
    // The five larger tiers keep the image unchanged; Avatar shrinks it to 64.
    assert_eq!((outs[0].width, outs[0].height), (100, 100));
    assert_eq!((outs[4].width, outs[4].height), (100, 100));
    assert_eq!((outs[5].width, outs[5].height), (64, 64));
}

#[test]
fn failed_decode_yields_decode_error_and_no_outputs() {
    match process(None, "missing") {
        Err(e) => assert_eq!(e, ProcessError::DecodeError),
        Ok(_) => panic!("expected a decode failure"),
    }
}
