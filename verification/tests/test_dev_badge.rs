//! Tests for the development banner badge.

use icon_gen::badge::apply_dev_badge;
use icon_gen::raster::{Raster, Rgba};
use icon_gen::badge::apply_dev_badge_with_bug;
use icon_gen::badge::{cos_q10, sin_q10};
use icon_gen::badge::rotate_image;

#[test]
fn test_apply_dev_badge() {
    // Create a simple test image
    let width = 256;
    let height = 256;
    let mut img = Raster::filled(width, height, Rgba { r: 100, g: 150, b: 200, a: 255 });

    // Apply the dev badge
    let result = apply_dev_badge(&mut img);

    // Check that the function succeeds
    assert!(result.is_ok());

    // Verify the image still has the same dimensions
    assert_eq!(img.width, width);
    assert_eq!(img.height, height);

    // Check that the bottom part of the image has been modified
    // (the ribbon should be at the bottom 1/4 of the image)
    let badge_height = height / 4;
    let ribbon_y_start = height - badge_height;

    // Sample a pixel from the ribbon area
    let ribbon_pixel = img.pixel(width / 2, ribbon_y_start + badge_height / 2);

    // The ribbon should have a red tint (red component should be significant)
    assert!(ribbon_pixel.r > 100); // Red channel should be noticeable
}

#[test]
fn test_apply_dev_badge_small_image() {
    // Test with a small image
    let width = 32;
    let height = 32;
    let mut img = Raster::filled(width, height, Rgba { r: 50, g: 100, b: 150, a: 255 });

    // Apply the dev badge
    let result = apply_dev_badge(&mut img);

    // Should work even with small images
    assert!(result.is_ok());
    assert_eq!(img.width, width);
    assert_eq!(img.height, height);
}

#[test]
fn test_banner_region_is_red_everywhere() {
    let mut img = Raster::filled(64, 64, Rgba { r: 10, g: 220, b: 10, a: 255 });
    apply_dev_badge(&mut img).unwrap();
    let ribbon_y_start = 64 - 64 / 4;
    for y in ribbon_y_start..64 {
        for x in 0..64 {
            let p = img.pixel(x, y);
            assert!(p.r >= 100, "pixel ({}, {}) red {}", x, y, p.r);
            assert!(p.a > 0);
        }
    }
    // Above the banner the image is untouched.
    let above = img.pixel(32, ribbon_y_start - 1);
    assert_eq!((above.r, above.g, above.b, above.a), (10, 220, 10, 255));
}

#[test]
fn test_bug_badge_known_and_unknown_kinds() {

    let mut img = Raster::filled(64, 64, Rgba { r: 0, g: 0, b: 255, a: 255 });
    assert!(apply_dev_badge_with_bug(&mut img, "ladybug", 0).is_ok());
    assert_eq!(img.width, 64);
    assert_eq!(img.height, 64);
    // The bug disc covers the centre with the ladybug's red body.
    let centre = img.pixel(32, 32);
    assert!(centre.r > centre.b);

    let mut img2 = Raster::filled(64, 64, Rgba { r: 0, g: 0, b: 255, a: 255 });
    let err = apply_dev_badge_with_bug(&mut img2, "sphinx", 0).unwrap_err();
    let msg = err.message();
    // The message names the rejected identifier and the valid set.
    assert!(msg.contains("sphinx"));
    assert!(msg.contains("moth"));
    assert!(msg.contains("cockroach"));
    assert!(msg.contains("ladybug"));
    assert!(msg.contains("spider"));
    // A failed badge leaves the image untouched.
    let p = img2.pixel(32, 32);
    assert_eq!((p.r, p.g, p.b, p.a), (0, 0, 255, 255));
}

#[test]
fn test_rotation_fixed_point_table() {
    assert_eq!(sin_q10(0), 0);
    assert_eq!(sin_q10(90), 1024);
    assert_eq!(sin_q10(180), 0);
    assert_eq!(cos_q10(0), 1024);
    assert_eq!(cos_q10(180), -1024);
    // The approximation stays within the fixed-point unit circle.
    for d in 0..360 {
        let s = sin_q10(d);
        let c = cos_q10(d);
        assert!((-1024..=1024).contains(&s));
        assert!((-1024..=1024).contains(&c));
    }
}

#[test]
fn test_rotate_image_preserves_dimensions() {
    let img = Raster::filled(20, 20, Rgba { r: 9, g: 8, b: 7, a: 255 });
    let turned = rotate_image(&img, 45);
    assert_eq!(turned.width, 20);
    assert_eq!(turned.height, 20);
    // The centre keeps its colour under any rotation about the centre.
    let p = turned.pixel(10, 10);
    assert_eq!((p.r, p.g, p.b), (9, 8, 7));
}

#[test]
fn test_rotate_image_samples_inverse_coordinate() {
    // Each destination pixel reads the source at the inverse-rotated
    // offset: at a quarter turn, (3,2) on a 4x4 canvas reads (2,1).
    let mut img = Raster::filled(4, 4, Rgba { r: 0, g: 0, b: 0, a: 255 });
    img.set_pixel(2, 1, Rgba { r: 200, g: 10, b: 20, a: 255 });
    let turned = rotate_image(&img, 90);
    let p = turned.pixel(3, 2);
    assert_eq!((p.r, p.g, p.b, p.a), (200, 10, 20, 255));
}
