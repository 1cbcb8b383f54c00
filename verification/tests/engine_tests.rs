//! End-to-end tests of the generation engine: resize, compositing,
//! container layout, manifests and routing, all in memory.

use icon_gen::compose::{apply_circular_mask, composite_background};
use icon_gen::ico::parse_ico_sizes;
use icon_gen::plan::{Args, OutputFile};
use icon_gen::raster::{Raster, Rgba};
use icon_gen::recipes::generate_icons;
use icon_gen::resample::resize;
use icon_gen::recipes::generate_tauri_bundle;
use icon_gen::color::{parse_background_color, Rgb};
use icon_gen::error::IconError;
use icon_gen::textfmt::dec_string;
use icon_gen::resample::resize_to_fit;
use icon_gen::plan::{should_invoke_ios_writer, should_invoke_macos_writer};
use icon_gen::badge::get_embedded_bug_image;

fn plain_args() -> Args {
    Args {
        input: "icon.png".to_string(),
        output: "icons".to_string(),
        png: None,
        ico_only: false,
        icns_only: false,
        desktop_only: false,
        mobile_only: false,
        windows: false,
        macos: false,
        linux: false,
        android: false,
        android_round: false,
        android_adaptive: false,
        android_adaptive_bg: "#ffffff".to_string(),
        ios: false,
        ios_color: "#ffffff".to_string(),
        dev_mode: false,
        dev_bug: String::new(),
    }
}

fn gradient_source(n: u32) -> Raster {
    let mut img = Raster::filled(n, n, Rgba { r: 0, g: 0, b: 0, a: 255 });
    for y in 0..n {
        for x in 0..n {
            let blue = ((255 * x) / n.max(1)) as u8;
            let green = ((100 * y) / n.max(1)) as u8;
            img.set_pixel(x, y, Rgba { r: 50, g: green, b: blue, a: 255 });
        }
    }
    img
}

fn find<'a>(files: &'a [OutputFile], path: &str) -> Option<&'a OutputFile> {
    files.iter().find(|f| f.path == path)
}

#[test]
fn test_resize_yields_exact_dimensions() {
    let src = gradient_source(100);
    for n in [1u32, 7, 37, 256] {
        let out = resize(&src, n);
        assert_eq!(out.width, n);
        assert_eq!(out.height, n);
        assert_eq!(out.pixels.len(), (n * n) as usize);
    }
}

#[test]
fn test_resize_is_deterministic() {
    let src = gradient_source(64);
    let a = resize(&src, 24);
    let b = resize(&src, 24);
    for i in 0..a.pixels.len() {
        assert_eq!(a.pixels[i], b.pixels[i]);
    }
}

#[test]
fn test_circular_mask_center_and_corner() {
    let img = Raster::filled(256, 256, Rgba { r: 40, g: 50, b: 60, a: 255 });
    let round = apply_circular_mask(&img);
    assert_eq!(round.pixel(128, 128).a, 255);
    assert_eq!(round.pixel(0, 0).a, 0);
    assert_eq!(round.pixel(255, 255).a, 0);
    // Colour channels are untouched by the mask.
    assert_eq!(round.pixel(128, 128).r, 40);
}

#[test]
fn test_background_composite_opaque_foreground() {
    let img = Raster::filled(8, 8, Rgba { r: 12, g: 34, b: 56, a: 255 });
    let flat = composite_background(&img, 255, 0, 0);
    let p = flat.pixel(3, 3);
    assert_eq!((p.r, p.g, p.b, p.a), (12, 34, 56, 255));
}

#[test]
fn test_background_composite_transparent_foreground() {
    let img = Raster::filled(8, 8, Rgba { r: 12, g: 34, b: 56, a: 0 });
    let flat = composite_background(&img, 7, 8, 9);
    let p = flat.pixel(0, 7);
    assert_eq!((p.r, p.g, p.b, p.a), (7, 8, 9, 255));
}

#[test]
fn test_ico_ladder_round_trip() {
    let src = gradient_source(300);
    let mut args = plain_args();
    args.ico_only = true;
    let files = generate_icons(&src, &args).expect("generation should succeed");
    assert_eq!(files.len(), 1);
    assert_eq!(files[0].path, "icon.ico");
    let sizes = parse_ico_sizes(&files[0].bytes).expect("a valid container directory");
    assert_eq!(sizes, vec![16, 24, 32, 48, 64, 256]);
    // An outside decoder agrees that the container is readable and that
    // its best frame is the 256-pixel one.
    let decoded = image::load_from_memory_with_format(
        &files[0].bytes,
        image::ImageFormat::Ico,
    )
    .expect("outside decoder accepts the container");
    assert_eq!(decoded.width(), 256);
    assert_eq!(decoded.height(), 256);
}

#[test]
fn test_icns_family_parses() {
    let src = gradient_source(128);
    let mut args = plain_args();
    args.icns_only = true;
    let files = generate_icons(&src, &args).expect("generation should succeed");
    // The family, one flat PNG per distinct family edge, and the manifest.
    assert_eq!(files.len(), 9);
    assert_eq!(files[0].path, "icon.icns");
    assert_eq!(files[8].path, "Contents.json");
    assert_eq!(&files[0].bytes[0..4], b"icns");
    let family = icns::IconFamily::read(&files[0].bytes[..])
        .expect("outside reader accepts the family");
    assert_eq!(family.elements.len(), 10);
    for (j, edge) in [16u32, 32, 64, 128, 256, 512, 1024].iter().enumerate() {
        let png = &files[1 + j];
        assert_eq!(png.path, format!("icon_{}.png", edge));
        let decoded = image::load_from_memory(&png.bytes).expect("valid PNG");
        assert_eq!(decoded.width(), *edge);
        assert_eq!(decoded.height(), *edge);
    }
    // The macOS manifest lists one record per family slot.
    let json = String::from_utf8(files[8].bytes.clone()).unwrap();
    let parsed: serde_json::Value = serde_json::from_str(&json).expect("valid JSON");
    assert_eq!(parsed["images"].as_array().unwrap().len(), 10);
    for rec in parsed["images"].as_array().unwrap() {
        assert_eq!(rec["idiom"], "mac");
        assert_eq!(rec["folder"], ".");
    }
}

#[test]
fn test_macos_manifest_files_exist() {
    let src = gradient_source(96);
    let mut args = plain_args();
    args.icns_only = true;
    let files = generate_icons(&src, &args).expect("generation should succeed");
    let manifest = find(&files, "Contents.json").expect("manifest present");
    let json = String::from_utf8(manifest.bytes.clone()).unwrap();
    let parsed: serde_json::Value = serde_json::from_str(&json).expect("valid JSON");
    for rec in parsed["images"].as_array().unwrap() {
        let filename = rec["filename"].as_str().expect("filename present");
        assert!(
            find(&files, filename).is_some(),
            "manifest references {} but no such file was produced",
            filename
        );
    }
}

#[test]
fn test_ios_contents_json_scenario() {
    // A 1024 x 1024 opaque gradient source through the iOS target with a
    // white background.
    let src = gradient_source(1024);
    let mut args = plain_args();
    args.ios = true;
    args.ios_color = "#ffffff".to_string();
    let files = generate_icons(&src, &args).expect("generation should succeed");
    let manifest = find(&files, "ios/Contents.json").expect("manifest present");
    let json = String::from_utf8(manifest.bytes.clone()).unwrap();
    let parsed: serde_json::Value = serde_json::from_str(&json).expect("valid JSON");
    assert_eq!(parsed["info"]["version"], 1);
    assert_eq!(parsed["images"].as_array().unwrap().len(), 17);
}

#[test]
fn test_ios_manifest_files_exist() {
    let src = gradient_source(256);
    let mut args = plain_args();
    args.ios = true;
    let files = generate_icons(&src, &args).expect("generation should succeed");
    let manifest = find(&files, "ios/Contents.json").expect("manifest present");
    let json = String::from_utf8(manifest.bytes.clone()).unwrap();
    let parsed: serde_json::Value = serde_json::from_str(&json).expect("valid JSON");
    for rec in parsed["images"].as_array().unwrap() {
        let filename = rec["filename"].as_str().expect("filename present");
        let path = format!("ios/{}", filename);
        assert!(
            find(&files, &path).is_some(),
            "manifest references {} but no such file was produced",
            path
        );
    }
}

#[test]
fn test_ios_manifest_unique_keys() {
    let src = gradient_source(256);
    let mut args = plain_args();
    args.ios = true;
    let files = generate_icons(&src, &args).expect("generation should succeed");
    let manifest = find(&files, "ios/Contents.json").expect("manifest present");
    let json = String::from_utf8(manifest.bytes.clone()).unwrap();
    let parsed: serde_json::Value = serde_json::from_str(&json).expect("valid JSON");
    let records = parsed["images"].as_array().unwrap();
    assert_eq!(records.len(), 17);
    let mut keys: Vec<(String, String, String)> = Vec::new();
    for rec in records {
        let key = (
            rec["idiom"].as_str().unwrap().to_string(),
            rec["size"].as_str().unwrap().to_string(),
            rec["scale"].as_str().unwrap().to_string(),
        );
        assert!(!keys.contains(&key), "duplicate key {:?}", key);
        keys.push(key);
    }
    // The marketing icon is among them.
    assert!(keys.iter().any(|k| k.0 == "ios-marketing"));
    // The iPad-Pro slot uses the fractional nominal size.
    assert!(keys.iter().any(|k| k.1 == "83.5x83.5"));
}

#[test]
fn test_ios_icons_are_opaque() {
    let src = gradient_source(64);
    // A half-transparent source must come out fully opaque.
    let mut img = src;
    for y in 0..64 {
        for x in 0..64 {
            let p = img.pixel(x, y);
            img.set_pixel(x, y, Rgba { a: 128, ..p });
        }
    }
    let mut args = plain_args();
    args.ios = true;
    args.ios_color = "#336699".to_string();
    let files = generate_icons(&img, &args).expect("generation should succeed");
    let png = find(&files, "ios/AppIcon-40x40@1x.png").expect("slot present");
    let decoded = image::load_from_memory(&png.bytes).expect("valid PNG").to_rgba8();
    for p in decoded.pixels() {
        assert_eq!(p.0[3], 255);
    }
}

#[test]
fn test_banner_badge_scenario() {
    // A 128 x 128 solid source through badge mode with the default
    // banner variant.
    let src = Raster::filled(128, 128, Rgba { r: 20, g: 20, b: 20, a: 255 });
    let mut args = plain_args();
    args.png = Some(vec![128]);
    args.dev_mode = true;
    let files = generate_icons(&src, &args).expect("generation should succeed");
    assert_eq!(files.len(), 1);
    assert_eq!(files[0].path, "128x128.png");
    let decoded = image::load_from_memory(&files[0].bytes).expect("valid PNG").to_rgba8();
    assert_eq!(decoded.width(), 128);
    assert_eq!(decoded.height(), 128);
    let p = decoded.get_pixel(64, 128 - 128 / 8);
    assert!(p.0[0] >= 100, "red channel {}", p.0[0]);
    assert!(p.0[3] > 0);
}

#[test]
fn test_non_square_source_rejected() {
    let src = Raster::filled(100, 200, Rgba { r: 1, g: 2, b: 3, a: 255 });
    let args = plain_args();
    let err = generate_icons(&src, &args).unwrap_err();
    let msg = err.message();
    assert!(msg.contains("square"));
    // The message names the rejected dimensions.
    assert!(msg.contains("100x200"), "{}", msg);
}

#[test]
fn test_custom_sizes_suppress_platform_outputs() {
    let src = gradient_source(64);
    let mut args = plain_args();
    args.png = Some(vec![16, 48]);
    let files = generate_icons(&src, &args).expect("generation should succeed");
    let paths: Vec<&str> = files.iter().map(|f| f.path.as_str()).collect();
    assert_eq!(paths, vec!["16x16.png", "48x48.png"]);
}

#[test]
fn test_custom_sizes_suppress_every_path() {
    // The size list wins over every other selector.
    let src = gradient_source(64);
    for setter in [0, 1, 2, 3] {
        let mut args = plain_args();
        args.png = Some(vec![24]);
        match setter {
            0 => args.ico_only = true,
            1 => args.icns_only = true,
            2 => args.mobile_only = true,
            _ => {
                args.windows = true;
                args.ios = true;
            },
        }
        let files = generate_icons(&src, &args).expect("generation should succeed");
        let paths: Vec<&str> = files.iter().map(|f| f.path.as_str()).collect();
        assert_eq!(paths, vec!["24x24.png"], "selector case {}", setter);
    }
}

#[test]
fn test_custom_size_zero_rejected() {
    let src = gradient_source(64);
    let mut args = plain_args();
    args.png = Some(vec![32, 0]);
    let err = generate_icons(&src, &args).unwrap_err();
    let msg = err.message();
    assert!(msg.contains("size"));
    // The message names the rejected value.
    assert!(msg.contains(" 0 "), "{}", msg);
}

#[test]
fn test_custom_size_too_large_rejected() {
    let src = gradient_source(64);
    let mut args = plain_args();
    args.png = Some(vec![99999]);
    let err = generate_icons(&src, &args).unwrap_err();
    assert!(err.message().contains("99999"));
}

#[test]
fn test_default_run_covers_all_platforms() {
    let src = gradient_source(64);
    let args = plain_args();
    let files = generate_icons(&src, &args).expect("generation should succeed");
    let paths: Vec<&str> = files.iter().map(|f| f.path.as_str()).collect();
    assert!(paths.contains(&"icon.ico"));
    assert!(paths.contains(&"icon.icns"));
    assert!(paths.contains(&"icon_512.png"));
    assert!(paths.contains(&"Contents.json"));
    assert!(paths.contains(&"32x32.png"));
    assert!(paths.contains(&"icon.png"));
    assert!(paths.contains(&"android/mipmap-mdpi/ic_launcher.png"));
    assert!(paths.contains(&"android/mipmap-xxxhdpi/ic_launcher.png"));
    assert!(paths.contains(&"ios/Contents.json"));
    assert!(paths.contains(&"ios/AppIcon-1024x1024.png"));
}

#[test]
fn test_android_round_and_adaptive_outputs() {
    let src = gradient_source(64);
    let mut args = plain_args();
    args.android = true;
    args.android_round = true;
    args.android_adaptive = true;
    args.android_adaptive_bg = "#00ff00".to_string();
    let files = generate_icons(&src, &args).expect("generation should succeed");
    let paths: Vec<&str> = files.iter().map(|f| f.path.as_str()).collect();
    for d in ["mdpi", "hdpi", "xhdpi", "xxhdpi", "xxxhdpi"] {
        assert!(paths.contains(&format!("android/mipmap-{}/ic_launcher.png", d).as_str()));
        assert!(paths.contains(&format!("android/mipmap-{}/ic_launcher_round.png", d).as_str()));
        assert!(paths
            .contains(&format!("android/mipmap-{}/ic_launcher_foreground.png", d).as_str()));
        assert!(paths
            .contains(&format!("android/mipmap-{}/ic_launcher_background.png", d).as_str()));
    }
    assert!(paths.contains(&"android/mipmap-anydpi-v26/ic_launcher.xml"));
    assert!(paths.contains(&"android/mipmap-anydpi-v26/ic_launcher_round.xml"));
    // No iOS output without the iOS selection.
    assert!(!paths.iter().any(|p| p.starts_with("ios/")));
    // The background layer is the configured solid colour.
    let bg = find(&files, "android/mipmap-mdpi/ic_launcher_background.png").unwrap();
    let decoded = image::load_from_memory(&bg.bytes).expect("valid PNG").to_rgba8();
    assert_eq!(decoded.width(), 108);
    let p = decoded.get_pixel(50, 50);
    assert_eq!((p.0[0], p.0[1], p.0[2], p.0[3]), (0, 255, 0, 255));
}

#[test]
fn test_adaptive_xml_content() {
    let src = gradient_source(64);
    let mut args = plain_args();
    args.android = true;
    args.android_adaptive = true;
    let files = generate_icons(&src, &args).expect("generation should succeed");
    let xml = find(&files, "android/mipmap-anydpi-v26/ic_launcher.xml").unwrap();
    let text = String::from_utf8(xml.bytes.clone()).unwrap();
    assert!(text.contains("<adaptive-icon"));
    assert!(text.contains("@mipmap/ic_launcher_background"));
    assert!(text.contains("@mipmap/ic_launcher_foreground"));
}

#[test]
fn test_tauri_bundle() {
    let src = gradient_source(64);
    let ico = vec![1u8, 2, 3];
    let icns = vec![4u8, 5];
    let mut out: Vec<OutputFile> = Vec::new();
    generate_tauri_bundle(&src, &mut out, &ico, &icns, false, "").unwrap();
    let paths: Vec<&str> = out.iter().map(|f| f.path.as_str()).collect();
    assert_eq!(
        paths,
        vec![
            "tauri-desktop/32x32.png",
            "tauri-desktop/128x128.png",
            "tauri-desktop/128x128@2x.png",
            "tauri-desktop/icon.ico",
            "tauri-desktop/icon.icns",
        ]
    );
    assert_eq!(out[3].bytes, ico);
    assert_eq!(out[4].bytes, icns);
    let retina = image::load_from_memory(&out[2].bytes).expect("valid PNG");
    assert_eq!(retina.width(), 256);
}

#[test]
fn test_color_parsing() {
    assert_eq!(parse_background_color("#fff"), Rgb { r: 255, g: 255, b: 255 });
    assert_eq!(parse_background_color("#000"), Rgb { r: 0, g: 0, b: 0 });
    assert_eq!(parse_background_color("#112233"), Rgb { r: 0x11, g: 0x22, b: 0x33 });
    assert_eq!(parse_background_color("#8904"), Rgb { r: 0x88, g: 0x99, b: 0x00 });
    assert_eq!(parse_background_color("#11223344"), Rgb { r: 0x11, g: 0x22, b: 0x33 });
    // The sixteen basic colour names resolve.
    assert_eq!(parse_background_color("red"), Rgb { r: 255, g: 0, b: 0 });
    assert_eq!(parse_background_color("teal"), Rgb { r: 0, g: 0x80, b: 0x80 });
    assert_eq!(parse_background_color("navy"), Rgb { r: 0, g: 0, b: 0x80 });
    assert_eq!(parse_background_color("black"), Rgb { r: 0, g: 0, b: 0 });
    // Anything that does not parse falls back to opaque white.
    assert_eq!(parse_background_color("rgb(255, 0, 0)"), Rgb { r: 255, g: 255, b: 255 });
    assert_eq!(parse_background_color("cerulean"), Rgb { r: 255, g: 255, b: 255 });
    assert_eq!(parse_background_color("teal-ish"), Rgb { r: 255, g: 255, b: 255 });
    assert_eq!(parse_background_color("#12"), Rgb { r: 255, g: 255, b: 255 });
    assert_eq!(parse_background_color("112233"), Rgb { r: 255, g: 255, b: 255 });
    assert_eq!(parse_background_color("#11223g"), Rgb { r: 255, g: 255, b: 255 });
}

#[test]
fn test_error_messages_name_the_problem() {
    let non_square = IconError::NonSquareSource { width: 1, height: 2 };
    assert!(non_square.message().contains("square"));
    assert!(non_square.message().contains("1x2"));
    let bug = IconError::UnknownBugKind { name: "gnat".to_string() };
    assert!(bug.message().contains("gnat"));
    assert!(bug.message().contains("moth"));
    let code = IconError::UnknownOsType { code: "ic99".to_string() };
    assert!(code.message().contains("type code"));
    assert!(code.message().contains("ic99"));
    let size = IconError::InvalidSize { size: 70000 };
    assert!(size.message().contains("16384"));
    assert!(size.message().contains("70000"));
    assert!(IconError::EncodeFailed.message().contains("encoding"));
}

#[test]
fn test_decimal_rendering() {
    assert_eq!(dec_string(0), "0");
    assert_eq!(dec_string(7), "7");
    assert_eq!(dec_string(83), "83");
    assert_eq!(dec_string(1024), "1024");
    assert_eq!(dec_string(4294967295), "4294967295");
}

#[test]
fn test_resize_to_fit_keeps_aspect() {
    let wide = gradient_source(64); // square source fits exactly
    let fitted = resize_to_fit(&wide, 16);
    assert_eq!((fitted.width, fitted.height), (16, 16));
    let mut tall = Raster::filled(10, 40, Rgba { r: 1, g: 1, b: 1, a: 255 });
    tall.set_pixel(0, 0, Rgba { r: 9, g: 9, b: 9, a: 255 });
    let fitted = resize_to_fit(&tall, 20);
    assert_eq!((fitted.width, fitted.height), (5, 20));
}

#[test]
fn test_ios_writer_routing() {
    let mut a = plain_args();
    // Default run: both writers run.
    assert!(should_invoke_ios_writer(&a, false));
    assert!(should_invoke_macos_writer(&a, false));
    // An explicit Windows-only run: neither runs.
    a.windows = true;
    assert!(!should_invoke_ios_writer(&a, true));
    assert!(!should_invoke_macos_writer(&a, true));
    // ICO-only: neither runs.
    let mut b = plain_args();
    b.ico_only = true;
    assert!(!should_invoke_ios_writer(&b, false));
    assert!(!should_invoke_macos_writer(&b, false));
    // Mobile-only: the iOS writer runs, the macOS writer does not.
    let mut c = plain_args();
    c.mobile_only = true;
    assert!(should_invoke_ios_writer(&c, false));
    assert!(!should_invoke_macos_writer(&c, false));
}

#[test]
fn test_ico_only_routing_produces_single_file() {
    let src = gradient_source(32);
    let mut args = plain_args();
    args.ico_only = true;
    let files = generate_icons(&src, &args).expect("generation should succeed");
    assert_eq!(files.len(), 1);
}

#[test]
fn test_embedded_bug_lookup() {
    for kind in ["moth", "cockroach", "ladybug", "spider"] {
        let bug = get_embedded_bug_image(kind).expect("known kind");
        assert_eq!(bug.width, 64);
        assert_eq!(bug.height, 64);
        // The disc centre is opaque, the corners transparent.
        assert_eq!(bug.pixel(32, 32).a, 255);
        assert_eq!(bug.pixel(0, 0).a, 0);
    }
    assert!(get_embedded_bug_image("dragonfly").is_err());
}
