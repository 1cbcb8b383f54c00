//! Tests for the asset-catalog data model and its canonical JSON
//! serialization.

use icon_gen::contents_json::{ContentsFile, ImageEntry};

#[test]
fn test_contents_file_creation() {
    let contents = ContentsFile::new("com.example.app".to_string());
    assert_eq!(contents.info.author, "com.example.app");
    assert_eq!(contents.info.version, 1);
    assert!(contents.images.is_empty());
}

#[test]
fn test_image_entry_creation() {
    let image = ImageEntry::new(
        "icon-60@2x.png".to_string(),
        "iphone".to_string(),
        "2x".to_string(),
    );
    assert_eq!(image.filename.unwrap(), "icon-60@2x.png");
    assert_eq!(image.idiom.unwrap(), "iphone");
    assert_eq!(image.scale.unwrap(), "2x");
}

#[test]
fn test_app_icon_creation() {
    let icon = ImageEntry::new_app_icon(
        "AppIcon60x60@2x.png".to_string(),
        "iphone".to_string(),
        "60x60".to_string(),
        "2x".to_string(),
        Some("appLauncher".to_string()),
    );

    assert_eq!(icon.filename.unwrap(), "AppIcon60x60@2x.png");
    assert_eq!(icon.size.unwrap(), "60x60");
    assert_eq!(icon.expected_size.unwrap(), "60x60");
    assert_eq!(icon.role.unwrap(), "appLauncher");
}

#[test]
fn test_serialization() {
    let mut contents = ContentsFile::new("com.test.app".to_string());
    contents.add_image(ImageEntry::new(
        "test.png".to_string(),
        "universal".to_string(),
        "1x".to_string(),
    ));

    let json = contents.to_json();
    assert!(json.contains("test.png"));
    assert!(json.contains("com.test.app"));
}

#[test]
fn test_apple_contents_json_format() {
    // Create a realistic iOS app icon Contents.json structure
    let mut contents = ContentsFile::new("com.example.iconapp".to_string());

    // Add iPhone notification icon
    contents.add_image(ImageEntry::new_app_icon(
        "AppIcon29x29.png".to_string(),
        "iphone".to_string(),
        "29x29".to_string(),
        "1x".to_string(),
        Some("notificationCenter".to_string()),
    ));

    // Add iPhone app launcher icon
    contents.add_image(ImageEntry::new_app_icon(
        "AppIcon60x60@2x.png".to_string(),
        "iphone".to_string(),
        "60x60".to_string(),
        "2x".to_string(),
        Some("appLauncher".to_string()),
    ));

    let json = contents.to_json();

    // Print for demonstration
    println!("\n=== Generated Apple Contents.json ===");
    println!("{}", json);
    println!("=== End Contents.json ===");

    // Verify structure
    assert!(json.contains("images"));
    assert!(json.contains("info"));
    assert!(json.contains("AppIcon29x29.png"));
    assert!(json.contains("AppIcon60x60@2x.png"));
    assert!(json.contains("notificationCenter"));
    assert!(json.contains("appLauncher"));
    assert!(json.contains("com.example.iconapp"));
    assert!(json.contains("\"version\": 1"));
}

#[test]
fn test_single_entry_json_serialization() {
    // Create a single image entry
    let image_entry = ImageEntry::new_app_icon(
        "AppIcon60x60@2x.png".to_string(),
        "iphone".to_string(),
        "60x60".to_string(),
        "2x".to_string(),
        Some("appLauncher".to_string()),
    );

    // Create Contents.json with single entry
    let mut contents = ContentsFile::new("com.test.app".to_string());
    contents.add_image(image_entry);

    // Serialize to JSON
    let json = contents.to_json();

    // Verify the expected JSON structure
    let expected_fields = [
        "\"images\":",
        "\"filename\": \"AppIcon60x60@2x.png\"",
        "\"idiom\": \"iphone\"",
        "\"size\": \"60x60\"",
        "\"scale\": \"2x\"",
        "\"expected_size\": \"60x60\"",
        "\"role\": \"appLauncher\"",
        "\"info\":",
        "\"version\": 1",
        "\"author\": \"com.test.app\"",
    ];

    for field in expected_fields {
        assert!(
            json.contains(field),
            "JSON missing expected field: {}\nActual JSON:\n{}",
            field,
            json
        );
    }

    // Verify it's valid JSON by parsing it back
    let parsed: serde_json::Value =
        serde_json::from_str(&json).expect("Generated JSON should be valid");

    // Verify structure
    assert!(parsed["images"].is_array());
    assert_eq!(parsed["images"].as_array().unwrap().len(), 1);
    assert!(parsed["info"].is_object());

    // Verify the image entry structure
    let image = &parsed["images"][0];
    assert_eq!(image["filename"], "AppIcon60x60@2x.png");
    assert_eq!(image["idiom"], "iphone");
    assert_eq!(image["size"], "60x60");
    assert_eq!(image["scale"], "2x");
    assert_eq!(image["expected_size"], "60x60");
    assert_eq!(image["role"], "appLauncher");

    // Verify the info structure
    assert_eq!(parsed["info"]["version"], 1);
    assert_eq!(parsed["info"]["author"], "com.test.app");

    println!("Single entry Contents.json serialization test passed");
}

#[test]
fn test_properties_serialization() {
    let mut contents = ContentsFile::new("com.test.app".to_string());
    contents.set_properties(icon_gen::contents_json::Properties {
        on_demand_resource_tags: Some(vec!["tag-a".to_string(), "tag-b".to_string()]),
        preserves_vector_representation: Some(true),
    });
    let json = contents.to_json();
    let parsed: serde_json::Value = serde_json::from_str(&json).expect("valid JSON");
    assert_eq!(parsed["properties"]["preserves-vector-representation"], true);
    assert_eq!(parsed["properties"]["on-demand-resource-tags"][0], "tag-a");
    assert_eq!(parsed["properties"]["on-demand-resource-tags"][1], "tag-b");
}

#[test]
fn test_escaped_strings_round_trip() {
    let mut contents = ContentsFile::new("quote \" backslash \\ tab \t end".to_string());
    contents.add_image(ImageEntry::new(
        "odd \"name\".png".to_string(),
        "iphone".to_string(),
        "1x".to_string(),
    ));
    let json = contents.to_json();
    let parsed: serde_json::Value = serde_json::from_str(&json).expect("valid JSON");
    assert_eq!(parsed["info"]["author"], "quote \" backslash \\ tab \t end");
    assert_eq!(parsed["images"][0]["filename"], "odd \"name\".png");
}
