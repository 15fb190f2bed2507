use mastra_stream::capture::Rect;
use mastra_stream::capture::title_matches;
use mastra_stream::capture::window_matches_geometry;
use mastra_stream::chars::contains;
use mastra_stream::chars::holds_at;
use mastra_stream::chars::same_text;
use mastra_stream::request::ContentPart;
use mastra_stream::request::RequestError;
use mastra_stream::request::greet;
use mastra_stream::request::user_content;
use mastra_stream::upload::media_type_for;
use mastra_stream::upload::media_type_for_lowercase;
use mastra_stream::upload::object_key;

#[test]
fn user_content_text_and_image() {
    let parts = user_content("  hi there \n", Some("https://x.test/a.png".to_string()));
    assert_eq!(
        parts,
        Ok(vec![
            ContentPart::Text("hi there".to_string()),
            ContentPart::Image("https://x.test/a.png".to_string()),
        ])
    );
}

#[test]
fn user_content_drops_insecure_image() {
    let parts = user_content("look", Some("http://x.test/a.png".to_string()));
    assert_eq!(parts, Ok(vec![ContentPart::Text("look".to_string())]));
}

#[test]
fn user_content_image_only() {
    let parts = user_content("   ", Some("https://x.test/b.jpg".to_string()));
    assert_eq!(parts, Ok(vec![ContentPart::Image("https://x.test/b.jpg".to_string())]));
}

#[test]
fn user_content_empty_is_refused() {
    assert_eq!(user_content(" \t ", None), Err(RequestError::EmptyMessage));
    assert_eq!(
        user_content("", Some("ftp://x.test/c.gif".to_string())),
        Err(RequestError::EmptyMessage)
    );
}

#[test]
fn greet_names_the_caller() {
    assert_eq!(greet("Ada"), "Hello, Ada! You've been greeted from Rust!");
}

#[test]
fn media_types() {
    assert_eq!(media_type_for("JPG"), "image/jpeg");
    assert_eq!(media_type_for("jpeg"), "image/jpeg");
    assert_eq!(media_type_for("Png"), "image/png");
    assert_eq!(media_type_for("gif"), "image/gif");
    assert_eq!(media_type_for("WEBP"), "image/webp");
    assert_eq!(media_type_for("tiff"), "application/octet-stream");
    assert_eq!(media_type_for(""), "application/octet-stream");
    assert_eq!(media_type_for_lowercase("PNG"), "application/octet-stream");
}

#[test]
fn object_keys() {
    assert_eq!(object_key(Some("shot"), "1234", Some("jpg")), "shot-1234.jpg");
    assert_eq!(object_key(None, "abcd", None), "upload-abcd.png");
}

#[test]
fn geometry_tolerance() {
    let target = Rect { x: 100, y: 200, width: 420, height: 300 };
    assert!(window_matches_geometry(Rect { x: 119, y: 181, width: 439, height: 281 }, target));
    assert!(!window_matches_geometry(Rect { x: 120, y: 200, width: 420, height: 300 }, target));
    assert!(!window_matches_geometry(Rect { x: 100, y: 200, width: 400, height: 300 }, target));
    let far = Rect { x: i32::MIN, y: i32::MAX, width: u32::MAX, height: 0 };
    assert!(!window_matches_geometry(far, target));
    assert!(window_matches_geometry(far, far));
}

#[test]
fn title_matching() {
    assert!(title_matches("Drag Chat - zen", "Drag Chat", "drag-chat"));
    assert!(title_matches("window drag-chat", "Other", "drag-chat"));
    assert!(!title_matches("Popup", "Drag Chat", "drag-chat"));
    assert!(title_matches("anything", "", "x"));
    assert!(!title_matches("", "a", "b"));
}

#[test]
fn character_comparisons() {
    assert!(holds_at("xdata: y", 8, 1, "data: "));
    assert!(!holds_at("xdata: y", 8, 3, "data: "));
    assert!(holds_at("abc", 3, 3, ""));
    assert!(!holds_at("abc", 3, 4, ""));
    assert!(same_text("\u{e9}t\u{e9}", "\u{e9}t\u{e9}"));
    assert!(!same_text("ab", "abc"));
    assert!(contains("caf\u{e9} au lait", "\u{e9} a"));
    assert!(!contains("short", "shorter"));
    assert!(contains("", ""));
}
