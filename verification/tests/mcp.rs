use shashin::mcp::{gallery_images, is_tool_image, ListedFile};

fn file(path: &str, size: Option<u64>) -> ListedFile {
    ListedFile { path: path.to_string(), size_bytes: size }
}

#[test]
fn tool_listing_keeps_listed_images_in_order() {
    let files = vec![
        file("/pics/b.PNG", Some(10)),
        file("/pics/notes.txt", Some(3)),
        file("/pics/a.jpeg", None),
        file("/pics/icon.ico", Some(7)),
        file("/pics/raw", Some(1)),
        file("/pics/c.webp", Some(99)),
    ];
    let images = gallery_images(&files);
    let got: Vec<(&str, &str, Option<u64>)> =
        images.iter().map(|t| (t.path.as_str(), t.name.as_str(), t.size_bytes)).collect();
    assert_eq!(
        got,
        vec![("/pics/b.PNG", "b.PNG", Some(10)), ("/pics/a.jpeg", "a.jpeg", None), ("/pics/c.webp", "c.webp", Some(99))]
    );
}

#[test]
fn tool_image_extensions() {
    assert!(is_tool_image("x.JPG"));
    assert!(is_tool_image("x.tif"));
    assert!(is_tool_image("x.avif"));
    assert!(!is_tool_image("x.ico"));
    assert!(!is_tool_image("x"));
    assert!(!is_tool_image(".png"));
    assert!(gallery_images(&Vec::new()).is_empty());
}
