use message_logger::attachments::{classify, is_image, Attachment};

fn att(name: &str, content_type: Option<&str>) -> Attachment {
    Attachment {
        url: format!("https://cdn.example/{}", name),
        filename: name.to_string(),
        content_type: content_type.map(|s| s.to_string()),
    }
}

#[test]
fn partitions_by_mime_type() {
    let attachments = vec![
        att("a.png", Some("image/png")),
        att("b.pdf", Some("application/pdf")),
        att("c.gif", Some("image/gif")),
    ];
    let (images, others) = classify(&attachments);
    assert_eq!(images.len(), 2);
    assert_eq!(images[0].filename, "a.png");
    assert_eq!(images[1].filename, "c.gif");
    assert_eq!(others.len(), 1);
    assert_eq!(others[0].filename, "b.pdf");
}

#[test]
fn missing_content_type_is_not_an_image() {
    let a = att("mystery.bin", None);
    assert!(!is_image(&a));
    let attachments = vec![a];
    let (images, others) = classify(&attachments);
    assert_eq!(images.len(), 0);
    assert_eq!(others.len(), 1);
}

#[test]
fn bare_image_type_counts() {
    assert!(is_image(&att("x", Some("image"))));
    assert!(is_image(&att("x", Some("image/"))));
    assert!(is_image(&att("x", Some("image/svg+xml"))));
}

#[test]
fn lookalike_types_do_not_count() {
    assert!(!is_image(&att("x", Some("imagery/png"))));
    assert!(!is_image(&att("x", Some("imag"))));
    assert!(!is_image(&att("x", Some("text/plain"))));
    assert!(!is_image(&att("x", Some(""))));
}

#[test]
fn empty_input_gives_empty_partitions() {
    let attachments: Vec<Attachment> = Vec::new();
    let (images, others) = classify(&attachments);
    assert!(images.is_empty());
    assert!(others.is_empty());
}

#[test]
fn order_is_preserved_within_partitions() {
    let attachments = vec![
        att("1.txt", Some("text/plain")),
        att("2.png", Some("image/png")),
        att("3.zip", Some("application/zip")),
        att("4.jpg", Some("image/jpeg")),
        att("5.mp3", Some("audio/mpeg")),
    ];
    let (images, others) = classify(&attachments);
    let image_names: Vec<&str> = images.iter().map(|a| a.filename.as_str()).collect();
    let other_names: Vec<&str> = others.iter().map(|a| a.filename.as_str()).collect();
    assert_eq!(image_names, ["2.png", "4.jpg"]);
    assert_eq!(other_names, ["1.txt", "3.zip", "5.mp3"]);
    assert_eq!(images.len() + others.len(), attachments.len());
}
