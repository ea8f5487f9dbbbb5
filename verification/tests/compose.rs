use message_logger::attachments::Attachment;
use message_logger::embed::{compose, EventKind, LogEvent};
use message_logger::text::truncate_body;

fn att(name: &str, content_type: &str) -> Attachment {
    Attachment {
        url: format!("https://cdn.example/{}", name),
        filename: name.to_string(),
        content_type: Some(content_type.to_string()),
    }
}

fn event(attachments: Vec<Attachment>) -> LogEvent {
    LogEvent {
        source_link: "https://discord.com/channels/1/2/3".to_string(),
        channel_label: "#general".to_string(),
        body: "hello there".to_string(),
        kind: EventKind::Posted,
        timestamp: 1_700_000_000,
        color: 0x123456,
        author_name: "Someone".to_string(),
        author_icon: "https://cdn.example/avatar.png".to_string(),
        attachments,
    }
}

#[test]
fn no_images_gives_one_plain_embed() {
    let e = event(vec![att("notes.txt", "text/plain")]);
    let (primary, extras) = compose(&e);
    assert!(extras.is_empty());
    assert_eq!(primary.fields.len(), 1);
    assert_eq!(primary.fields[0].name, "posted:");
    assert_eq!(primary.fields[0].value, "hello there");
    assert!(primary.image.is_none());
    assert_eq!(primary.url.as_deref(), Some("https://discord.com/channels/1/2/3"));
    assert_eq!(primary.title.as_deref(), Some("#general"));
    assert_eq!(primary.timestamp, Some(1_700_000_000));
    assert_eq!(primary.color, Some(0x123456));
    assert_eq!(primary.author_name.as_deref(), Some("Someone"));
    assert_eq!(primary.author_icon.as_deref(), Some("https://cdn.example/avatar.png"));
}

#[test]
fn edited_event_labels_the_field() {
    let mut e = event(Vec::new());
    e.kind = EventKind::Edited;
    let (primary, extras) = compose(&e);
    assert!(extras.is_empty());
    assert_eq!(primary.fields[0].name, "edited:");
}

#[test]
fn n_images_give_n_embeds_in_order() {
    let e = event(vec![
        att("a.png", "image/png"),
        att("paper.pdf", "application/pdf"),
        att("b.gif", "image/gif"),
        att("c.jpg", "image/jpeg"),
    ]);
    let (primary, extras) = compose(&e);
    // three images in all: the primary plus two secondary embeds
    assert_eq!(extras.len(), 2);
    assert_eq!(primary.fields.len(), 2);
    assert_eq!(primary.fields[1].name, "with image(s):");
    assert_eq!(primary.fields[1].value, "");
    assert_eq!(primary.image.as_deref(), Some("https://cdn.example/a.png"));
    assert_eq!(extras[0].image.as_deref(), Some("https://cdn.example/b.gif"));
    assert_eq!(extras[1].image.as_deref(), Some("https://cdn.example/c.jpg"));
    for extra in &extras {
        assert_eq!(extra.url.as_deref(), Some("https://discord.com/channels/1/2/3"));
        assert!(extra.title.is_none());
        assert!(extra.fields.is_empty());
        assert!(extra.timestamp.is_none());
        assert!(extra.color.is_none());
        assert!(extra.author_name.is_none());
        assert!(extra.author_icon.is_none());
    }
}

#[test]
fn single_image_stays_on_the_primary_embed() {
    let e = event(vec![att("only.png", "image/png")]);
    let (primary, extras) = compose(&e);
    assert!(extras.is_empty());
    assert_eq!(primary.image.as_deref(), Some("https://cdn.example/only.png"));
    assert_eq!(primary.fields.len(), 2);
}

#[test]
fn long_body_is_truncated_in_the_embed() {
    let mut e = event(Vec::new());
    e.body = "x".repeat(1025);
    let (primary, _) = compose(&e);
    let value = &primary.fields[0].value;
    assert_eq!(value.chars().count(), 1024);
    let expected = format!("{}...", "x".repeat(1021));
    assert_eq!(value, &expected);
}

#[test]
fn body_at_the_limit_is_kept_whole() {
    let exact = "y".repeat(1024);
    assert_eq!(truncate_body(&exact), exact);
    let shorter = "hi";
    assert_eq!(truncate_body(shorter), "hi");
}

#[test]
fn body_over_the_limit_ends_in_ellipsis() {
    let long = "z".repeat(2000);
    let out = truncate_body(&long);
    assert_eq!(out.chars().count(), 1024);
    assert!(out.ends_with("..."));
    assert_eq!(&out[..1021], &long[..1021]);
}
