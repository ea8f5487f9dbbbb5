use message_logger::text::{channel_label, message_link, truncate_body};

#[test]
fn channel_label_prefixes_a_hash() {
    assert_eq!(channel_label("general"), "#general");
    assert_eq!(channel_label(""), "#");
}

#[test]
fn message_link_points_at_the_message() {
    assert_eq!(
        message_link("123", "456", "789"),
        "https://discord.com/channels/123/456/789"
    );
}

#[test]
fn truncation_boundary_is_1024_characters() {
    let at_limit = "a".repeat(1024);
    assert_eq!(truncate_body(&at_limit), at_limit);

    let over = "a".repeat(1025);
    let out = truncate_body(&over);
    assert_eq!(out.chars().count(), 1024);
    assert_eq!(out, format!("{}...", "a".repeat(1021)));
}

#[test]
fn multibyte_bodies_are_cut_by_characters() {
    let over: String = "é".repeat(1025);
    let out = truncate_body(&over);
    assert_eq!(out.chars().count(), 1024);
    assert_eq!(out, format!("{}...", "é".repeat(1021)));
}
