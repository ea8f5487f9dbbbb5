//! The rendered embeds of a mirrored message.
//!
//! A fully resolved message becomes one primary embed — author, origin
//! channel, body field, timestamp, color, link back to the source — plus one
//! image-only secondary embed for every image attachment after the first,
//! which is privileged as the primary embed's main image.

use crate::attachments::{classify, images_of, Attachment, AttachmentModel};
use crate::text::{truncate_body, truncated_body};
use vstd::prelude::*;
use vstd::string::StringExecFns;

verus! {

/// Whether a mirrored message was newly posted or edited.
#[derive(Clone, Copy, PartialEq, Eq, Structural, Debug)]
pub enum EventKind {
    Posted,
    Edited,
}

/// One name/value field of an embed.
pub struct EmbedField {
    pub name: String,
    pub value: String,
}

/// The mathematical model of an embed field.
#[verifier::ext_equal]
pub ghost struct EmbedFieldModel {
    pub name: Seq<char>,
    pub value: Seq<char>,
}

impl View for EmbedField {
    type V = EmbedFieldModel;

    open spec fn view(&self) -> EmbedFieldModel {
        EmbedFieldModel { name: self.name@, value: self.value@ }
    }
}

impl DeepView for EmbedField {
    type V = EmbedFieldModel;

    open spec fn deep_view(&self) -> EmbedFieldModel {
        self.view()
    }
}

/// A structured rich-content block of a chat message. Only the parts this
/// bot fills are held; the hosting application maps them onto the platform's
/// own embed builder.
pub struct Embed {
    pub url: Option<String>,
    pub title: Option<String>,
    pub fields: Vec<EmbedField>,
    pub timestamp: Option<i64>,
    pub color: Option<u32>,
    pub author_name: Option<String>,
    pub author_icon: Option<String>,
    pub image: Option<String>,
}

/// The mathematical model of an embed.
#[verifier::ext_equal]
pub ghost struct EmbedModel {
    pub url: Option<Seq<char>>,
    pub title: Option<Seq<char>>,
    pub fields: Seq<EmbedFieldModel>,
    pub timestamp: Option<i64>,
    pub color: Option<u32>,
    pub author_name: Option<Seq<char>>,
    pub author_icon: Option<Seq<char>>,
    pub image: Option<Seq<char>>,
}

impl View for Embed {
    type V = EmbedModel;

    open spec fn view(&self) -> EmbedModel {
        EmbedModel {
            url: self.url.deep_view(),
            title: self.title.deep_view(),
            fields: self.fields.deep_view(),
            timestamp: self.timestamp,
            color: self.color,
            author_name: self.author_name.deep_view(),
            author_icon: self.author_icon.deep_view(),
            image: self.image.deep_view(),
        }
    }
}

impl DeepView for Embed {
    type V = EmbedModel;

    open spec fn deep_view(&self) -> EmbedModel {
        self.view()
    }
}

/// A message to mirror, fully resolved: everything the renderer needs, as
/// plain values.
pub struct LogEvent {
    /// URL of the original message.
    pub source_link: String,
    /// Display name of the origin channel, prefixed with `#`.
    pub channel_label: String,
    /// The message text.
    pub body: String,
    /// Whether the message was posted or edited.
    pub kind: EventKind,
    /// The instant shown on the embed, as Unix seconds: creation time for a
    /// posted message, edit time for an edited one.
    pub timestamp: i64,
    /// The precomputed 24-bit display color.
    pub color: u32,
    /// Resolved display name of the author.
    pub author_name: String,
    /// Resolved avatar URL of the author.
    pub author_icon: String,
    /// The message's attachments, in their original order.
    pub attachments: Vec<Attachment>,
}

/// The mathematical model of a message to mirror.
#[verifier::ext_equal]
pub ghost struct LogEventModel {
    pub source_link: Seq<char>,
    pub channel_label: Seq<char>,
    pub body: Seq<char>,
    pub kind: EventKind,
    pub timestamp: i64,
    pub color: u32,
    pub author_name: Seq<char>,
    pub author_icon: Seq<char>,
    pub attachments: Seq<AttachmentModel>,
}

impl View for LogEvent {
    type V = LogEventModel;

    open spec fn view(&self) -> LogEventModel {
        LogEventModel {
            source_link: self.source_link@,
            channel_label: self.channel_label@,
            body: self.body@,
            kind: self.kind,
            timestamp: self.timestamp,
            color: self.color,
            author_name: self.author_name@,
            author_icon: self.author_icon@,
            attachments: self.attachments.deep_view(),
        }
    }
}

impl DeepView for LogEvent {
    type V = LogEventModel;

    open spec fn deep_view(&self) -> LogEventModel {
        self.view()
    }
}

/// The embed field label for the kind of event.
pub open spec fn spec_field_label(kind: EventKind) -> Seq<char> {
    match kind {
        EventKind::Posted => "posted:"@,
        EventKind::Edited => "edited:"@,
    }
}

/// The primary embed of an event: source link, channel title, the body under
/// a `posted:` or `edited:` field, timestamp, color and author block; and,
/// when the event has image attachments, a `with image(s):` marker field and
/// the first image as the embed's main image.
pub open spec fn primary_embed_of(e: LogEventModel) -> EmbedModel {
    let imgs = images_of(e.attachments);
    let body_field = EmbedFieldModel {
        name: spec_field_label(e.kind),
        value: truncated_body(e.body),
    };
    let marker_field = EmbedFieldModel {
        name: "with image(s):"@,
        value: Seq::<char>::empty(),
    };
    EmbedModel {
        url: Some(e.source_link),
        title: Some(e.channel_label),
        fields: if imgs.len() > 0 {
            seq![body_field, marker_field]
        } else {
            seq![body_field]
        },
        timestamp: Some(e.timestamp),
        color: Some(e.color),
        author_name: Some(e.author_name),
        author_icon: Some(e.author_icon),
        image: if imgs.len() > 0 {
            Some(imgs[0].url)
        } else {
            None
        },
    }
}

/// A secondary embed: only the source link and one image, rendered as a
/// further tile of the same message.
pub open spec fn secondary_embed_of(link: Seq<char>, image_url: Seq<char>) -> EmbedModel {
    EmbedModel {
        url: Some(link),
        title: None,
        fields: Seq::<EmbedFieldModel>::empty(),
        timestamp: None,
        color: None,
        author_name: None,
        author_icon: None,
        image: Some(image_url),
    }
}

/// The secondary embeds of an event: one per image attachment after the
/// first, in attachment order.
pub open spec fn extra_embeds_of(e: LogEventModel) -> Seq<EmbedModel> {
    let imgs = images_of(e.attachments);
    if imgs.len() == 0 {
        Seq::<EmbedModel>::empty()
    } else {
        Seq::new((imgs.len() - 1) as nat, |i: int| secondary_embed_of(e.source_link, imgs[i + 1].url))
    }
}

/// On an event with no image attachments the composition is one embed in
/// all: the primary alone, with a single body field, no `with image(s):`
/// marker and no main image.
pub proof fn lemma_compose_without_images(e: LogEventModel)
    requires
        images_of(e.attachments).len() == 0,
    ensures
        extra_embeds_of(e).len() == 0,
        primary_embed_of(e).fields.len() == 1,
        primary_embed_of(e).fields[0].name == spec_field_label(e.kind),
        primary_embed_of(e).fields[0].value == truncated_body(e.body),
        primary_embed_of(e).image is None,
{
}

/// On an event with N >= 1 image attachments the composition is N embeds in
/// all: the primary carries the `with image(s):` marker field and the first
/// image as its main image, and the k-th secondary embed carries only the
/// source link and the (k+1)-th image.
pub proof fn lemma_compose_with_images(e: LogEventModel)
    requires
        images_of(e.attachments).len() >= 1,
    ensures
        1 + extra_embeds_of(e).len() == images_of(e.attachments).len(),
        primary_embed_of(e).fields.len() == 2,
        primary_embed_of(e).fields[1].name == "with image(s):"@,
        primary_embed_of(e).fields[1].value == Seq::<char>::empty(),
        primary_embed_of(e).image == Some(images_of(e.attachments)[0].url),
        forall|k: int|
            0 <= k < extra_embeds_of(e).len() ==> #[trigger] extra_embeds_of(e)[k]
                == secondary_embed_of(e.source_link, images_of(e.attachments)[k + 1].url),
{
}

/// The embed field label for the kind of event.
fn field_label(kind: EventKind) -> (r: &'static str)
    ensures
        r@ == spec_field_label(kind),
{
    match kind {
        EventKind::Posted => "posted:",
        EventKind::Edited => "edited:",
    }
}

/// Build a secondary, image-only embed.
fn image_embed(link: &String, image_url: &String) -> (r: Embed)
    ensures
        r@ == secondary_embed_of(link@, image_url@),
{
    let r = Embed {
        url: Some(link.clone()),
        title: None,
        fields: Vec::new(),
        timestamp: None,
        color: None,
        author_name: None,
        author_icon: None,
        image: Some(image_url.clone()),
    };
    proof {
        assert(r@.fields =~= Seq::<EmbedFieldModel>::empty());
        assert(r@ =~= secondary_embed_of(link@, image_url@));
    }
    r
}

/// Compose the embeds of an event: the primary embed, then one secondary
/// embed per image attachment after the first, in attachment order.
pub fn compose(event: &LogEvent) -> (r: (Embed, Vec<Embed>))
    ensures
        r.0@ == primary_embed_of(event@),
        r.1.deep_view() == extra_embeds_of(event@),
{
    let (images, _others) = classify(&event.attachments);
    let ghost imgs = images_of(event@.attachments);

    let mut fields: Vec<EmbedField> = Vec::new();
    fields.push(
        EmbedField {
            name: String::from_str(field_label(event.kind)),
            value: truncate_body(event.body.as_str()),
        },
    );
    let image: Option<String> = if images.len() > 0 {
        fields.push(EmbedField { name: String::from_str("with image(s):"), value: String::new() });
        Some(images[0].url.clone())
    } else {
        None
    };
    let primary = Embed {
        url: Some(event.source_link.clone()),
        title: Some(event.channel_label.clone()),
        fields,
        timestamp: Some(event.timestamp),
        color: Some(event.color),
        author_name: Some(event.author_name.clone()),
        author_icon: Some(event.author_icon.clone()),
        image,
    };
    proof {
        assert(primary@.fields =~= primary_embed_of(event@).fields);
        assert(primary@ =~= primary_embed_of(event@));
    }

    let ghost target = extra_embeds_of(event@);
    let mut extras: Vec<Embed> = Vec::new();
    proof {
        assert(extras.deep_view() =~= target.subrange(0, 0));
    }
    let mut i: usize = 1;
    while i < images.len()
        invariant
            1 <= i,
            images.len() > 0 ==> i <= images.len(),
            images.len() == 0 ==> i == 1,
            images.deep_view() == imgs,
            imgs == images_of(event@.attachments),
            target == extra_embeds_of(event@),
            extras.deep_view() == target.subrange(0, i - 1),
        decreases images.len() - i,
    {
        let ghost extras0 = extras.deep_view();
        let next = image_embed(&event.source_link, &images[i].url);
        proof {
            assert(images.deep_view()[i as int] == images@[i as int]@);
            assert(target[i - 1] == secondary_embed_of(event@.source_link, imgs[i as int].url));
            assert(next@ == target[i - 1]);
        }
        extras.push(next);
        proof {
            assert(extras.deep_view() =~= extras0.push(next@));
            assert(extras0.push(next@) =~= target.subrange(0, i as int));
        }
        i = i + 1;
    }
    proof {
        assert(target.subrange(0, target.len() as int) =~= target);
    }
    (primary, extras)
}

} // verus!
