//! Attachments and their classification into images and non-images.
//!
//! An attachment counts as an image exactly when its declared MIME content
//! type names the `image` top-level type: the part of the type string before
//! the first `/` is `image`. An attachment without a declared content type is
//! classified as a non-image rather than rejected.

use vstd::prelude::*;

verus! {

/// A message attachment: its source URL, its filename, and its declared MIME
/// content type, if any.
pub struct Attachment {
    pub url: String,
    pub filename: String,
    pub content_type: Option<String>,
}

/// The mathematical model of an attachment: its strings as character
/// sequences.
pub ghost struct AttachmentModel {
    pub url: Seq<char>,
    pub filename: Seq<char>,
    pub content_type: Option<Seq<char>>,
}

impl View for Attachment {
    type V = AttachmentModel;

    open spec fn view(&self) -> AttachmentModel {
        AttachmentModel {
            url: self.url@,
            filename: self.filename@,
            content_type: self.content_type.deep_view(),
        }
    }
}

impl DeepView for Attachment {
    type V = AttachmentModel;

    open spec fn deep_view(&self) -> AttachmentModel {
        self.view()
    }
}

/// The content type names an image: the characters before the first `/` are
/// exactly `image`. Since `image` itself holds no `/`, this is the same as
/// being `image` entirely, or starting with `image` followed by `/`.
pub open spec fn is_image_type(ct: Seq<char>) -> bool {
    &&& ct.len() >= 5
    &&& ct.subrange(0, 5) == "image"@
    &&& (ct.len() == 5 || ct[5] == '/')
}

/// The attachment is an image: it declares a content type whose part before
/// the first `/` is `image`. One without a declared content type is not.
pub open spec fn is_image_attachment(a: AttachmentModel) -> bool {
    match a.content_type {
        Some(ct) => is_image_type(ct),
        None => false,
    }
}

/// The image attachments of a sequence, in their original order.
pub open spec fn images_of(atts: Seq<AttachmentModel>) -> Seq<AttachmentModel> {
    atts.filter(|a: AttachmentModel| is_image_attachment(a))
}

/// The non-image attachments of a sequence, in their original order.
pub open spec fn others_of(atts: Seq<AttachmentModel>) -> Seq<AttachmentModel> {
    atts.filter(|a: AttachmentModel| !is_image_attachment(a))
}

/// The empty sequence has no images and no non-images.
pub proof fn lemma_classify_empty()
    ensures
        images_of(Seq::<AttachmentModel>::empty()) == Seq::<AttachmentModel>::empty(),
        others_of(Seq::<AttachmentModel>::empty()) == Seq::<AttachmentModel>::empty(),
{
    reveal(Seq::filter);
}

/// Appending one attachment extends exactly one of the two partitions by that
/// attachment and leaves the other unchanged.
pub proof fn lemma_classify_push(s: Seq<AttachmentModel>, x: AttachmentModel)
    ensures
        images_of(s.push(x)) == if is_image_attachment(x) {
            images_of(s).push(x)
        } else {
            images_of(s)
        },
        others_of(s.push(x)) == if is_image_attachment(x) {
            others_of(s)
        } else {
            others_of(s).push(x)
        },
{
    reveal(Seq::filter);
    assert(s.push(x).drop_last() =~= s);
    assert(s.push(x).last() == x);
}

/// Classification is a partition: the images and the non-images together
/// hold exactly the attachments of the input, none duplicated and none
/// dropped.
pub proof fn lemma_classify_partition(atts: Seq<AttachmentModel>)
    ensures
        images_of(atts).to_multiset().add(others_of(atts).to_multiset()) == atts.to_multiset(),
    decreases atts.len(),
{
    broadcast use vstd::seq_lib::group_to_multiset_ensures;

    if atts.len() == 0 {
        lemma_classify_empty();
        assert(atts =~= Seq::<AttachmentModel>::empty());
        assert(images_of(atts).to_multiset().add(others_of(atts).to_multiset())
            =~= atts.to_multiset());
    } else {
        let prefix = atts.drop_last();
        let x = atts.last();
        lemma_classify_partition(prefix);
        assert(atts =~= prefix.push(x));
        lemma_classify_push(prefix, x);
        assert(images_of(atts).to_multiset().add(others_of(atts).to_multiset())
            =~= atts.to_multiset());
    }
}

/// The positions of the image attachments in a sequence, in increasing
/// order.
pub open spec fn image_positions(atts: Seq<AttachmentModel>) -> Seq<int>
    decreases atts.len(),
{
    if atts.len() == 0 {
        Seq::<int>::empty()
    } else {
        let prefix = image_positions(atts.drop_last());
        if is_image_attachment(atts.last()) {
            prefix.push(atts.len() - 1)
        } else {
            prefix
        }
    }
}

/// The positions of the non-image attachments in a sequence, in increasing
/// order.
pub open spec fn other_positions(atts: Seq<AttachmentModel>) -> Seq<int>
    decreases atts.len(),
{
    if atts.len() == 0 {
        Seq::<int>::empty()
    } else {
        let prefix = other_positions(atts.drop_last());
        if is_image_attachment(atts.last()) {
            prefix
        } else {
            prefix.push(atts.len() - 1)
        }
    }
}

/// Classification preserves the input's relative order within each
/// partition: the k-th image is the attachment at the k-th image position,
/// the k-th non-image the one at the k-th non-image position, and both
/// position sequences increase strictly.
pub proof fn lemma_classify_order(atts: Seq<AttachmentModel>)
    ensures
        image_positions(atts).len() == images_of(atts).len(),
        other_positions(atts).len() == others_of(atts).len(),
        forall|k: int|
            0 <= k < image_positions(atts).len() ==> {
                &&& 0 <= #[trigger] image_positions(atts)[k] < atts.len()
                &&& images_of(atts)[k] == atts[image_positions(atts)[k]]
            },
        forall|k: int|
            0 <= k < other_positions(atts).len() ==> {
                &&& 0 <= #[trigger] other_positions(atts)[k] < atts.len()
                &&& others_of(atts)[k] == atts[other_positions(atts)[k]]
            },
        forall|k1: int, k2: int|
            0 <= k1 < k2 < image_positions(atts).len() ==> #[trigger] image_positions(atts)[k1]
                < #[trigger] image_positions(atts)[k2],
        forall|k1: int, k2: int|
            0 <= k1 < k2 < other_positions(atts).len() ==> #[trigger] other_positions(atts)[k1]
                < #[trigger] other_positions(atts)[k2],
    decreases atts.len(),
{
    reveal(Seq::filter);
    if atts.len() > 0 {
        let prefix = atts.drop_last();
        lemma_classify_order(prefix);
        assert(prefix.push(atts.last()) =~= atts);
        lemma_classify_push(prefix, atts.last());
        assert(forall|k: int|
            0 <= k < prefix.len() ==> atts[k] == #[trigger] prefix[k]);
    }
}

/// Decide whether a content type string names an image.
fn content_type_is_image(ct: &str) -> (r: bool)
    ensures
        r == is_image_type(ct@),
{
    proof {
        reveal_strlit("image");
    }
    let n = ct.unicode_len();
    if n < 5 {
        return false;
    }
    let prefix_ok = ct.get_char(0) == 'i' && ct.get_char(1) == 'm' && ct.get_char(2) == 'a'
        && ct.get_char(3) == 'g' && ct.get_char(4) == 'e';
    if !prefix_ok {
        proof {
            if ct@.subrange(0, 5) == "image"@ {
                assert(ct@.subrange(0, 5)[0] == ct@[0]);
                assert(ct@.subrange(0, 5)[1] == ct@[1]);
                assert(ct@.subrange(0, 5)[2] == ct@[2]);
                assert(ct@.subrange(0, 5)[3] == ct@[3]);
                assert(ct@.subrange(0, 5)[4] == ct@[4]);
            }
        }
        return false;
    }
    assert(ct@.subrange(0, 5) =~= "image"@);
    if n == 5 {
        return true;
    }
    ct.get_char(5) == '/'
}

/// Decide whether an attachment is an image.
pub fn is_image(attachment: &Attachment) -> (r: bool)
    ensures
        r == is_image_attachment(attachment@),
{
    match &attachment.content_type {
        Some(ct) => content_type_is_image(ct.as_str()),
        None => false,
    }
}

/// Partition a sequence of attachments into its images and its non-images,
/// each in the original order.
pub fn classify<'a>(attachments: &'a Vec<Attachment>) -> (r: (
    Vec<&'a Attachment>,
    Vec<&'a Attachment>,
))
    ensures
        r.0.deep_view() == images_of(attachments.deep_view()),
        r.1.deep_view() == others_of(attachments.deep_view()),
{
    let ghost all = attachments.deep_view();
    let mut images: Vec<&'a Attachment> = Vec::new();
    let mut others: Vec<&'a Attachment> = Vec::new();
    proof {
        lemma_classify_empty();
        assert(all.subrange(0, 0) =~= Seq::<AttachmentModel>::empty());
        assert(images.deep_view() =~= Seq::<AttachmentModel>::empty());
        assert(others.deep_view() =~= Seq::<AttachmentModel>::empty());
    }
    let mut i: usize = 0;
    while i < attachments.len()
        invariant
            i <= attachments.len(),
            all == attachments.deep_view(),
            images.deep_view() == images_of(all.subrange(0, i as int)),
            others.deep_view() == others_of(all.subrange(0, i as int)),
        decreases attachments.len() - i,
    {
        let a = &attachments[i];
        proof {
            assert(all.subrange(0, i + 1) =~= all.subrange(0, i as int).push(a@));
            lemma_classify_push(all.subrange(0, i as int), a@);
        }
        if is_image(a) {
            images.push(a);
            assert(images.deep_view() =~= images_of(all.subrange(0, i + 1)));
            assert(others.deep_view() == others_of(all.subrange(0, i + 1)));
        } else {
            others.push(a);
            assert(images.deep_view() == images_of(all.subrange(0, i + 1)));
            assert(others.deep_view() =~= others_of(all.subrange(0, i + 1)));
        }
        i = i + 1;
    }
    proof {
        assert(all.subrange(0, all.len() as int) =~= all);
    }
    (images, others)
}

} // verus!
