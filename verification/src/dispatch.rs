//! Dispatch of a mirrored message: the choice between a plain embed send and
//! a send with re-uploaded files, and the assembly of the file payloads.
//!
//! The hosting application owns the actual delivery and the byte downloads;
//! it carries out the returned plan, hands every download outcome back to
//! [`assemble_files`], and maps the final send outcome through
//! [`finish_dispatch`]. A failed download degrades that one file to empty
//! bytes; it never drops the whole log entry.

use crate::attachments::{classify, others_of, Attachment};
use crate::embed::{
    compose, extra_embeds_of, primary_embed_of, Embed, EmbedModel, LogEvent, LogEventModel,
};
use vstd::prelude::*;

verus! {

/// The one error dispatching surfaces: the final send failed.
#[derive(Clone, Copy, PartialEq, Eq, Structural, Debug)]
pub enum DispatchError {
    SendFailed,
}

/// Marker for a failed delivery by the hosting application's send
/// capability.
#[derive(Clone, Copy, Debug)]
pub struct SendFailure;

/// Marker for a failed download of one attachment's bytes.
#[derive(Clone, Copy, Debug)]
pub struct FetchFailure;

/// One file to re-upload: its original filename and its (possibly empty)
/// bytes.
pub struct FilePayload {
    pub filename: String,
    pub bytes: Vec<u8>,
}

/// The mathematical model of a file payload.
#[verifier::ext_equal]
pub ghost struct FilePayloadModel {
    pub filename: Seq<char>,
    pub bytes: Seq<u8>,
}

impl View for FilePayload {
    type V = FilePayloadModel;

    open spec fn view(&self) -> FilePayloadModel {
        FilePayloadModel { filename: self.filename@, bytes: self.bytes@ }
    }
}

impl DeepView for FilePayload {
    type V = FilePayloadModel;

    open spec fn deep_view(&self) -> FilePayloadModel {
        self.view()
    }
}

/// The full, ordered embed sequence of an event: the primary embed first,
/// then the secondary image embeds.
pub open spec fn embeds_of(e: LogEventModel) -> Seq<EmbedModel> {
    seq![primary_embed_of(e)] + extra_embeds_of(e)
}

/// What the dispatcher decided to send.
pub enum DispatchPlan {
    /// The event has no non-image attachments: send the embeds alone.
    SendEmbeds { embeds: Vec<Embed> },
    /// The event has non-image attachments: download each one's bytes, then
    /// send them, paired with their filenames, together with the embeds.
    SendWithFiles { to_fetch: Vec<Attachment>, embeds: Vec<Embed> },
}

/// Copy an attachment.
fn clone_attachment(a: &Attachment) -> (r: Attachment)
    ensures
        r@ == a@,
{
    Attachment {
        url: a.url.clone(),
        filename: a.filename.clone(),
        content_type: match &a.content_type {
            Some(ct) => Some(ct.clone()),
            None => None,
        },
    }
}

/// Decide how an event is sent: with the embeds alone exactly when it has no
/// non-image attachments, and otherwise with its non-image attachments, in
/// their original order, listed for download and re-upload.
pub fn plan_dispatch(event: &LogEvent) -> (plan: DispatchPlan)
    ensures
        match plan {
            DispatchPlan::SendEmbeds { embeds } => {
                &&& others_of(event@.attachments).len() == 0
                &&& embeds.deep_view() == embeds_of(event@)
            },
            DispatchPlan::SendWithFiles { to_fetch, embeds } => {
                &&& others_of(event@.attachments).len() > 0
                &&& to_fetch.deep_view() == others_of(event@.attachments)
                &&& embeds.deep_view() == embeds_of(event@)
            },
        },
{
    let (primary, mut extras) = compose(event);
    let ghost extra_models = extras.deep_view();
    let mut embeds: Vec<Embed> = Vec::new();
    embeds.push(primary);
    embeds.append(&mut extras);
    proof {
        assert(embeds.deep_view() =~= embeds_of(event@));
    }

    let (_images, others) = classify(&event.attachments);
    if others.len() == 0 {
        proof {
            assert(others_of(event@.attachments).len() == 0);
        }
        DispatchPlan::SendEmbeds { embeds }
    } else {
        let ghost target = others_of(event@.attachments);
        let mut to_fetch: Vec<Attachment> = Vec::new();
        proof {
            assert(to_fetch.deep_view() =~= target.subrange(0, 0));
        }
        let n = others.len();
        let mut i: usize = 0;
        while i < n
            invariant
                i <= n,
                n == others@.len(),
                others.deep_view() == target,
                target == others_of(event@.attachments),
                to_fetch.deep_view() == target.subrange(0, i as int),
            decreases n - i,
        {
            let ghost to_fetch0 = to_fetch.deep_view();
            let a = clone_attachment(others[i]);
            proof {
                assert(others.deep_view()[i as int] == others@[i as int]@);
            }
            to_fetch.push(a);
            proof {
                assert(to_fetch.deep_view() =~= to_fetch0.push(a@));
                assert(to_fetch0.push(a@) =~= target.subrange(0, i + 1));
            }
            i = i + 1;
        }
        proof {
            assert(target.subrange(0, target.len() as int) =~= target);
        }
        DispatchPlan::SendWithFiles { to_fetch, embeds }
    }
}

/// Pair each attachment listed for upload with its download outcome: the
/// fetched bytes on success, empty bytes on failure, always under the
/// attachment's original filename.
pub fn assemble_files(to_fetch: &Vec<Attachment>, results: &Vec<Result<Vec<u8>, FetchFailure>>) -> (files: Vec<FilePayload>)
    requires
        results@.len() == to_fetch@.len(),
    ensures
        files.deep_view().len() == to_fetch@.len(),
        forall|i: int|
            0 <= i < files.deep_view().len() ==> (#[trigger] files.deep_view()[i]).filename
                == to_fetch.deep_view()[i].filename,
        forall|i: int|
            0 <= i < files.deep_view().len() ==> (#[trigger] files.deep_view()[i]).bytes == (
            match results@[i] {
                Ok(b) => b@,
                Err(_) => Seq::<u8>::empty(),
            }),
{
    let n = to_fetch.len();
    let mut files: Vec<FilePayload> = Vec::new();
    let mut i: usize = 0;
    while i < n
        invariant
            i <= n,
            n == to_fetch@.len(),
            results@.len() == to_fetch@.len(),
            files.deep_view().len() == i,
            forall|j: int|
                0 <= j < i ==> (#[trigger] files.deep_view()[j]).filename
                    == to_fetch.deep_view()[j].filename,
            forall|j: int|
                0 <= j < i ==> (#[trigger] files.deep_view()[j]).bytes == (match results@[j] {
                    Ok(b) => b@,
                    Err(_) => Seq::<u8>::empty(),
                }),
        decreases n - i,
    {
        let bytes: Vec<u8> = match &results[i] {
            Ok(b) => {
                let copied = b.clone();
                proof {
                    assert(copied@ =~= b@);
                }
                copied
            },
            Err(_) => Vec::new(),
        };
        let payload = FilePayload { filename: to_fetch[i].filename.clone(), bytes };
        let ghost files0 = files.deep_view();
        files.push(payload);
        proof {
            assert(files.deep_view() =~= files0.push(payload@));
            assert(to_fetch.deep_view()[i as int] == to_fetch@[i as int]@);
        }
        i = i + 1;
    }
    files
}

/// Surface the outcome of the final send: a failed delivery is reported as
/// `DispatchError::SendFailed`; nothing is retried.
pub fn finish_dispatch(send_result: Result<(), SendFailure>) -> (r: Result<(), DispatchError>)
    ensures
        r is Ok <==> send_result is Ok,
        send_result is Err ==> r == Err::<(), DispatchError>(DispatchError::SendFailed),
{
    match send_result {
        Ok(()) => Ok(()),
        Err(_) => Err(DispatchError::SendFailed),
    }
}

} // verus!
