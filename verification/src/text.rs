//! Text shaping for the mirrored message: body truncation, the `#`-prefixed
//! channel label, and the link back to the original message.

use vstd::prelude::*;
use vstd::string::StrSliceExecFns;
use vstd::string::StringExecFns;

verus! {

/// The longest body an embed field carries.
pub const BODY_LIMIT: usize = 1024;

/// How many characters of a long body are kept before the ellipsis.
pub const BODY_KEPT: usize = 1021;

/// A body shortened to the field limit: left alone when it fits, otherwise
/// cut to 1021 characters with a three-character ellipsis appended, 1024 in
/// all.
pub open spec fn truncated_body(body: Seq<char>) -> Seq<char> {
    if body.len() <= BODY_LIMIT {
        body
    } else {
        body.subrange(0, BODY_KEPT as int) + "..."@
    }
}

/// The truncated body never exceeds the field limit, and a body that was too
/// long comes out at exactly the limit: its first 1021 characters plus a
/// three-character ellipsis.
pub proof fn lemma_truncated_body_len(body: Seq<char>)
    ensures
        truncated_body(body).len() <= BODY_LIMIT,
        body.len() <= BODY_LIMIT ==> truncated_body(body) == body,
        body.len() > BODY_LIMIT ==> truncated_body(body).len() == BODY_LIMIT,
{
    reveal_strlit("...");
}

/// Shorten a message body to the embed field limit.
pub fn truncate_body(body: &str) -> (r: String)
    ensures
        r@ == truncated_body(body@),
{
    let n = body.unicode_len();
    if n <= BODY_LIMIT {
        body.to_owned()
    } else {
        let prefix = body.substring_char(0, BODY_KEPT);
        String::from_str(prefix).concat("...")
    }
}

/// The display label of a channel: its name prefixed with `#`.
pub fn channel_label(channel_name: &str) -> (r: String)
    ensures
        r@ == "#"@ + channel_name@,
{
    String::from_str("#").concat(channel_name)
}

/// The URL of a message, built from the textual server, channel and message
/// identifiers.
pub fn message_link(server_id: &str, channel_id: &str, message_id: &str) -> (r: String)
    ensures
        r@ == "https://discord.com/channels/"@ + server_id@ + "/"@ + channel_id@ + "/"@
            + message_id@,
{
    let mut link = String::from_str("https://discord.com/channels/");
    link.append(server_id);
    link.append("/");
    link.append(channel_id);
    link.append("/");
    link.append(message_id);
    link
}

} // verus!
