//! Deterministic 24-bit color derivation from (channel label, author tag,
//! instant).
//!
//! The pair of strings is folded through a 64-bit FNV-1a hash; the low 32 bits
//! are then shifted by 100 times the second of the day, so that the color of a
//! given channel/author pair drifts across a day, and the low 24 bits of the
//! result form the RGB value.

use vstd::prelude::*;

verus! {

/// Offset basis of the 64-bit FNV-1a hash.
pub const FNV_OFFSET: u64 = 0xcbf29ce484222325;

/// Prime of the 64-bit FNV-1a hash.
pub const FNV_PRIME: u64 = 0x100000001b3;

/// Folded in between the two strings; no character has this value, so the
/// pair is hashed concatenation-sensitively.
pub const PAIR_SEPARATOR: u64 = 0x110000;

/// Weight of one second of the day in the derived color.
pub const TIMESTAMP_WEIGHT: u32 = 100;

/// Seconds in one day.
pub const SECONDS_IN_DAY: u64 = 86400;

/// One FNV-1a step: fold the value `x` into the hash state `h`.
pub open spec fn fnv_step(h: u64, x: u64) -> u64 {
    vstd::wrapping::u64_specs::wrapping_mul(h ^ x, FNV_PRIME)
}

/// The hash state after folding the first `n` characters of `s` into `h0`.
pub open spec fn fnv_chars(h0: u64, s: Seq<char>, n: int) -> u64
    recommends
        0 <= n <= s.len(),
    decreases n,
{
    if n <= 0 {
        h0
    } else {
        fnv_step(fnv_chars(h0, s, n - 1), s[n - 1] as u64)
    }
}

/// The 64-bit hash of the (channel label, author tag) pair.
pub open spec fn pair_hash(channel_label: Seq<char>, author_tag: Seq<char>) -> u64 {
    let after_channel = fnv_chars(FNV_OFFSET, channel_label, channel_label.len() as int);
    fnv_chars(fnv_step(after_channel, PAIR_SEPARATOR), author_tag, author_tag.len() as int)
}

/// The color derived from a channel label, an author tag and an instant given
/// as non-negative Unix seconds: the low 32 bits of the pair hash, advanced by
/// 100 for every second of the day, reduced to the low 24 bits.
pub open spec fn color_of(channel_label: Seq<char>, author_tag: Seq<char>, unix_seconds: i64) -> u32
    recommends
        unix_seconds >= 0,
{
    let low = (pair_hash(channel_label, author_tag) as int) % 0x1_0000_0000;
    let seconds_of_day = (unix_seconds as int) % (SECONDS_IN_DAY as int);
    (((low + (TIMESTAMP_WEIGHT as int) * seconds_of_day) % 0x1_0000_0000) % 0x100_0000) as u32
}

/// Fold every character of `s` into the hash state `h0`.
fn fnv_hash_str(h0: u64, s: &str) -> (h: u64)
    ensures
        h == fnv_chars(h0, s@, s@.len() as int),
{
    let n = s.unicode_len();
    let mut h = h0;
    let mut i: usize = 0;
    while i < n
        invariant
            i <= n,
            n == s@.len(),
            h == fnv_chars(h0, s@, i as int),
        decreases n - i,
    {
        let c = s.get_char(i);
        h = (h ^ (c as u64)).wrapping_mul(FNV_PRIME);
        i = i + 1;
    }
    h
}

/// Derive the 24-bit display color for a message: deterministic in the
/// channel label, the author tag and the instant, and always within
/// `[0, 0xFFFFFF]`.
pub fn derive_color(channel_label: &str, author_tag: &str, unix_seconds: i64) -> (color: u32)
    requires
        unix_seconds >= 0,
    ensures
        color == color_of(channel_label@, author_tag@, unix_seconds),
        color <= 0xFFFFFF,
{
    let h = fnv_hash_str(FNV_OFFSET, channel_label);
    let h = (h ^ PAIR_SEPARATOR).wrapping_mul(FNV_PRIME);
    let h = fnv_hash_str(h, author_tag);
    assert(h == pair_hash(channel_label@, author_tag@));

    let low: u32 = (h % 0x1_0000_0000) as u32;
    let t: u64 = unix_seconds as u64;
    let seconds_of_day: u32 = (t % SECONDS_IN_DAY) as u32;
    let weighted: u32 = low.wrapping_add(TIMESTAMP_WEIGHT * seconds_of_day);
    weighted % 0x100_0000
}

/// The derived color is a function of the inputs alone: any two results that
/// meet `derive_color`'s contract for the same triple are equal.
pub proof fn lemma_derive_color_deterministic(
    c1: u32,
    c2: u32,
    channel_label: Seq<char>,
    author_tag: Seq<char>,
    unix_seconds: i64,
)
    requires
        c1 == color_of(channel_label, author_tag, unix_seconds),
        c2 == color_of(channel_label, author_tag, unix_seconds),
    ensures
        c1 == c2,
{
}

/// The derived color always lies within `[0, 0xFFFFFF]`.
pub proof fn lemma_color_in_range(channel_label: Seq<char>, author_tag: Seq<char>, unix_seconds: i64)
    ensures
        0 <= color_of(channel_label, author_tag, unix_seconds) <= 0xFFFFFF,
{
}

} // verus!
