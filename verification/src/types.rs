//! Plain value types that cross the boundary with the playback
//! collaborator: seek positions and stream track descriptions.

use vstd::prelude::*;

verus! {

/// Position in the media.
#[derive(Debug, Clone, Copy, PartialEq, Eq, PartialOrd, Ord, Hash)]
pub enum Position {
    /// Position based on time, in nanoseconds.
    ///
    /// Not the most accurate format for videos.
    Time(u64),
    /// Position based on nth frame.
    Frame(u64),
}

/// Information about a subtitle track
#[derive(Debug, Clone, PartialEq, Eq)]
pub struct SubtitleTrack {
    /// The track index (0-based)
    pub index: i32,
    /// Language code (e.g., "en", "es", "fr")
    pub language: Option<String>,
    /// Human-readable title/name
    pub title: Option<String>,
    /// Codec used for the subtitle
    pub codec: Option<String>,
}

/// Information about an audio track
#[derive(Debug, Clone, PartialEq, Eq)]
pub struct AudioTrack {
    /// The track index (0-based)
    pub index: i32,
    /// Language code (e.g., "en", "es", "fr")
    pub language: Option<String>,
    /// Human-readable title/name
    pub title: Option<String>,
    /// Codec used for the audio (e.g., "AAC", "MP3", "AC3")
    pub codec: Option<String>,
    /// Number of channels (e.g., 2 for stereo, 6 for 5.1)
    pub channels: Option<i32>,
    /// Sample rate in Hz
    pub sample_rate: Option<i32>,
}

/// ASCII lowercase of one byte.
pub open spec fn spec_lower_byte(b: u8) -> u8 {
    if 65 <= b <= 90 {
        (b + 32) as u8
    } else {
        b
    }
}

/// ASCII lowercase of a byte string.
pub open spec fn spec_lower_bytes(s: Seq<u8>) -> Seq<u8> {
    s.map_values(|b: u8| spec_lower_byte(b))
}

/// Whether `needle` occurs contiguously in `hay`.
pub open spec fn contains_seq(hay: Seq<u8>, needle: Seq<u8>) -> bool {
    exists|i: int|
        0 <= i <= hay.len() - needle.len() && #[trigger] hay.subrange(i, i + needle.len())
            == needle
}

/// Whether a codec name, lowercased, names one of the common image-based
/// subtitle formats.
pub open spec fn spec_is_image_codec(s: Seq<u8>) -> bool {
    let l = spec_lower_bytes(s);
    ||| contains_seq(l, seq![112u8, 103u8, 115u8])
    ||| contains_seq(l, seq![104u8, 100u8, 109u8, 118u8])
    ||| contains_seq(l, seq![100u8, 118u8, 98u8])
    ||| contains_seq(l, seq![100u8, 118u8, 100u8])
    ||| contains_seq(l, seq![98u8, 108u8, 117u8, 114u8, 97u8, 121u8])
    ||| contains_seq(l, seq![98u8, 105u8, 116u8, 109u8, 97u8, 112u8])
    ||| contains_seq(l, seq![118u8, 111u8, 98u8, 115u8, 117u8, 98u8])
}

/// A track is text-based when its codec names none of the image-based
/// formats; a track without codec information is assumed text-based.
pub open spec fn spec_is_text_based(t: SubtitleTrack) -> bool {
    match t.codec {
        Some(codec) => !spec_is_image_codec(vstd::utf8::encode_utf8(codec@)),
        None => true,
    }
}

/// ASCII-lowercase a byte string.
fn lower_bytes(s: &[u8]) -> (out: Vec<u8>)
    ensures
        out@ == spec_lower_bytes(s@),
{
    let n = s.len();
    let mut out: Vec<u8> = Vec::new();
    let mut i: usize = 0;
    while i < n
        invariant
            n == s@.len(),
            i <= n,
            out@.len() == i,
            forall|j: int| 0 <= j < i ==> out@[j] == spec_lower_byte(s@[j]),
        decreases n - i,
    {
        let b = s[i];
        if 65 <= b && b <= 90 {
            out.push(b + 32);
        } else {
            out.push(b);
        }
        i = i + 1;
    }
    proof {
        assert(out@ =~= spec_lower_bytes(s@));
    }
    out
}

/// Whether `needle` matches `hay` at position `i`.
fn matches_at(hay: &Vec<u8>, needle: &Vec<u8>, i: usize) -> (r: bool)
    requires
        i + needle@.len() <= hay@.len(),
    ensures
        r == (hay@.subrange(i as int, i as int + needle@.len()) == needle@),
{
    let n = needle.len();
    let hn = hay.len();
    let mut k: usize = 0;
    while k < n
        invariant
            n == needle@.len(),
            hn == hay@.len(),
            i + n <= hn,
            k <= n,
            forall|m: int| 0 <= m < k ==> hay@[i + m] == needle@[m],
        decreases n - k,
    {
        if hay[i + k] != needle[k] {
            proof {
                assert(hay@.subrange(i as int, i as int + needle@.len())[k as int] == hay@[i + k]);
            }
            return false;
        }
        k = k + 1;
    }
    proof {
        assert(hay@.subrange(i as int, i as int + needle@.len()) =~= needle@);
    }
    true
}

/// Whether `needle` occurs contiguously in `hay`.
fn contains_sub(hay: &Vec<u8>, needle: &Vec<u8>) -> (r: bool)
    requires
        needle@.len() >= 1,
    ensures
        r == contains_seq(hay@, needle@),
{
    let hn = hay.len();
    let nn = needle.len();
    if nn > hn {
        return false;
    }
    let mut i: usize = 0;
    while i <= hn - nn
        invariant
            hn == hay@.len(),
            nn == needle@.len(),
            1 <= nn <= hn,
            i <= hn - nn + 1,
            forall|j: int|
                0 <= j < i ==> #[trigger] hay@.subrange(j, j + needle@.len()) != needle@,
        decreases hn - nn + 1 - i,
    {
        if matches_at(hay, needle, i) {
            return true;
        }
        i = i + 1;
    }
    false
}

/// Build a three-byte needle.
fn needle3(a: u8, b: u8, c: u8) -> (out: Vec<u8>)
    ensures
        out@ =~= seq![a, b, c],
{
    let mut out: Vec<u8> = Vec::new();
    out.push(a);
    out.push(b);
    out.push(c);
    out
}

/// Build a four-byte needle.
fn needle4(a: u8, b: u8, c: u8, d: u8) -> (out: Vec<u8>)
    ensures
        out@ =~= seq![a, b, c, d],
{
    let mut out: Vec<u8> = Vec::new();
    out.push(a);
    out.push(b);
    out.push(c);
    out.push(d);
    out
}

/// Build a six-byte needle.
fn needle6(a: u8, b: u8, c: u8, d: u8, e: u8, f: u8) -> (out: Vec<u8>)
    ensures
        out@ =~= seq![a, b, c, d, e, f],
{
    let mut out: Vec<u8> = Vec::new();
    out.push(a);
    out.push(b);
    out.push(c);
    out.push(d);
    out.push(e);
    out.push(f);
    out
}

impl SubtitleTrack {
    /// Check if this subtitle track is text-based (not image-based)
    pub fn is_text_based(&self) -> (r: bool)
        ensures
            r == spec_is_text_based(*self),
    {
        match &self.codec {
            Some(codec) => {
                let lower = lower_bytes(codec.as_str().as_bytes());
                // Common image-based subtitle formats
                // The needles spell pgs, hdmv, dvb, dvd, bluray, bitmap, vobsub.
                let is_image_based = contains_sub(&lower, &needle3(112u8, 103u8, 115u8))
                    || contains_sub(&lower, &needle4(104u8, 100u8, 109u8, 118u8))
                    || contains_sub(&lower, &needle3(100u8, 118u8, 98u8))
                    || contains_sub(&lower, &needle3(100u8, 118u8, 100u8))
                    || contains_sub(&lower, &needle6(98u8, 108u8, 117u8, 114u8, 97u8, 121u8))
                    || contains_sub(&lower, &needle6(98u8, 105u8, 116u8, 109u8, 97u8, 112u8))
                    || contains_sub(&lower, &needle6(118u8, 111u8, 98u8, 115u8, 117u8, 98u8));
                !is_image_based
            },
            None => {
                // If no codec info, assume it might be text-based
                true
            },
        }
    }
}

} // verus!
