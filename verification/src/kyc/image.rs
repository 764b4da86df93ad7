//! Uploaded identity images: raw base64 or a `data:` URL, with the real type
//! read from the first bytes rather than from anything the client declared.

use vstd::prelude::*;

use super::base64::{base64_decoded, decode_base64};
use crate::text::{chars_of, trim_range, trimmed};

verus! {

/// 8MB decoded per image: generous for a phone photo, small enough that two
/// of them stay under the route body limit.
pub const MAX_IMAGE_BYTES: usize = 8 * 1024 * 1024;

/// The marker a `data:` URL puts in front of its payload.
pub open spec fn marker() -> Seq<char> {
    seq!['b', 'a', 's', 'e', '6', '4', ',']
}

pub open spec fn marker_at(s: Seq<char>, i: int) -> bool {
    0 <= i && i + 7 <= s.len() && s.subrange(i, i + 7) == marker()
}

/// The last place at or before `i` where the marker starts.
pub open spec fn marker_from(s: Seq<char>, i: int) -> Option<int>
    decreases i + 1,
{
    if i < 0 {
        None
    } else if marker_at(s, i) {
        Some(i)
    } else {
        marker_from(s, i - 1)
    }
}

/// The base64 part of an upload: whatever follows the last marker (all of
/// it when there is none), with surrounding white space removed.
pub open spec fn payload(s: Seq<char>) -> Seq<char> {
    trimmed(
        match marker_from(s, s.len() - 7) {
            Some(i) => s.subrange(i + 7, s.len() as int),
            None => s,
        },
    )
}

/// The image type the first bytes announce, as (extension, content type).
pub open spec fn sniffed(b: Seq<u8>) -> Option<(&'static str, &'static str)> {
    if b.len() >= 3 && b[0] == 0xFF && b[1] == 0xD8 && b[2] == 0xFF {
        Some(("jpg", "image/jpeg"))
    } else if b.len() >= 8 && b.take(8) == seq![0x89u8, 0x50, 0x4E, 0x47, 0x0D, 0x0A, 0x1A, 0x0A] {
        Some(("png", "image/png"))
    } else if b.len() > 12 && b.take(4) == seq![0x52u8, 0x49, 0x46, 0x46] && b.subrange(8, 12)
        == seq![0x57u8, 0x45, 0x42, 0x50] {
        Some(("webp", "image/webp"))
    } else {
        None
    }
}

/// What an upload turns into: its bytes, extension and content type, or the
/// reason it is refused.
pub open spec fn image_outcome(s: Seq<char>) -> Result<(Seq<u8>, &'static str, &'static str), &'static str> {
    match base64_decoded(payload(s)) {
        None => Err("Invalid image encoding"),
        Some(b) => if b.len() > MAX_IMAGE_BYTES {
            Err("Image too large (max 8MB)")
        } else {
            match sniffed(b) {
                Some((ext, mime)) => Ok((b, ext, mime)),
                None => Err("Unsupported image format — use JPEG, PNG, or WebP"),
            }
        },
    }
}

fn marker_at_exec(cs: &[char], i: usize) -> (r: bool)
    requires
        i + 7 <= cs@.len(),
    ensures
        r == marker_at(cs@, i as int),
{
    let ghost g = cs@.subrange(i as int, i + 7);
    let r = cs[i] == 'b' && cs[i + 1] == 'a' && cs[i + 2] == 's' && cs[i + 3] == 'e' && cs[i + 4]
        == '6' && cs[i + 5] == '4' && cs[i + 6] == ',';
    if r {
        assert(g =~= marker());
    } else {
        assert(g[0] != marker()[0] || g[1] != marker()[1] || g[2] != marker()[2] || g[3]
            != marker()[3] || g[4] != marker()[4] || g[5] != marker()[5] || g[6] != marker()[6]);
    }
    r
}

/// Where the payload starts: just after the last marker, or at the start.
fn after_marker(cs: &[char]) -> (r: usize)
    ensures
        r <= cs@.len(),
        cs@.subrange(r as int, cs@.len() as int) == match marker_from(cs@, cs@.len() - 7) {
            Some(i) => cs@.subrange(i + 7, cs@.len() as int),
            None => cs@,
        },
{
    let n = cs.len();
    if n < 7 {
        assert(marker_from(cs@, n - 7) is None);
        assert(cs@.subrange(0, n as int) =~= cs@);
        return 0;
    }
    let mut k: usize = n - 6;
    while k > 0 && !marker_at_exec(cs, k - 1)
        invariant
            n == cs@.len(),
            n >= 7,
            k <= n - 6,
            marker_from(cs@, k - 1) == marker_from(cs@, n - 7),
        decreases k,
    {
        k = k - 1;
    }
    if k == 0 {
        assert(cs@.subrange(0, n as int) =~= cs@);
        0
    } else {
        k + 6
    }
}

fn sniff(b: &Vec<u8>) -> (r: Option<(&'static str, &'static str)>)
    ensures
        r == sniffed(b@),
{
    let n = b.len();
    if n >= 3 && b[0] == 0xFF && b[1] == 0xD8 && b[2] == 0xFF {
        return Some(("jpg", "image/jpeg"));
    }
    if n >= 8 {
        let png = b[0] == 0x89 && b[1] == 0x50 && b[2] == 0x4E && b[3] == 0x47 && b[4] == 0x0D
            && b[5] == 0x0A && b[6] == 0x1A && b[7] == 0x0A;
        let ghost sig = seq![0x89u8, 0x50, 0x4E, 0x47, 0x0D, 0x0A, 0x1A, 0x0A];
        if png {
            assert(b@.take(8) =~= sig);
            return Some(("png", "image/png"));
        } else {
            assert(b@.take(8)[0] != sig[0] || b@.take(8)[1] != sig[1] || b@.take(8)[2] != sig[2]
                || b@.take(8)[3] != sig[3] || b@.take(8)[4] != sig[4] || b@.take(8)[5] != sig[5]
                || b@.take(8)[6] != sig[6] || b@.take(8)[7] != sig[7]);
        }
    }
    if n > 12 {
        let riff = b[0] == 0x52 && b[1] == 0x49 && b[2] == 0x46 && b[3] == 0x46;
        let webp = b[8] == 0x57 && b[9] == 0x45 && b[10] == 0x42 && b[11] == 0x50;
        let ghost r4 = seq![0x52u8, 0x49, 0x46, 0x46];
        let ghost w4 = seq![0x57u8, 0x45, 0x42, 0x50];
        if riff && webp {
            assert(b@.take(4) =~= r4);
            assert(b@.subrange(8, 12) =~= w4);
            return Some(("webp", "image/webp"));
        } else if !riff {
            assert(b@.take(4)[0] != r4[0] || b@.take(4)[1] != r4[1] || b@.take(4)[2] != r4[2]
                || b@.take(4)[3] != r4[3]);
        } else {
            assert(b@.subrange(8, 12)[0] != w4[0] || b@.subrange(8, 12)[1] != w4[1] || b@.subrange(
                8,
                12,
            )[2] != w4[2] || b@.subrange(8, 12)[3] != w4[3]);
        }
    }
    None
}

/// Decodes a client-supplied image (raw base64 or a full `data:` URL) and
/// sniffs its real type from magic bytes: the declared MIME type is never
/// trusted. Returns (bytes, extension, content type).
pub fn decode_image(input: &str) -> (r: Result<(Vec<u8>, &'static str, &'static str), &'static str>)
    ensures
        r is Ok <==> image_outcome(input@) is Ok,
        r matches Ok((b, ext, mime)) ==> image_outcome(input@) == Ok::<
            (Seq<u8>, &'static str, &'static str),
            &'static str,
        >((b@, ext, mime)),
        r matches Err(m) ==> image_outcome(input@) == Err::<
            (Seq<u8>, &'static str, &'static str),
            &'static str,
        >(m),
{
    let cs = chars_of(input);
    let start = after_marker(cs.as_slice());
    let (lo, hi) = trim_range(cs.as_slice(), start);
    let mut text: Vec<char> = Vec::new();
    let mut i: usize = lo;
    while i < hi
        invariant
            lo <= i <= hi <= cs@.len(),
            text@ == cs@.subrange(lo as int, i as int),
        decreases hi - i,
    {
        text.push(cs[i]);
        assert(cs@.subrange(lo as int, i + 1) =~= cs@.subrange(lo as int, i as int).push(cs@[i as int]));
        i = i + 1;
    }
    assert(text@ == payload(input@));
    let bytes = match decode_base64(text.as_slice()) {
        None => return Err("Invalid image encoding"),
        Some(b) => b,
    };
    if bytes.len() > MAX_IMAGE_BYTES {
        return Err("Image too large (max 8MB)");
    }
    match sniff(&bytes) {
        Some((ext, mime)) => Ok((bytes, ext, mime)),
        None => Err("Unsupported image format — use JPEG, PNG, or WebP"),
    }
}

} // verus!
