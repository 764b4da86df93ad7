//! Standard base64 (RFC 4648 alphabet, `=` padding), decoded one group of
//! four characters at a time.

use vstd::prelude::*;

verus! {

/// The six bits a character stands for, or -1 outside the alphabet.
pub open spec fn sextet(c: char) -> int {
    if 'A' <= c <= 'Z' {
        c as int - 65
    } else if 'a' <= c <= 'z' {
        c as int - 71
    } else if '0' <= c <= '9' {
        c as int + 4
    } else if c == '+' {
        62
    } else if c == '/' {
        63
    } else {
        -1
    }
}

/// Four sextets as one 24-bit number, first sextet most significant.
pub open spec fn quad(a: int, b: int, c: int, d: int) -> int {
    a * 262144 + b * 4096 + c * 64 + d
}

/// The three bytes of a 24-bit number, most significant first.
pub open spec fn three_bytes(v: int) -> Seq<u8> {
    seq![(v / 65536) as u8, ((v / 256) % 256) as u8, (v % 256) as u8]
}

/// A group of four alphabet characters.
pub open spec fn full_group(g: Seq<char>) -> Option<Seq<u8>> {
    if g.len() == 4 && sextet(g[0]) >= 0 && sextet(g[1]) >= 0 && sextet(g[2]) >= 0 && sextet(g[3])
        >= 0 {
        Some(three_bytes(quad(sextet(g[0]), sextet(g[1]), sextet(g[2]), sextet(g[3]))))
    } else {
        None
    }
}

/// The final group, which may end in one `=` (two bytes) or two (one byte).
pub open spec fn last_group(g: Seq<char>) -> Option<Seq<u8>> {
    if full_group(g) is Some {
        full_group(g)
    } else if g.len() == 4 && sextet(g[0]) >= 0 && sextet(g[1]) >= 0 && g[2] == '=' && g[3] == '=' {
        Some(three_bytes(quad(sextet(g[0]), sextet(g[1]), 0, 0)).take(1))
    } else if g.len() == 4 && sextet(g[0]) >= 0 && sextet(g[1]) >= 0 && sextet(g[2]) >= 0 && g[3]
        == '=' {
        Some(three_bytes(quad(sextet(g[0]), sextet(g[1]), sextet(g[2]), 0)).take(2))
    } else {
        None
    }
}

/// A run of unpadded groups.
#[verifier::opaque]
pub open spec fn full_groups(s: Seq<char>) -> Option<Seq<u8>>
    decreases s.len(),
{
    if s.len() == 0 {
        Some(Seq::empty())
    } else if s.len() < 4 {
        None
    } else {
        match full_groups(s.take(s.len() - 4)) {
            None => None,
            Some(front) => match full_group(s.skip(s.len() - 4)) {
                None => None,
                Some(g) => Some(front + g),
            },
        }
    }
}

/// What a base64 text decodes to: none unless it is whole groups of four,
/// every character in the alphabet, with padding only at the very end.
pub open spec fn base64_decoded(s: Seq<char>) -> Option<Seq<u8>> {
    if s.len() == 0 {
        Some(Seq::empty())
    } else if s.len() % 4 != 0 {
        None
    } else {
        match full_groups(s.take(s.len() - 4)) {
            None => None,
            Some(front) => match last_group(s.skip(s.len() - 4)) {
                None => None,
                Some(g) => Some(front + g),
            },
        }
    }
}

fn sextet_of(c: char) -> (r: i32)
    ensures
        r == sextet(c),
{
    if 'A' <= c && c <= 'Z' {
        (c as u32 - 65) as i32
    } else if 'a' <= c && c <= 'z' {
        (c as u32 - 71) as i32
    } else if '0' <= c && c <= '9' {
        (c as u32 + 4) as i32
    } else if c == '+' {
        62
    } else if c == '/' {
        63
    } else {
        -1
    }
}

fn push_group(out: &mut Vec<u8>, a: i32, b: i32, c: i32, d: i32, keep: usize)
    requires
        0 <= a < 64,
        0 <= b < 64,
        0 <= c < 64,
        0 <= d < 64,
        1 <= keep <= 3,
    ensures
        final(out)@ == old(out)@ + three_bytes(quad(a as int, b as int, c as int, d as int)).take(
            keep as int,
        ),
{
    let v: u32 = (a as u32) * 262144 + (b as u32) * 4096 + (c as u32) * 64 + (d as u32);
    assert(v == quad(a as int, b as int, c as int, d as int));
    assert(v / 65536 < 256);
    out.push((v / 65536) as u8);
    if keep >= 2 {
        out.push(((v / 256) % 256) as u8);
    }
    if keep >= 3 {
        out.push((v % 256) as u8);
    }
    assert(final(out)@ =~= old(out)@ + three_bytes(v as int).take(keep as int));
}

/// Decodes the four characters at `i`, all from the alphabet, onto `out`.
fn take_group(cs: &[char], i: usize, out: &mut Vec<u8>) -> (ok: bool)
    requires
        i + 4 <= cs@.len(),
    ensures
        ok == (full_group(cs@.subrange(i as int, i + 4)) is Some),
        ok ==> final(out)@ == old(out)@ + full_group(cs@.subrange(i as int, i + 4))->0,
        !ok ==> final(out)@ == old(out)@,
{
    let ghost g = cs@.subrange(i as int, i + 4);
    let a = sextet_of(cs[i]);
    let b = sextet_of(cs[i + 1]);
    let c = sextet_of(cs[i + 2]);
    let d = sextet_of(cs[i + 3]);
    assert(g[0] == cs@[i as int] && g[1] == cs@[i + 1] && g[2] == cs@[i + 2] && g[3] == cs@[i + 3]);
    if a < 0 || b < 0 || c < 0 || d < 0 {
        return false;
    }
    push_group(out, a, b, c, d, 3);
    assert(three_bytes(quad(a as int, b as int, c as int, d as int)).take(3) =~= three_bytes(
        quad(a as int, b as int, c as int, d as int),
    ));
    true
}

/// Decodes standard padded base64, or nothing when the text is not that.
pub fn decode_base64(cs: &[char]) -> (r: Option<Vec<u8>>)
    ensures
        r is None <==> base64_decoded(cs@) is None,
        r matches Some(v) ==> base64_decoded(cs@) == Some(v@),
{
    let n = cs.len();
    let mut out: Vec<u8> = Vec::new();
    proof {
        reveal(full_groups);
        assert(cs@.take(0) =~= Seq::<char>::empty());
    }
    if n == 0 {
        return Some(out);
    }
    if n % 4 != 0 {
        return None;
    }
    let mut i: usize = 0;
    while i + 4 < n
        invariant
            n == cs@.len(),
            n % 4 == 0,
            n > 0,
            i % 4 == 0,
            i <= n - 4,
            full_groups(cs@.take(i as int)) == Some(out@),
        decreases n - i,
    {
        proof {
            lemma_full_groups_step(cs@, i as int);
        }
        if !take_group(cs, i, &mut out) {
            proof {
                lemma_full_groups_prefix(cs@, (i + 4) as int, (n - 4) as int);
            }
            return None;
        }
        i = i + 4;
    }
    let ghost tail = cs@.skip(n - 4);
    proof {
        assert(tail =~= cs@.subrange(n - 4, n as int));
        assert(cs@.take(n - 4) =~= cs@.take(i as int));
    }
    let a = sextet_of(cs[n - 4]);
    let b = sextet_of(cs[n - 3]);
    let c2 = cs[n - 2];
    let d2 = cs[n - 1];
    let c = sextet_of(c2);
    let d = sextet_of(d2);
    if a < 0 || b < 0 {
        return None;
    }
    if c >= 0 && d >= 0 {
        push_group(&mut out, a, b, c, d, 3);
    } else if c2 == '=' && d2 == '=' {
        push_group(&mut out, a, b, 0, 0, 1);
    } else if c >= 0 && d2 == '=' {
        push_group(&mut out, a, b, c, 0, 2);
    } else {
        return None;
    }
    Some(out)
}

proof fn lemma_full_groups_step(s: Seq<char>, i: int)
    requires
        0 <= i,
        i + 4 <= s.len(),
    ensures
        full_groups(s.take(i + 4)) == match full_groups(s.take(i)) {
            None => None,
            Some(front) => match full_group(s.subrange(i, i + 4)) {
                None => None,
                Some(g) => Some(front + g),
            },
        },
{
    reveal(full_groups);
    let next = s.take(i + 4);
    assert(next.take(next.len() - 4) =~= s.take(i));
    assert(next.skip(next.len() - 4) =~= s.subrange(i, i + 4));
}

/// A failing group inside a prefix fails every longer run of groups.
proof fn lemma_full_groups_prefix(s: Seq<char>, k: int, m: int)
    requires
        4 <= k <= m <= s.len(),
        k % 4 == 0,
        m % 4 == 0,
        full_groups(s.take(k)) is None,
    ensures
        full_groups(s.take(m)) is None,
    decreases m - k,
{
    if m > k {
        lemma_full_groups_prefix(s, k, m - 4);
        lemma_full_groups_step(s, m - 4);
        assert(s.take(m - 4).len() == m - 4);
    }
}

} // verus!
