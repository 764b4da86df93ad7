//! Comparing and slicing strings, one character at a time.

use vstd::prelude::*;
use vstd::std_specs::iter::IteratorSpec;
use vstd::string::{StrSliceExecFns, StringExecFns};

verus! {

/// Whether two strings hold the same characters.
pub fn str_eq(a: &str, b: &str) -> (r: bool)
    ensures
        r == (a@ == b@),
{
    let n = a.unicode_len();
    let m = b.unicode_len();
    if n != m {
        return false;
    }
    let mut i: usize = 0;
    while i < n
        invariant
            i <= n,
            n == a@.len(),
            m == b@.len(),
            n == m,
            forall|k: int| 0 <= k < i ==> a@[k] == b@[k],
        decreases n - i,
    {
        if a.get_char(i) != b.get_char(i) {
            return false;
        }
        i = i + 1;
    }
    assert(a@ =~= b@);
    true
}

pub open spec fn digit_char(d: int) -> char {
    if d == 0 {
        '0'
    } else if d == 1 {
        '1'
    } else if d == 2 {
        '2'
    } else if d == 3 {
        '3'
    } else if d == 4 {
        '4'
    } else if d == 5 {
        '5'
    } else if d == 6 {
        '6'
    } else if d == 7 {
        '7'
    } else if d == 8 {
        '8'
    } else {
        '9'
    }
}

/// The decimal digits of a natural number, most significant first.
pub open spec fn decimal(n: nat) -> Seq<char>
    decreases n,
{
    if n < 10 {
        seq![digit_char(n as int)]
    } else {
        decimal(n / 10) + seq![digit_char((n % 10) as int)]
    }
}

/// `n` in decimal, left-padded with zeros to at least `width` characters.
pub open spec fn zero_padded(n: nat, width: nat) -> Seq<char> {
    let d = decimal(n);
    if d.len() >= width {
        d
    } else {
        Seq::new((width - d.len()) as nat, |i: int| '0') + d
    }
}

fn digit_str(d: u64) -> (r: &'static str)
    requires
        d < 10,
    ensures
        r@ == seq![digit_char(d as int)],
{
    proof {
        reveal_strlit("0");
        reveal_strlit("1");
        reveal_strlit("2");
        reveal_strlit("3");
        reveal_strlit("4");
        reveal_strlit("5");
        reveal_strlit("6");
        reveal_strlit("7");
        reveal_strlit("8");
        reveal_strlit("9");
    }
    if d == 0 {
        "0"
    } else if d == 1 {
        "1"
    } else if d == 2 {
        "2"
    } else if d == 3 {
        "3"
    } else if d == 4 {
        "4"
    } else if d == 5 {
        "5"
    } else if d == 6 {
        "6"
    } else if d == 7 {
        "7"
    } else if d == 8 {
        "8"
    } else {
        "9"
    }
}

/// Appends `n` in decimal to `out`.
pub fn push_decimal(out: &mut String, n: u64)
    ensures
        final(out)@ == old(out)@ + decimal(n as nat),
    decreases n,
{
    if n < 10 {
        out.append(digit_str(n));
    } else {
        push_decimal(out, n / 10);
        out.append(digit_str(n % 10));
        proof {
            assert(decimal(n as nat) == decimal((n / 10) as nat) + seq![digit_char((n % 10) as int)]);
        }
    }
}

/// Appends `n` in decimal, left-padded with zeros to at least `width` characters.
pub fn push_zero_padded(out: &mut String, n: u64, width: usize)
    requires
        width <= 64,
    ensures
        final(out)@ == old(out)@ + zero_padded(n as nat, width as nat),
{
    let mut digits = String::new();
    push_decimal(&mut digits, n);
    let len = digits.as_str().unicode_len();
    let mut pad: usize = 0;
    let ghost start = out@;
    if len < width {
        while pad < width - len
            invariant
                len < width <= 64,
                pad <= width - len,
                out@ == start + Seq::new(pad as nat, |i: int| '0'),
            decreases width - len - pad,
        {
            proof {
                reveal_strlit("0");
            }
            out.append("0");
            proof {
                assert(Seq::new((pad + 1) as nat, |i: int| '0') =~= Seq::new(pad as nat, |i: int| '0')
                    + seq!['0']);
                assert(start + Seq::new((pad + 1) as nat, |i: int| '0') =~= start + Seq::new(
                    pad as nat,
                    |i: int| '0',
                ) + seq!['0']);
            }
            pad = pad + 1;
        }
    }
    out.append(digits.as_str());
    proof {
        if len < width {
            assert(out@ =~= start + zero_padded(n as nat, width as nat));
        } else {
            assert(out@ =~= start + zero_padded(n as nat, width as nat));
        }
    }
}

/// Unicode `White_Space`: the characters `str::trim` removes.
pub open spec fn white_space(c: char) -> bool {
    ||| '\u{9}' <= c <= '\u{d}'
    ||| c == ' '
    ||| c == '\u{85}'
    ||| c == '\u{a0}'
    ||| c == '\u{1680}'
    ||| '\u{2000}' <= c <= '\u{200a}'
    ||| c == '\u{2028}'
    ||| c == '\u{2029}'
    ||| c == '\u{202f}'
    ||| c == '\u{205f}'
    ||| c == '\u{3000}'
}

pub fn is_white_space(c: char) -> (r: bool)
    ensures
        r == white_space(c),
{
    ('\u{9}' <= c && c <= '\u{d}') || c == ' ' || c == '\u{85}' || c == '\u{a0}' || c == '\u{1680}'
        || ('\u{2000}' <= c && c <= '\u{200a}') || c == '\u{2028}' || c == '\u{2029}' || c
        == '\u{202f}' || c == '\u{205f}' || c == '\u{3000}'
}

/// Where the text starts once the white space before `i` is skipped.
pub open spec fn skip_space(s: Seq<char>, i: int) -> int
    decreases s.len() - i,
{
    if 0 <= i < s.len() && white_space(s[i]) {
        skip_space(s, i + 1)
    } else {
        i
    }
}

/// Where the text ends once the white space before `j`, down to `lo`, is dropped.
pub open spec fn drop_space(s: Seq<char>, j: int, lo: int) -> int
    decreases j - lo,
{
    if lo < j <= s.len() && white_space(s[j - 1]) {
        drop_space(s, j - 1, lo)
    } else {
        j
    }
}

/// The text with white space removed from both ends.
pub open spec fn trimmed(s: Seq<char>) -> Seq<char> {
    let a = skip_space(s, 0);
    s.subrange(a, drop_space(s, s.len() as int, a))
}

pub proof fn lemma_skip_space_bounds(s: Seq<char>, i: int)
    requires
        0 <= i <= s.len(),
    ensures
        i <= skip_space(s, i) <= s.len(),
        forall|k: int| i <= k < skip_space(s, i) ==> white_space(#[trigger] s[k]),
        skip_space(s, i) < s.len() ==> !white_space(s[skip_space(s, i)]),
    decreases s.len() - i,
{
    if i < s.len() && white_space(s[i]) {
        lemma_skip_space_bounds(s, i + 1);
    }
}

pub proof fn lemma_drop_space_bounds(s: Seq<char>, j: int, lo: int)
    requires
        0 <= lo <= j <= s.len(),
    ensures
        lo <= drop_space(s, j, lo) <= j,
        forall|k: int| drop_space(s, j, lo) <= k < j ==> white_space(#[trigger] s[k]),
        drop_space(s, j, lo) > lo ==> !white_space(s[drop_space(s, j, lo) - 1]),
    decreases j - lo,
{
    if lo < j && white_space(s[j - 1]) {
        lemma_drop_space_bounds(s, j - 1, lo);
    }
}

/// `s` without leading and trailing white space.
pub fn trim(s: &str) -> (r: &str)
    ensures
        r@ == trimmed(s@),
{
    let n = s.unicode_len();
    let mut a: usize = 0;
    while a < n && is_white_space(s.get_char(a))
        invariant
            a <= n,
            n == s@.len(),
            skip_space(s@, a as int) == skip_space(s@, 0),
        decreases n - a,
    {
        a = a + 1;
    }
    let mut b: usize = n;
    while b > a && is_white_space(s.get_char(b - 1))
        invariant
            a <= b <= n,
            n == s@.len(),
            a == skip_space(s@, 0),
            drop_space(s@, b as int, a as int) == drop_space(s@, n as int, a as int),
        decreases b,
    {
        b = b - 1;
    }
    s.substring_char(a, b)
}

/// The characters of `s`, read once from start to end.
pub fn chars_of(s: &str) -> (r: Vec<char>)
    ensures
        r@ == s@,
{
    broadcast use vstd::string::axiom_spec_iter, vstd::string::next_postcondition;

    let mut it = s.chars();
    let mut out: Vec<char> = Vec::new();
    loop
        invariant
            it.remaining() == s@.skip(out@.len() as int),
            out@ == s@.take(out@.len() as int),
            out@.len() <= s@.len(),
            it.obeys_prophetic_iter_laws(),
        decreases s@.len() - out@.len(),
    {
        match it.next() {
            Some(c) => {
                assert(s@.take(out@.len() + 1 as int) =~= out@.push(c));
                assert(s@.skip(out@.len() + 1 as int) =~= s@.skip(out@.len() as int).drop_first());
                out.push(c);
            },
            None => {
                assert(s@.take(out@.len() as int) =~= s@);
                return out;
            },
        }
    }
}

/// Where the text in `cs[lo..]` starts and ends once white space is trimmed
/// from both ends.
pub fn trim_range(cs: &[char], lo: usize) -> (r: (usize, usize))
    requires
        lo <= cs@.len(),
    ensures
        lo <= r.0 <= r.1 <= cs@.len(),
        cs@.subrange(r.0 as int, r.1 as int) == trimmed(cs@.subrange(lo as int, cs@.len() as int)),
{
    let n = cs.len();
    let ghost t = cs@.subrange(lo as int, n as int);
    let mut a: usize = lo;
    while a < n && is_white_space(cs[a])
        invariant
            lo <= a <= n,
            n == cs@.len(),
            t == cs@.subrange(lo as int, n as int),
            skip_space(t, a - lo) == skip_space(t, 0),
        decreases n - a,
    {
        a = a + 1;
    }
    let mut b: usize = n;
    while b > a && is_white_space(cs[b - 1])
        invariant
            lo <= a <= b <= n,
            n == cs@.len(),
            t == cs@.subrange(lo as int, n as int),
            a - lo == skip_space(t, 0),
            drop_space(t, b - lo, a - lo) == drop_space(t, n - lo, a - lo),
        decreases b,
    {
        b = b - 1;
    }
    assert(cs@.subrange(a as int, b as int) =~= t.subrange(a - lo, b - lo));
    (a, b)
}

} // verus!
