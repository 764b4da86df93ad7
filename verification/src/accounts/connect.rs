//! Linking a payout account: the one-use `state` token that carries the
//! trust of the redirect flow, and where the member is sent back to.

use vstd::prelude::*;
use vstd::string::{StrSliceExecFns, StringExecFns};

use crate::text::{trim, trimmed};

verus! {

/// Seconds a PayPal link attempt stays claimable.
pub const PAYPAL_STATE_TTL_SECS: i64 = 600;

/// Seconds a Stripe onboarding attempt stays claimable.
pub const STRIPE_STATE_TTL_SECS: i64 = 1800;

/// Where members are sent when no client address is configured.
pub const DEFAULT_CLIENT_URL: &'static str = "http://localhost:5173";

/// The lowercase hex digit for a nibble.
pub open spec fn hex_digit(d: int) -> char {
    if d < 10 {
        ('0' as int + d) as char
    } else {
        ('a' as int + d - 10) as char
    }
}

/// Bytes as lowercase hex: two digits per byte, high nibble first.
pub open spec fn hex_text(bytes: Seq<u8>) -> Seq<char> {
    Seq::new(
        2 * bytes.len(),
        |i: int|
            if i % 2 == 0 {
                hex_digit(bytes[i / 2] as int / 16)
            } else {
                hex_digit(bytes[i / 2] as int % 16)
            },
    )
}

/// Thirty-two bytes from `rand::random`, the thread-local generator seeded
/// from the operating system. Nothing is claimed of their values.
#[verifier::external_body]
fn random_bytes() -> (r: Vec<u8>)
    ensures
        r@.len() == 32,
{
    rand::random::<[u8; 32]>().to_vec()
}

/// `hex::encode`: each byte as two lowercase hex digits, high nibble first,
/// from the table `0123456789abcdef`.
#[verifier::external_body]
fn hex_encode(bytes: &[u8]) -> (r: String)
    ensures
        r@ == hex_text(bytes@),
{
    hex::encode(bytes)
}

pub open spec fn is_hex_token(s: Seq<char>) -> bool {
    &&& s.len() == 64
    &&& forall|i: int| 0 <= i < s.len() ==> ('0' <= #[trigger] s[i] <= '9' || 'a' <= s[i] <= 'f')
}

/// A fresh `state` token: 256 random bits as 64 lowercase hex digits.
pub fn new_state() -> (r: String)
    ensures
        is_hex_token(r@),
{
    let bytes = random_bytes();
    let token = hex_encode(bytes.as_slice());
    assert forall|i: int| 0 <= i < token@.len() implies ('0' <= #[trigger] token@[i] <= '9' || 'a'
        <= token@[i] <= 'f') by {
        let b = bytes@[i / 2] as int;
        assert(0 <= b / 16 < 16 && 0 <= b % 16 < 16);
    }
    token
}

/// The index of the first comma at or after `i`, or the end.
pub open spec fn comma_from(s: Seq<char>, i: int) -> int
    decreases s.len() - i,
{
    if i < 0 || i >= s.len() {
        s.len() as int
    } else if s[i] == ',' {
        i
    } else {
        comma_from(s, i + 1)
    }
}

/// The first comma-separated entry from `start` on that is not blank once
/// trimmed.
pub open spec fn first_entry(s: Seq<char>, start: int) -> Option<Seq<char>>
    decreases s.len() - start,
{
    if start < 0 || start > s.len() {
        None
    } else {
        let end = comma_from(s, start);
        proof {
            lemma_comma_from(s, start);
        }
        let entry = trimmed(s.subrange(start, end));
        if entry.len() > 0 {
            Some(entry)
        } else if end >= s.len() {
            None
        } else {
            first_entry(s, end + 1)
        }
    }
}

/// The text without any slashes at its end.
pub open spec fn without_trailing_slashes(s: Seq<char>) -> Seq<char>
    decreases s.len(),
{
    if s.len() > 0 && s.last() == '/' {
        without_trailing_slashes(s.drop_last())
    } else {
        s
    }
}

/// The member's settings page on the client: the first configured client
/// address (the setting may list several, comma-separated), or the local
/// development address, with the flag as its query.
pub open spec fn settings_url(raw: Seq<char>, flag: Seq<char>) -> Seq<char> {
    let base = match first_entry(raw, 0) {
        Some(e) => e,
        None => DEFAULT_CLIENT_URL@,
    };
    without_trailing_slashes(base) + "/settings?"@ + flag
}

pub proof fn lemma_comma_from(s: Seq<char>, i: int)
    requires
        0 <= i <= s.len(),
    ensures
        i <= comma_from(s, i) <= s.len(),
        comma_from(s, i) < s.len() ==> s[comma_from(s, i)] == ',',
    decreases s.len() - i,
{
    if i < s.len() && s[i] != ',' {
        lemma_comma_from(s, i + 1);
    }
}

fn settings_base(raw: &str) -> (r: &str)
    ensures
        r@ == match first_entry(raw@, 0) {
            Some(e) => e,
            None => DEFAULT_CLIENT_URL@,
        },
{
    let n = raw.unicode_len();
    let mut start: usize = 0;
    proof {
        reveal_strlit("http://localhost:5173");
    }
    loop
        invariant
            start <= n,
            n == raw@.len(),
            first_entry(raw@, start as int) == first_entry(raw@, 0),
        decreases n - start,
    {
        let mut end: usize = start;
        while end < n && raw.get_char(end) != ','
            invariant
                start <= end <= n,
                n == raw@.len(),
                comma_from(raw@, end as int) == comma_from(raw@, start as int),
            decreases n - end,
        {
            end = end + 1;
        }
        let entry = trim(raw.substring_char(start, end));
        if entry.unicode_len() > 0 {
            return entry;
        }
        if end >= n {
            return DEFAULT_CLIENT_URL;
        }
        start = end + 1;
    }
}

/// Where the member is sent back to, with `flag` telling the client how the
/// link attempt went. `raw` is the configured client address setting.
pub fn app_url(raw: &str, flag: &str) -> (r: String)
    ensures
        r@ == settings_url(raw@, flag@),
{
    let base = settings_base(raw);
    let mut end = base.unicode_len();
    assert(base@.take(end as int) =~= base@);
    while end > 0 && base.get_char(end - 1) == '/'
        invariant
            end <= base@.len(),
            without_trailing_slashes(base@.take(end as int)) == without_trailing_slashes(base@),
        decreases end,
    {
        assert(base@.take(end as int).drop_last() =~= base@.take(end - 1));
        end = end - 1;
    }
    let kept = base.substring_char(0, end);
    proof {
        assert(base@.take(end as int) =~= kept@);
    }
    let mut out = String::from_str(kept);
    proof {
        reveal_strlit("/settings?");
    }
    out.append("/settings?");
    out.append(flag);
    out
}

/// A claimed `state` token: it must have been issued, and not have expired.
pub fn check_claim(expires_at: Option<i64>, now: i64) -> (r: Result<(), &'static str>)
    ensures
        r == (match expires_at {
            None => Err("badstate"),
            Some(at) => if at <= now {
                Err("expired")
            } else {
                Ok(())
            },
        }),
{
    match expires_at {
        None => Err("badstate"),
        Some(at) => {
            if at <= now {
                Err("expired")
            } else {
                Ok(())
            }
        },
    }
}

} // verus!
