//! What a member sees of the payment accounts they linked, and of their own
//! standing. Emails are masked before they leave the engine.

pub mod connect;
pub mod paypal;
pub mod stripe;
pub mod standing;

use vstd::prelude::*;
use vstd::string::{StrSliceExecFns, StringExecFns};

verus! {

/// Index of the first `@` in the string, if any.
pub open spec fn first_at(s: Seq<char>) -> Option<int> {
    if exists|i: int| 0 <= i < s.len() && s[i] == '@' {
        Some(choose|i: int| 0 <= i < s.len() && s[i] == '@' && forall|j: int| 0 <= j < i ==> s[j] != '@')
    } else {
        None
    }
}

/// `juan.delacruz@gmail.com` becomes `j•••@gmail.com`: the first character of
/// the name, three dots, and the whole domain. An address with no `@` shows
/// only the dots; an empty name shows a dot in its place.
pub open spec fn masked(s: Seq<char>) -> Seq<char> {
    match first_at(s) {
        None => "•••"@,
        Some(at) => (if at == 0 {
            seq!['•']
        } else {
            seq![s[0]]
        }) + "•••@"@ + s.subrange(at + 1, s.len() as int),
    }
}

/// Masks an email so it is enough to recognise and not enough to reuse.
pub fn mask(email: &str) -> (r: String)
    ensures
        r@ == masked(email@),
{
    let n = email.unicode_len();
    let mut at: usize = 0;
    while at < n && email.get_char(at) != '@'
        invariant
            at <= n,
            n == email@.len(),
            forall|j: int| 0 <= j < at ==> email@[j] != '@',
        decreases n - at,
    {
        at = at + 1;
    }
    proof {
        reveal_strlit("•••");
        reveal_strlit("•••@");
        reveal_strlit("•");
    }
    if at == n {
        proof {
            assert(!exists|i: int| 0 <= i < email@.len() && email@[i] == '@');
        }
        return String::from_str("•••");
    }
    proof {
        assert(exists|i: int| 0 <= i < email@.len() && email@[i] == '@') by {
            assert(email@[at as int] == '@');
        }
        let c = first_at(email@)->0;
        if c < at {
            assert(email@[c] != '@');
        }
        if c > at {
            assert(email@[at as int] != '@');
        }
        assert(c == at);
    }
    let mut out = if at == 0 {
        String::from_str("•")
    } else {
        String::from_str(email.substring_char(0, 1))
    };
    out.append("•••@");
    out.append(email.substring_char(at + 1, n));
    proof {
        assert(out@ =~= masked(email@));
    }
    out
}

} // verus!
