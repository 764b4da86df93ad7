//! Identity checks: what a submission must look like before anything about
//! it is stored, and how an administrator's decision on it is read.

pub mod base64;
pub mod image;

use vstd::prelude::*;
use vstd::string::{StrSliceExecFns, StringExecFns};
use vstd::utf8::encode_utf8;

use self::image::{decode_image, image_outcome};
use crate::Refusal;
use crate::text::{str_eq, trim, trimmed};

verus! {

pub const MAX_NAME_LEN: usize = 100;

pub const MAX_DOB_LEN: usize = 32;

pub const MAX_ID_NUMBER_LEN: usize = 64;

pub const MAX_REASON_LEN: usize = 500;

/// Queue entries per page.
pub const PAGE_SIZE: i64 = 10;

/// The UTF-8 length of some text, in bytes.
pub open spec fn byte_len(s: Seq<char>) -> int {
    encode_utf8(s).len() as int
}

pub open spec fn ascii_upper(c: char) -> bool {
    'A' <= c <= 'Z'
}

pub open spec fn ascii_alnum(c: char) -> bool {
    'A' <= c <= 'Z' || 'a' <= c <= 'z' || '0' <= c <= '9'
}

/// A character of a Stellar public key after the leading `G`: base32, so
/// `A`–`Z` and `2`–`7`.
pub open spec fn base32_char(c: char) -> bool {
    ascii_upper(c) || '2' <= c <= '7'
}

/// A Stellar public key: `G` and 55 more base32 characters.
pub open spec fn stellar_address(s: Seq<char>) -> bool {
    &&& s.len() == 56
    &&& s[0] == 'G'
    &&& forall|i: int| 0 <= i < s.len() ==> base32_char(#[trigger] s[i])
}

/// Stellar public key: 'G' + 55 base32 chars (A-Z, 2-7).
pub fn is_valid_stellar_address(addr: &str) -> (r: bool)
    ensures
        r == stellar_address(addr@),
{
    let n = addr.unicode_len();
    if n != 56 || addr.get_char(0) != 'G' {
        return false;
    }
    let mut i: usize = 0;
    while i < n
        invariant
            i <= n,
            n == addr@.len(),
            forall|k: int| 0 <= k < i ==> base32_char(#[trigger] addr@[k]),
        decreases n - i,
    {
        let c = addr.get_char(i);
        if !(('A' <= c && c <= 'Z') || ('2' <= c && c <= '7')) {
            return false;
        }
        i = i + 1;
    }
    true
}

/// The character with an ASCII capital letter turned lower case.
pub open spec fn ascii_lower(c: char) -> char {
    if ascii_upper(c) {
        (c as u32 + 32) as char
    } else {
        c
    }
}

pub open spec fn lowered(s: Seq<char>) -> Seq<char> {
    Seq::new(s.len(), |i: int| ascii_lower(s[i]))
}

/// Whether `t`, with ASCII letters lower-cased, reads exactly `word`.
fn lowers_to(t: &str, word: &str) -> (r: bool)
    ensures
        r == (lowered(t@) == word@),
{
    let n = t.unicode_len();
    let m = word.unicode_len();
    if n != m {
        assert(lowered(t@).len() != word@.len());
        return false;
    }
    let mut i: usize = 0;
    while i < n
        invariant
            i <= n,
            n == t@.len(),
            m == word@.len(),
            n == m,
            forall|k: int| 0 <= k < i ==> ascii_lower(#[trigger] t@[k]) == word@[k],
        decreases n - i,
    {
        let c = t.get_char(i);
        let w = word.get_char(i);
        let same = if 'A' <= c && c <= 'Z' {
            (c as u32) + 32 == (w as u32)
        } else {
            c == w
        };
        if !same {
            assert(lowered(t@)[i as int] != word@[i as int]);
            return false;
        }
        i = i + 1;
    }
    assert(lowered(t@) =~= word@);
    true
}

/// The kinds of identity document accepted; mirrors the front end's `IdType`.
pub open spec fn id_type_named(t: Seq<char>) -> bool {
    ||| lowered(t) == "philsys"@
    ||| lowered(t) == "drivers-license"@
    ||| lowered(t) == "passport"@
    ||| lowered(t) == "postal"@
    ||| lowered(t) == "unknown"@
}

/// The accepted name of the document type `t` spells, ignoring ASCII case.
pub fn id_type_of(t: &str) -> (r: Option<&'static str>)
    ensures
        r is Some <==> id_type_named(t@),
        r matches Some(name) ==> name@ == lowered(t@),
{
    if lowers_to(t, "philsys") {
        Some("philsys")
    } else if lowers_to(t, "drivers-license") {
        Some("drivers-license")
    } else if lowers_to(t, "passport") {
        Some("passport")
    } else if lowers_to(t, "postal") {
        Some("postal")
    } else if lowers_to(t, "unknown") {
        Some("unknown")
    } else {
        None
    }
}

/// A required text field: present once trimmed, and no longer than `max` bytes.
pub open spec fn field_ok(s: Seq<char>, max: int) -> bool {
    trimmed(s).len() > 0 && byte_len(trimmed(s)) <= max
}

/// Trims a required field; refuses it with `label` when it is empty or too long.
pub fn required_field(value: &str, max: usize, label: &'static str) -> (r: Result<String, Refusal>)
    ensures
        r is Ok <==> field_ok(value@, max as int),
        r matches Ok(v) ==> v@ == trimmed(value@),
        r matches Err(e) ==> e == (Refusal { status: 422, message: label }),
{
    let v = trim(value);
    let bytes = v.as_bytes();
    if v.unicode_len() == 0 || bytes.len() > max {
        return Err(Refusal { status: 422, message: label });
    }
    Ok(String::from_str(v))
}

/// How many ASCII letters and digits the text holds.
pub open spec fn alnum_count(s: Seq<char>) -> nat
    decreases s.len(),
{
    if s.len() == 0 {
        0
    } else {
        alnum_count(s.drop_last()) + (if ascii_alnum(s.last()) {
            1nat
        } else {
            0nat
        })
    }
}

fn count_alnum(s: &str) -> (r: usize)
    ensures
        r == alnum_count(s@),
{
    let n = s.unicode_len();
    let mut i: usize = 0;
    let mut count: usize = 0;
    while i < n
        invariant
            i <= n,
            n == s@.len(),
            count == alnum_count(s@.take(i as int)),
            count <= i,
        decreases n - i,
    {
        let c = s.get_char(i);
        proof {
            assert(s@.take(i + 1).drop_last() =~= s@.take(i as int));
        }
        if ('A' <= c && c <= 'Z') || ('a' <= c && c <= 'z') || ('0' <= c && c <= '9') {
            count = count + 1;
        }
        i = i + 1;
    }
    assert(s@.take(n as int) =~= s@);
    count
}

/// An identity submission as the member sends it. Images are raw base64 or
/// `data:` URLs; their real type is sniffed here.
#[derive(Clone, Debug)]
pub struct SubmitInput {
    pub id_type: String,
    pub first_name: String,
    pub middle_name: String,
    pub last_name: String,
    pub dob: String,
    pub id_number: String,
    pub wallet_address: String,
    pub face_match_score: Option<i16>,
    pub liveness_passed: bool,
    pub id_image: String,
    pub selfie_image: String,
}

/// A submission that passed every check, fields trimmed and images decoded.
#[derive(Clone, Debug)]
pub struct CheckedSubmission {
    pub id_type: &'static str,
    pub first_name: String,
    pub middle_name: String,
    pub last_name: String,
    pub dob: String,
    pub id_number: String,
    pub wallet_address: String,
    pub face_match_score: Option<i16>,
    pub liveness_passed: bool,
    pub id_image: Vec<u8>,
    pub id_ext: &'static str,
    pub id_mime: &'static str,
    pub selfie_image: Vec<u8>,
    pub selfie_ext: &'static str,
    pub selfie_mime: &'static str,
}

/// The first thing wrong with a submission, in the order it is checked;
/// none when it may go on to the duplicate checks.
pub open spec fn submission_problem(p: SubmitInput) -> Option<&'static str> {
    if !id_type_named(trimmed(p.id_type@)) {
        Some("Unknown ID type")
    } else if !field_ok(p.first_name@, 100) {
        Some("Invalid first name")
    } else if !field_ok(p.last_name@, 100) {
        Some("Invalid last name")
    } else if byte_len(trimmed(p.middle_name@)) > 100 {
        Some("Invalid middle name")
    } else if !field_ok(p.dob@, 32) {
        Some("Invalid date of birth")
    } else if !field_ok(p.id_number@, 64) || alnum_count(trimmed(p.id_number@)) < 4 {
        Some("Invalid ID number")
    } else if !stellar_address(trimmed(p.wallet_address@)) {
        Some("Invalid wallet address")
    } else if p.face_match_score matches Some(s) && !(0 <= s <= 100) {
        Some("Invalid match score")
    } else {
        match (image_outcome(p.id_image@), image_outcome(p.selfie_image@)) {
            (Err(m), _) => Some(m),
            (Ok(_), Err(m)) => Some(m),
            (Ok(_), Ok(_)) => None,
        }
    }
}

/// Checks every field of a submission, and decodes both images, before
/// anything is stored. Each refusal is a 422 naming the first bad field.
pub fn check_submission(p: &SubmitInput) -> (r: Result<CheckedSubmission, Refusal>)
    ensures
        r is Err <==> submission_problem(*p) is Some,
        r matches Err(e) ==> e == (Refusal { status: 422, message: submission_problem(*p)->0 }),
        r matches Ok(c) ==> {
            &&& c.id_type@ == lowered(trimmed(p.id_type@))
            &&& c.first_name@ == trimmed(p.first_name@)
            &&& c.middle_name@ == trimmed(p.middle_name@)
            &&& c.last_name@ == trimmed(p.last_name@)
            &&& c.dob@ == trimmed(p.dob@)
            &&& c.id_number@ == trimmed(p.id_number@)
            &&& c.wallet_address@ == trimmed(p.wallet_address@)
            &&& c.face_match_score == p.face_match_score
            &&& c.liveness_passed == p.liveness_passed
            &&& image_outcome(p.id_image@) == Ok::<(Seq<u8>, &'static str, &'static str), &'static str>(
                (c.id_image@, c.id_ext, c.id_mime),
            )
            &&& image_outcome(p.selfie_image@) == Ok::<
                (Seq<u8>, &'static str, &'static str),
                &'static str,
            >((c.selfie_image@, c.selfie_ext, c.selfie_mime))
        },
{
    let id_type = match id_type_of(trim(p.id_type.as_str())) {
        Some(t) => t,
        None => return Err(Refusal { status: 422, message: "Unknown ID type" }),
    };
    let first_name = match required_field(p.first_name.as_str(), MAX_NAME_LEN, "Invalid first name") {
        Ok(v) => v,
        Err(e) => return Err(e),
    };
    let last_name = match required_field(p.last_name.as_str(), MAX_NAME_LEN, "Invalid last name") {
        Ok(v) => v,
        Err(e) => return Err(e),
    };
    let middle = trim(p.middle_name.as_str());
    if middle.as_bytes().len() > MAX_NAME_LEN {
        return Err(Refusal { status: 422, message: "Invalid middle name" });
    }
    let middle_name = String::from_str(middle);
    let dob = match required_field(p.dob.as_str(), MAX_DOB_LEN, "Invalid date of birth") {
        Ok(v) => v,
        Err(e) => return Err(e),
    };
    let id_number = match required_field(p.id_number.as_str(), MAX_ID_NUMBER_LEN, "Invalid ID number") {
        Ok(v) => v,
        Err(e) => return Err(e),
    };
    if count_alnum(id_number.as_str()) < 4 {
        return Err(Refusal { status: 422, message: "Invalid ID number" });
    }
    let wallet = trim(p.wallet_address.as_str());
    if !is_valid_stellar_address(wallet) {
        return Err(Refusal { status: 422, message: "Invalid wallet address" });
    }
    let wallet_address = String::from_str(wallet);
    if let Some(score) = p.face_match_score {
        if !(0 <= score && score <= 100) {
            return Err(Refusal { status: 422, message: "Invalid match score" });
        }
    }
    let (id_image, id_ext, id_mime) = match decode_image(p.id_image.as_str()) {
        Ok(v) => v,
        Err(m) => return Err(Refusal { status: 422, message: m }),
    };
    let (selfie_image, selfie_ext, selfie_mime) = match decode_image(p.selfie_image.as_str()) {
        Ok(v) => v,
        Err(m) => return Err(Refusal { status: 422, message: m }),
    };
    Ok(
        CheckedSubmission {
            id_type,
            first_name,
            middle_name,
            last_name,
            dob,
            id_number,
            wallet_address,
            face_match_score: p.face_match_score,
            liveness_passed: p.liveness_passed,
            id_image,
            id_ext,
            id_mime,
            selfie_image,
            selfie_ext,
            selfie_mime,
        },
    )
}

/// An administrator's decision on a pending submission, once read.
#[derive(Clone, Debug)]
pub struct Review {
    pub approve: bool,
    /// The submission's new status.
    pub status: &'static str,
    /// The trimmed reason, when a non-empty one was given.
    pub reason: Option<String>,
    pub message: &'static str,
}

/// The reason as it counts: trimmed, and absent when only white space.
pub open spec fn given_reason(reason: Option<Seq<char>>) -> Option<Seq<char>> {
    match reason {
        Some(r) => if trimmed(r).len() > 0 {
            Some(trimmed(r))
        } else {
            None
        },
        None => None,
    }
}

pub open spec fn text_of(s: Option<&str>) -> Option<Seq<char>> {
    match s {
        Some(t) => Some(t@),
        None => None,
    }
}

pub open spec fn string_of(s: Option<String>) -> Option<Seq<char>> {
    match s {
        Some(t) => Some(t@),
        None => None,
    }
}

/// What is wrong with a decision, if anything: an unknown verb, a rejection
/// with no reason, or a reason over 500 bytes.
pub open spec fn review_problem(decision: Seq<char>, reason: Option<Seq<char>>) -> Option<&'static str> {
    let given = given_reason(reason);
    if decision != "approve"@ && decision != "reject"@ {
        Some("Unknown decision")
    } else if decision != "approve"@ && given is None {
        Some("A rejection needs a reason")
    } else if given matches Some(r) && byte_len(r) > 500 {
        Some("Reason too long")
    } else {
        None
    }
}

/// Reads an administrator's `approve` / `reject`, with the reason a rejection needs.
pub fn review_decision(decision: &str, reason: Option<&str>) -> (r: Result<Review, Refusal>)
    ensures
        r is Err <==> review_problem(decision@, text_of(reason)) is Some,
        r matches Err(e) ==> e == (Refusal {
            status: 422,
            message: review_problem(decision@, text_of(reason))->0,
        }),
        r matches Ok(v) ==> {
            &&& v.approve == (decision@ == "approve"@)
            &&& v.status == (if v.approve {
                "approved"
            } else {
                "rejected"
            })
            &&& string_of(v.reason) == given_reason(text_of(reason))
            &&& v.message == (if v.approve {
                "Submission approved"
            } else {
                "Submission rejected"
            })
        },
{
    let approve = if str_eq(decision, "approve") {
        true
    } else if str_eq(decision, "reject") {
        false
    } else {
        return Err(Refusal { status: 422, message: "Unknown decision" });
    };
    let given: Option<&str> = match reason {
        Some(t) => {
            let v = trim(t);
            if v.unicode_len() > 0 {
                Some(v)
            } else {
                None
            }
        },
        None => None,
    };
    if !approve && given.is_none() {
        return Err(Refusal { status: 422, message: "A rejection needs a reason" });
    }
    if let Some(v) = given {
        if v.as_bytes().len() > MAX_REASON_LEN {
            return Err(Refusal { status: 422, message: "Reason too long" });
        }
    }
    let kept: Option<String> = match given {
        Some(v) => Some(String::from_str(v)),
        None => None,
    };
    if approve {
        Ok(Review { approve, status: "approved", reason: kept, message: "Submission approved" })
    } else {
        Ok(Review { approve, status: "rejected", reason: kept, message: "Submission rejected" })
    }
}

/// A member with a submission that is not rejected cannot submit again: an
/// approved one means they are already verified, any other is under review.
pub fn check_existing(existing: Option<&str>) -> (r: Result<(), Refusal>)
    ensures
        r == (match existing {
            None => Ok(()),
            Some(status) => if status@ == "approved"@ {
                Err(Refusal { status: 409, message: "Your identity is already verified" })
            } else {
                Err(Refusal { status: 409, message: "Your submission is already under review" })
            },
        }),
{
    match existing {
        None => Ok(()),
        Some(status) => {
            if str_eq(status, "approved") {
                Err(Refusal { status: 409, message: "Your identity is already verified" })
            } else {
                Err(Refusal { status: 409, message: "Your submission is already under review" })
            }
        },
    }
}

/// An ID number already behind another live submission cannot be used again;
/// the answer does not say whose it is.
pub fn check_id_free(id_taken: bool) -> (r: Result<(), Refusal>)
    ensures
        r == (if id_taken {
            Err(Refusal { status: 409, message: "This ID cannot be used for verification" })
        } else {
            Ok(())
        }),
{
    if id_taken {
        return Err(Refusal { status: 409, message: "This ID cannot be used for verification" });
    }
    Ok(())
}

/// Where a submission's document is stored: under the member, then the
/// submission, named for what it is with its image's extension.
pub fn document_path(user_id: &str, submission_id: &str, name: &str, ext: &str) -> (r: String)
    ensures
        r@ == user_id@ + "/"@ + submission_id@ + "/"@ + name@ + "."@ + ext@,
{
    String::from_str(user_id).concat("/").concat(submission_id).concat("/").concat(name).concat(".").concat(ext)
}

} // verus!
