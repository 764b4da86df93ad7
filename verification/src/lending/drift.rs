//! Reconciling the database against the chain: how amounts and transaction
//! hashes are printed, how one verification is judged, and whether a
//! collateral position's status agrees with the movements recorded against
//! it.

use vstd::prelude::*;
use vstd::string::{StrSliceExecFns, StringExecFns};
use vstd::utf8::{decode_utf8, encode_utf8, is_char_boundary};

use crate::accounts::connect::hex_digit;
use super::webhook::{parse_member_id, uuid_text};
use crate::domain::rounding::{div_toward_zero, lemma_trunc_div_bounds, trunc_div};
use crate::text::{chars_of, decimal, push_decimal, push_zero_padded, str_eq, zero_padded};

verus! {

/// Stroops in one XLM.
pub const STROOPS_PER_XLM: i64 = 10_000_000;

/// The answer when the chain could not be reached at all.
pub const UNREACHABLE: &'static str = "Blockchain network unreachable";

/// An integer in decimal, with a minus sign when negative.
pub open spec fn signed_decimal(n: int) -> Seq<char> {
    if n < 0 {
        seq!['-'] + decimal((-n) as nat)
    } else {
        decimal(n as nat)
    }
}

/// The stroops after the point, seven digits wide, the sign counting
/// towards the width.
pub open spec fn stroop_digits(r: int) -> Seq<char> {
    if r < 0 {
        seq!['-'] + zero_padded((-r) as nat, 6)
    } else {
        zero_padded(r as nat, 7)
    }
}

/// An amount of stroops written as XLM to the stroop: `548.9478500 XLM`.
pub open spec fn xlm_text(stroops: i64) -> Seq<char> {
    let q = trunc_div(stroops as int, 10_000_000);
    let r = stroops - q * 10_000_000;
    signed_decimal(q) + seq!['.'] + stroop_digits(r) + seq![' ', 'X', 'L', 'M']
}

fn push_signed(out: &mut String, n: i64)
    requires
        n > i64::MIN,
    ensures
        final(out)@ == old(out)@ + signed_decimal(n as int),
{
    if n < 0 {
        proof {
            reveal_strlit("-");
        }
        out.append("-");
        push_decimal(out, (-n) as u64);
        assert(final(out)@ =~= old(out)@ + signed_decimal(n as int));
    } else {
        push_decimal(out, n as u64);
    }
}

pub fn xlm(stroops: i64) -> (r: String)
    ensures
        r@ == xlm_text(stroops),
{
    proof {
        lemma_trunc_div_bounds(stroops as int, 10_000_000);
    }
    let q = div_toward_zero(stroops as i128, 10_000_000) as i64;
    let rem = stroops - q * 10_000_000;
    proof {
        let qq = trunc_div(stroops as int, 10_000_000);
        assert(stroops - qq * 10_000_000 > -10_000_000 && stroops - qq * 10_000_000 < 10_000_000)
            by (nonlinear_arith)
            requires
                stroops >= 0 ==> qq == (stroops as int) / 10_000_000,
                stroops < 0 ==> qq == -((-(stroops as int)) / 10_000_000),
        ;
    }
    let mut out = String::new();
    push_signed(&mut out, q);
    proof {
        reveal_strlit(".");
        reveal_strlit("-");
        reveal_strlit(" XLM");
    }
    out.append(".");
    if rem < 0 {
        out.append("-");
        push_zero_padded(&mut out, (-rem) as u64, 6);
    } else {
        push_zero_padded(&mut out, rem as u64, 7);
    }
    out.append(" XLM");
    assert(out@ =~= xlm_text(stroops));
    out
}

/// Where `short` cuts a value: its first ten bytes, or all of it.
pub open spec fn short_cut(value: Seq<char>) -> int {
    let n = encode_utf8(value).len() as int;
    if n < 10 {
        n
    } else {
        10
    }
}

/// The first ten bytes of a value, for printing hashes and addresses.
pub open spec fn short_text(value: Seq<char>) -> Seq<char> {
    decode_utf8(encode_utf8(value).subrange(0, short_cut(value)))
}

/// The first ten bytes of a value. The cut must fall between characters, as
/// it does in any hash or address.
pub fn short(value: &str) -> (r: &str)
    requires
        is_char_boundary(encode_utf8(value@), short_cut(value@)),
    ensures
        r@ == short_text(value@),
{
    let n = value.as_bytes().len();
    let m: usize = if n < 10 {
        n
    } else {
        10
    };
    let (head, _tail) = value.split_at(m);
    proof {
        broadcast use vstd::utf8::group_utf8_lib;

        assert(head@ == decode_utf8(encode_utf8(head@)));
    }
    head
}

/// One line of the report.
#[derive(Clone, Debug, PartialEq, Eq)]
pub enum Check {
    Verified(String),
    Problem(String),
}

pub open spec fn check_view(c: Check) -> (bool, Seq<char>) {
    match c {
        Check::Verified(s) => (true, s@),
        Check::Problem(s) => (false, s@),
    }
}

/// How one verification is judged: an unreachable chain stops the whole
/// report, any other failure is a finding about this transaction.
pub open spec fn judged_view(result: Result<(bool, Seq<char>), Seq<char>>, what: Seq<char>, hash: Seq<char>) -> Result<
    (bool, Seq<char>),
    Seq<char>,
> {
    match result {
        Ok(c) => Ok(c),
        Err(why) => if why == UNREACHABLE@ {
            Err(why)
        } else {
            Ok((false, what + seq![' '] + short_text(hash) + seq![':', ' '] + why))
        },
    }
}

pub fn judged(result: Result<Check, &'static str>, what: &str, hash: &str) -> (r: Result<Check, String>)
    requires
        is_char_boundary(encode_utf8(hash@), short_cut(hash@)),
    ensures
        judged_view(
            match result {
                Ok(c) => Ok(check_view(c)),
                Err(w) => Err(w@),
            },
            what@,
            hash@,
        ) == match r {
            Ok(c) => Ok(check_view(c)),
            Err(s) => Err::<(bool, Seq<char>), Seq<char>>(s@),
        },
{
    match result {
        Ok(check) => Ok(check),
        Err(why) => {
            if str_eq(why, UNREACHABLE) {
                Err(String::from_str(UNREACHABLE))
            } else {
                let mut line = String::from_str(what);
                proof {
                    reveal_strlit(" ");
                    reveal_strlit(": ");
                }
                line.append(" ");
                line.append(short(hash));
                line.append(": ");
                line.append(why);
                let ghost expect = what@ + seq![' '] + short_text(hash@) + seq![':', ' '] + why@;
                assert(line@ =~= expect);
                Ok(Check::Problem(line))
            }
        },
    }
}

/// Whether a position's status agrees with the movements done against it:
/// locked means none out; released, one release; seized, one seizure; and a
/// pending or cancelled position has no lock and nothing done.
pub open spec fn consistent(status: Seq<char>, releases: int, seizures: int, lock_recorded: bool, done: int) -> bool {
    if status == "locked"@ {
        releases == 0 && seizures == 0
    } else if status == "released"@ {
        releases == 1 && seizures == 0
    } else if status == "seized"@ {
        seizures == 1 && releases == 0
    } else if status == "pending"@ || status == "cancelled"@ {
        !lock_recorded && done == 0
    } else {
        false
    }
}

pub fn position_consistent(status: &str, releases: u64, seizures: u64, lock_recorded: bool, done: u64) -> (r: bool)
    ensures
        r == consistent(status@, releases as int, seizures as int, lock_recorded, done as int),
{
    if str_eq(status, "locked") {
        releases == 0 && seizures == 0
    } else if str_eq(status, "released") {
        releases == 1 && seizures == 0
    } else if str_eq(status, "seized") {
        seizures == 1 && releases == 0
    } else if str_eq(status, "pending") || str_eq(status, "cancelled") {
        !lock_recorded && done == 0
    } else {
        false
    }
}

/// How a verified lock reads: the stroops the chain moved against those the
/// database recorded.
pub open spec fn lock_line(hash: Seq<char>, moved: i64, locked: i64) -> (bool, Seq<char>) {
    if moved == locked {
        (
            true,
            "lock        "@ + short_text(hash) + "  "@ + xlm_text(moved) + " into the vault"@,
        )
    } else {
        (
            false,
            "lock "@ + short_text(hash) + " moved "@ + xlm_text(moved) + ", the database says "@
                + xlm_text(locked),
        )
    }
}

pub fn lock_check(hash: &str, moved: i64, locked: i64) -> (r: Check)
    requires
        is_char_boundary(encode_utf8(hash@), short_cut(hash@)),
    ensures
        check_view(r) == lock_line(hash@, moved, locked),
{
    if moved == locked {
        let mut line = String::from_str("lock        ");
        line.append(short(hash));
        line.append("  ");
        let amount = xlm(moved);
        line.append(amount.as_str());
        line.append(" into the vault");
        Check::Verified(line)
    } else {
        let mut line = String::from_str("lock ");
        line.append(short(hash));
        line.append(" moved ");
        let a = xlm(moved);
        line.append(a.as_str());
        line.append(", the database says ");
        let b = xlm(locked);
        line.append(b.as_str());
        Check::Problem(line)
    }
}

/// A vault movement recorded against a position, as the reconciliation reads it.
#[derive(Clone, Debug)]
pub struct DriftAction {
    pub collateral_id: u128,
    pub action: String,
    pub status: String,
    pub tx_hash: Option<String>,
    pub moved_stroops: Option<i64>,
}

/// The done releases, done seizures and all done movements recorded
/// against a position.
pub open spec fn tally_of(actions: Seq<DriftAction>, position: u128) -> (nat, nat, nat)
    decreases actions.len(),
{
    if actions.len() == 0 {
        (0, 0, 0)
    } else {
        let before = tally_of(actions.drop_last(), position);
        let a = actions.last();
        if a.collateral_id == position && a.status@ == "done"@ {
            (
                if a.action@ == "release"@ { before.0 + 1 } else { before.0 },
                if a.action@ == "seize"@ { before.1 + 1 } else { before.1 },
                before.2 + 1,
            )
        } else {
            before
        }
    }
}

/// Counts what is done against a position, for the consistency check.
pub fn tally_actions(actions: &Vec<DriftAction>, position: u128) -> (r: (u64, u64, u64))
    requires
        actions@.len() <= u64::MAX,
    ensures
        r.0 == tally_of(actions@, position).0,
        r.1 == tally_of(actions@, position).1,
        r.2 == tally_of(actions@, position).2,
{
    let mut releases: u64 = 0;
    let mut seizures: u64 = 0;
    let mut done: u64 = 0;
    let mut i: usize = 0;
    while i < actions.len()
        invariant
            i <= actions@.len() <= u64::MAX,
            releases == tally_of(actions@.subrange(0, i as int), position).0,
            seizures == tally_of(actions@.subrange(0, i as int), position).1,
            done == tally_of(actions@.subrange(0, i as int), position).2,
            releases <= i && seizures <= i && done <= i,
        decreases actions@.len() - i,
    {
        assert(actions@.subrange(0, i as int + 1).drop_last() =~= actions@.subrange(0, i as int));
        assert(actions@.subrange(0, i as int + 1).last() == actions@[i as int]);
        let a = &actions[i];
        if a.collateral_id == position && str_eq(a.status.as_str(), "done") {
            done = done + 1;
            if str_eq(a.action.as_str(), "release") {
                releases = releases + 1;
            }
            if str_eq(a.action.as_str(), "seize") {
                seizures = seizures + 1;
            }
        }
        i = i + 1;
    }
    assert(actions@.subrange(0, actions@.len() as int) =~= actions@);
    (releases, seizures, done)
}

/// What `chrono` prints for a moment given in Unix seconds, to the minute,
/// in UTC; none for a moment outside the range it represents.
pub uninterp spec fn utc_minute(epoch: i64) -> Option<Seq<char>>;

/// Prints a moment with `chrono::DateTime::<Utc>::from_timestamp` and the
/// format `%Y-%m-%d %H:%M UTC`. Claimed: the text, or its absence, is
/// whatever the crate gives for these seconds and nothing else; what the
/// text looks like is left to the crate.
#[verifier::external_body]
fn utc_minute_text(epoch: i64) -> (r: Option<String>)
    ensures
        match (r, utc_minute(epoch)) {
            (Some(t), Some(u)) => t@ == u,
            (None, None) => true,
            _ => false,
        },
{
    match chrono::DateTime::<chrono::Utc>::from_timestamp(epoch, 0) {
        Some(t) => Some(t.format("%Y-%m-%d %H:%M UTC").to_string()),
        None => None,
    }
}

/// When something happened, as the report prints it; `?` for a moment the
/// calendar cannot hold.
pub fn when(epoch: i64) -> (r: String)
    ensures
        r@ == (match utc_minute(epoch) {
            Some(t) => t,
            None => "?"@,
        }),
{
    match utc_minute_text(epoch) {
        Some(t) => t,
        None => "?".to_string(),
    }
}

/// A name padded with spaces to eleven characters, as the report aligns its
/// verified lines.
pub open spec fn padded(name: Seq<char>) -> Seq<char> {
    if name.len() < 11 {
        name + Seq::new((11 - name.len()) as nat, |i: int| ' ')
    } else {
        name
    }
}

fn push_padded(out: &mut String, name: &str)
    ensures
        final(out)@ == old(out)@ + padded(name@),
{
    let ghost start = out@;
    out.append(name);
    let n = name.unicode_len();
    if n < 11 {
        let mut k: usize = n;
        while k < 11
            invariant
                n <= k <= 11,
                n == name@.len(),
                out@ == start + name@ + Seq::new((k - n) as nat, |i: int| ' '),
            decreases 11 - k,
        {
            proof {
                reveal_strlit(" ");
            }
            out.append(" ");
            proof {
                assert(Seq::new((k + 1 - n) as nat, |i: int| ' ') =~= Seq::new((k - n) as nat, |i: int| ' ')
                    + seq![' ']);
                assert(start + name@ + Seq::new((k + 1 - n) as nat, |i: int| ' ') =~= start + name@
                    + Seq::new((k - n) as nat, |i: int| ' ') + seq![' ']);
            }
            k = k + 1;
        }
        assert(out@ =~= start + padded(name@));
    } else {
        assert(out@ =~= start + padded(name@));
    }
}

/// How a verified release or seizure reads: a recorded amount the chain
/// contradicts is a finding; so are coins that went anywhere but the
/// depositor, for a release, or the treasury, for a seizure, when that
/// address is known; otherwise the movement is verified.
pub open spec fn movement_line(
    action: Seq<char>,
    hash: Seq<char>,
    moved: Option<i64>,
    depositor: Option<Seq<char>>,
    treasury: Option<Seq<char>>,
    chain_stroops: i64,
    chain_to: Seq<char>,
) -> (bool, Seq<char>) {
    let expected = if action == "release"@ { depositor } else { treasury };
    let whose = if action == "release"@ { "depositor"@ } else { "treasury"@ };
    if moved is Some && moved->0 != chain_stroops {
        (
            false,
            action + " "@ + short_text(hash) + " moved "@ + xlm_text(chain_stroops) + ", the database says "@
                + xlm_text(moved->0),
        )
    } else if expected is Some && expected->0 != chain_to {
        (false, action + " "@ + short_text(hash) + " went to "@ + short_text(chain_to) + "…, not the "@ + whose)
    } else {
        (true, padded(action) + " "@ + short_text(hash) + "  "@ + xlm_text(chain_stroops) + " out of the vault"@)
    }
}

pub open spec fn text_of(o: Option<&str>) -> Option<Seq<char>> {
    match o {
        Some(s) => Some(s@),
        None => None,
    }
}

/// Judges a release or seizure against what the chain shows it moved.
pub fn movement_check(
    action: &str,
    hash: &str,
    moved: Option<i64>,
    depositor: Option<&str>,
    treasury: Option<&str>,
    chain_stroops: i64,
    chain_to: &str,
) -> (r: Check)
    requires
        is_char_boundary(encode_utf8(hash@), short_cut(hash@)),
        is_char_boundary(encode_utf8(chain_to@), short_cut(chain_to@)),
    ensures
        check_view(r) == movement_line(action@, hash@, moved, text_of(depositor), text_of(treasury), chain_stroops, chain_to@),
{
    let release = str_eq(action, "release");
    let expected = if release { depositor } else { treasury };
    let whose = if release { "depositor" } else { "treasury" };
    let contradicted = match moved {
        Some(recorded) => recorded != chain_stroops,
        None => false,
    };
    if contradicted {
        let mut line = String::from_str(action);
        line.append(" ");
        line.append(short(hash));
        line.append(" moved ");
        let a = xlm(chain_stroops);
        line.append(a.as_str());
        line.append(", the database says ");
        let b = xlm(moved.unwrap());
        line.append(b.as_str());
        return Check::Problem(line);
    }
    let elsewhere = match expected {
        Some(to) => !str_eq(to, chain_to),
        None => false,
    };
    if elsewhere {
        let mut line = String::from_str(action);
        line.append(" ");
        line.append(short(hash));
        line.append(" went to ");
        line.append(short(chain_to));
        line.append("…, not the ");
        line.append(whose);
        return Check::Problem(line);
    }
    let mut line = String::new();
    push_padded(&mut line, action);
    line.append(" ");
    line.append(short(hash));
    line.append("  ");
    let a = xlm(chain_stroops);
    line.append(a.as_str());
    line.append(" out of the vault");
    Check::Verified(line)
}

/// How a verified call that moves no coins reads.
pub fn call_check(action: &str, hash: &str) -> (r: Check)
    requires
        is_char_boundary(encode_utf8(hash@), short_cut(hash@)),
    ensures
        check_view(r) == (true, padded(action@) + " "@ + short_text(hash@) + "  recorded on chain"@),
{
    let mut line = String::new();
    push_padded(&mut line, action);
    line.append(" ");
    line.append(short(hash));
    line.append("  recorded on chain");
    Check::Verified(line)
}

/// Sixteen to the power `k`.
pub open spec fn pow16(k: nat) -> int
    decreases k,
{
    if k == 0 {
        1
    } else {
        16 * pow16((k - 1) as nat)
    }
}

/// Hex digit `k` of an id, counting from the most significant.
pub open spec fn id_nibble(id: u128, k: int) -> int {
    (id as int / pow16((31 - k) as nat)) % 16
}

/// Which hex digit of the id stands at position `j` of its hyphenated text.
pub open spec fn digit_at(j: int) -> int {
    if j < 8 {
        j
    } else if j < 13 {
        j - 1
    } else if j < 18 {
        j - 2
    } else if j < 23 {
        j - 3
    } else {
        j - 4
    }
}

/// The hyphenated text of an id: its thirty-two lowercase hex digits, most
/// significant first (its sixteen bytes big-endian, high nibble first), with
/// a hyphen after the 8th, 12th, 16th and 20th.
pub open spec fn uuid_hyphenated(id: u128) -> Seq<char> {
    Seq::new(
        36,
        |j: int|
            if j == 8 || j == 13 || j == 18 || j == 23 {
                '-'
            } else {
                hex_digit(id_nibble(id, digit_at(j)))
            },
    )
}

/// Prints an id with `uuid::Uuid::from_u128` and its `Display`, which the
/// crate's source writes as the hyphenated lowercase form: the sixteen bytes
/// big-endian, each as two hex digits from `0123456789abcdef`, hyphens after
/// the 8th, 12th, 16th and 20th digit.
#[verifier::external_body]
pub(crate) fn uuid_string(id: u128) -> (r: String)
    ensures
        r@ == uuid_hyphenated(id),
{
    uuid::Uuid::from_u128(id).to_string()
}

/// Appends one character with `String::push`.
#[verifier::external_body]
fn push_char(s: &mut String, c: char)
    ensures
        final(s)@ == old(s)@.push(c),
{
    s.push(c);
}

/// A lowercase hex letter in capitals; every other character as it is.
pub open spec fn hex_upper(c: char) -> char {
    if c == 'a' {
        'A'
    } else if c == 'b' {
        'B'
    } else if c == 'c' {
        'C'
    } else if c == 'd' {
        'D'
    } else if c == 'e' {
        'E'
    } else if c == 'f' {
        'F'
    } else {
        c
    }
}

fn hex_upper_char(c: char) -> (r: char)
    ensures
        r == hex_upper(c),
{
    if c == 'a' {
        'A'
    } else if c == 'b' {
        'B'
    } else if c == 'c' {
        'C'
    } else if c == 'd' {
        'D'
    } else if c == 'e' {
        'E'
    } else if c == 'f' {
        'F'
    } else {
        c
    }
}

/// How the public records name a loan: the first eight characters of its
/// id, in capitals.
pub open spec fn loan_ref_text(id: u128) -> Seq<char> {
    Seq::new(8, |i: int| hex_upper(uuid_hyphenated(id)[i]))
}

/// Names a loan the way the public records name it.
pub fn loan_ref(id: u128) -> (r: String)
    ensures
        r@ == loan_ref_text(id),
{
    let text = uuid_string(id);
    let cs = chars_of(text.as_str());
    let mut out = String::new();
    let mut i: usize = 0;
    while i < 8
        invariant
            i <= 8,
            cs@ == uuid_hyphenated(id),
            cs@.len() == 36,
            out@ == Seq::new(i as nat, |k: int| hex_upper(uuid_hyphenated(id)[k])),
        decreases 8 - i,
    {
        push_char(&mut out, hex_upper_char(cs[i]));
        assert(out@ =~= Seq::new((i + 1) as nat, |k: int| hex_upper(uuid_hyphenated(id)[k])));
        i = i + 1;
    }
    out
}

/// The report's exit code: none found, some found, or the report could not
/// be completed.
pub fn report_code(findings: Result<usize, ()>) -> (r: i32)
    ensures
        r == (match findings {
            Ok(0) => 0i32,
            Ok(_) => 1i32,
            Err(_) => 2i32,
        }),
{
    match findings {
        Ok(0) => 0,
        Ok(_) => 1,
        Err(_) => 2,
    }
}

/// What the report does about a position's own lock: verify it against the
/// chain, record a finding, or note that nothing was ever recorded.
#[derive(Clone, Debug, PartialEq, Eq)]
pub enum LockStep {
    Verify,
    Finding(String),
    Nothing,
}

/// A lock recorded with no wallet cannot be checked; a position that says
/// it was locked, released or seized with no lock recorded is a finding; a
/// position with neither has nothing on chain.
pub open spec fn lock_step_of(lock_hash: Option<Seq<char>>, has_wallet: bool, status: Seq<char>) -> (int, Seq<char>) {
    match lock_hash {
        Some(h) => if has_wallet {
            (0, Seq::empty())
        } else {
            (1, "lock "@ + short_text(h) + " is recorded with no wallet to check it against"@)
        },
        None => if status == "locked"@ || status == "released"@ || status == "seized"@ {
            (1, status + ", but no lock was ever recorded"@)
        } else {
            (2, Seq::empty())
        },
    }
}

pub open spec fn lock_step_view(s: LockStep) -> (int, Seq<char>) {
    match s {
        LockStep::Verify => (0, Seq::empty()),
        LockStep::Finding(t) => (1, t@),
        LockStep::Nothing => (2, Seq::empty()),
    }
}

/// Decides what the report does about a position's lock.
pub fn lock_step(lock_hash: Option<&str>, has_wallet: bool, status: &str) -> (r: LockStep)
    requires
        lock_hash matches Some(h) ==> is_char_boundary(encode_utf8(h@), short_cut(h@)),
    ensures
        lock_step_view(r) == lock_step_of(text_of(lock_hash), has_wallet, status@),
{
    match lock_hash {
        Some(h) => {
            if has_wallet {
                LockStep::Verify
            } else {
                let mut line = String::from_str("lock ");
                line.append(short(h));
                line.append(" is recorded with no wallet to check it against");
                LockStep::Finding(line)
            }
        },
        None => {
            if str_eq(status, "locked") || str_eq(status, "released") || str_eq(status, "seized") {
                LockStep::Finding(String::from_str(status).concat(", but no lock was ever recorded"))
            } else {
                LockStep::Nothing
            }
        },
    }
}

/// A movement marked done with no transaction to check it against.
pub fn undone_finding(action: &str) -> (r: String)
    ensures
        r@ == action@ + " is marked done with no transaction recorded"@,
{
    String::from_str(action).concat(" is marked done with no transaction recorded")
}

/// A position whose status disagrees with the movements done against it.
pub fn inconsistency_finding(status: &str, releases: u64, seizures: u64) -> (r: String)
    ensures
        r@ == "the position says "@ + status@ + ", but "@ + decimal(releases as nat) + " release(s) and "@
            + decimal(seizures as nat) + " seizure(s) are recorded against it"@,
{
    let mut line = String::from_str("the position says ");
    line.append(status);
    line.append(", but ");
    push_decimal(&mut line, releases);
    line.append(" release(s) and ");
    push_decimal(&mut line, seizures);
    line.append(" seizure(s) are recorded against it");
    line
}

/// A finding as the report lists it, under its loan.
pub fn loan_finding(reference: &str, problem: &str) -> (r: String)
    ensures
        r@ == "Loan "@ + reference@ + ": "@ + problem@,
{
    String::from_str("Loan ").concat(reference).concat(": ").concat(problem)
}

/// The vault events that record a movement; the vault's own setup accounts
/// for no position.
pub open spec fn movement_name(name: Seq<char>) -> bool {
    name == "locked"@ || name == "recorded"@ || name == "released"@ || name == "seized"@
}

/// One event the vault published, as the chain scan reads it.
#[derive(Clone, Debug)]
pub struct VaultEvent {
    pub name: String,
    pub tx_hash: String,
    /// The loan the event names, as hex.
    pub loan_hex: String,
    pub closed_at: String,
    pub amount: Option<i64>,
}

/// Whether a transaction is among those the database recorded.
pub open spec fn recorded_in(recorded: Seq<String>, tx: Seq<char>) -> bool {
    exists|k: int| 0 <= k < recorded.len() && (#[trigger] recorded[k])@ == tx
}

/// The movement events with no recorded transaction, by position in the scan.
pub open spec fn unmatched_of(events: Seq<VaultEvent>, recorded: Seq<String>) -> Seq<usize>
    decreases events.len(),
{
    if events.len() == 0 {
        Seq::empty()
    } else {
        let rest = unmatched_of(events.drop_last(), recorded);
        let e = events.last();
        if movement_name(e.name@) && !recorded_in(recorded, e.tx_hash@) {
            rest.push((events.len() - 1) as usize)
        } else {
            rest
        }
    }
}

fn is_recorded(recorded: &Vec<String>, tx: &str) -> (r: bool)
    ensures
        r == recorded_in(recorded@, tx@),
{
    let mut k: usize = 0;
    while k < recorded.len()
        invariant
            k <= recorded@.len(),
            forall|j: int| 0 <= j < k ==> (#[trigger] recorded@[j])@ != tx@,
        decreases recorded@.len() - k,
    {
        if str_eq(recorded[k].as_str(), tx) {
            return true;
        }
        k = k + 1;
    }
    false
}

/// Matches the chain's movements against the database: how many were
/// recorded, and the positions of those that were not.
pub fn unmatched_events(events: &Vec<VaultEvent>, recorded: &Vec<String>) -> (r: Vec<usize>)
    ensures
        r@ == unmatched_of(events@, recorded@),
{
    let mut out: Vec<usize> = Vec::new();
    let mut i: usize = 0;
    while i < events.len()
        invariant
            i <= events@.len(),
            out@ == unmatched_of(events@.subrange(0, i as int), recorded@),
        decreases events@.len() - i,
    {
        assert(events@.subrange(0, i as int + 1).drop_last() =~= events@.subrange(0, i as int));
        assert(events@.subrange(0, i as int + 1).last() == events@[i as int]);
        let e = &events[i];
        let n = e.name.as_str();
        let movement = str_eq(n, "locked") || str_eq(n, "recorded") || str_eq(n, "released") || str_eq(
            n,
            "seized",
        );
        if movement && !is_recorded(recorded, e.tx_hash.as_str()) {
            out.push(i);
        }
        i = i + 1;
    }
    assert(events@.subrange(0, events@.len() as int) =~= events@);
    out
}

/// How an unrecorded chain movement reads as a finding: the loan it names,
/// what happened and when, its transaction, and the amount when it had one.
pub fn chain_finding(loan: &str, e: &VaultEvent) -> (r: String)
    requires
        is_char_boundary(encode_utf8(e.tx_hash@), short_cut(e.tx_hash@)),
    ensures
        r@ == "Loan "@ + loan@ + ": "@ + e.name@ + " on chain at "@ + e.closed_at@ + " (tx "@ + short_text(
            e.tx_hash@,
        ) + (match e.amount {
            Some(a) => ", "@ + xlm_text(a),
            None => Seq::empty(),
        }) + ") is not in the database"@,
{
    let mut line = String::from_str("Loan ");
    line.append(loan);
    line.append(": ");
    line.append(e.name.as_str());
    line.append(" on chain at ");
    line.append(e.closed_at.as_str());
    line.append(" (tx ");
    line.append(short(e.tx_hash.as_str()));
    match e.amount {
        Some(a) => {
            line.append(", ");
            let t = xlm(a);
            line.append(t.as_str());
        },
        None => {},
    }
    line.append(") is not in the database");
    line
}

/// The loan a vault event names, as the report prints it: the public
/// reference when the hex reads as an id, else the hex as it came.
pub fn event_loan(loan_hex: &str) -> (r: String)
    ensures
        r@ == (match uuid_text(loan_hex@) {
            Some(id) => loan_ref_text(id),
            None => loan_hex@,
        }),
{
    match parse_member_id(loan_hex) {
        Some(id) => loan_ref(id),
        None => String::from_str(loan_hex),
    }
}

} // verus!
