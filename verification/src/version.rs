//! Startup version policy: comparing the running release against the
//! latest published one and deciding whether login may proceed.
//!
//! Versions are dotted triples of decimal numbers. A newer major or minor
//! release blocks the application until it is updated; a newer patch
//! release only disables automatic login; an up-to-date application logs
//! in automatically.

use vstd::prelude::*;
use vstd::string::StrSliceExecFns;
use vstd::string::StringExecFns;
use crate::file_utils::{first_index_of, lemma_first_index_of_props, find_first_char};

verus! {

/// A decimal digit.
pub open spec fn spec_is_digit(c: char) -> bool {
    '0' <= c <= '9'
}

/// The numeric value of a digit sequence, most significant first.
pub open spec fn spec_digits_val(s: Seq<char>) -> int
    decreases s.len(),
{
    if s.len() == 0 {
        0
    } else {
        spec_digits_val(s.drop_last()) * 10 + (s.last() as int - '0' as int)
    }
}

/// A non-empty, all-digit sequence.
pub open spec fn spec_all_digits(s: Seq<char>) -> bool {
    s.len() > 0 && forall|i: int| 0 <= i < s.len() ==> spec_is_digit(#[trigger] s[i])
}

/// The value of an all-digit sequence is never negative.
pub proof fn lemma_digits_val_nonneg(s: Seq<char>)
    requires
        forall|i: int| 0 <= i < s.len() ==> spec_is_digit(#[trigger] s[i]),
    ensures
        spec_digits_val(s) >= 0,
    decreases s.len(),
{
    if s.len() > 0 {
        lemma_digits_val_nonneg(s.drop_last());
    }
}

/// Appending digits never shrinks the value.
pub proof fn lemma_digits_val_prefix(s: Seq<char>, i: int)
    requires
        forall|j: int| 0 <= j < s.len() ==> spec_is_digit(#[trigger] s[j]),
        0 <= i <= s.len(),
    ensures
        spec_digits_val(s) >= spec_digits_val(s.take(i)),
    decreases s.len() - i,
{
    if i < s.len() {
        lemma_digits_val_prefix(s, i + 1);
        assert(s.take(i + 1).drop_last() =~= s.take(i));
        lemma_digits_val_nonneg(s.take(i));
    } else {
        assert(s.take(i) =~= s);
    }
}

/// Parses a non-empty decimal number that fits in 32 bits.
pub fn parse_decimal(s: &str) -> (r: Option<u32>)
    ensures
        match r {
            Some(v) => spec_all_digits(s@) && spec_digits_val(s@) == v,
            None => !spec_all_digits(s@) || spec_digits_val(s@) > u32::MAX,
        },
{
    let n = s.unicode_len();
    if n == 0 {
        return None;
    }
    let mut acc: u64 = 0;
    let mut i: usize = 0;
    while i < n
        invariant
            n == s@.len(),
            i <= n,
            forall|j: int| 0 <= j < i ==> spec_is_digit(#[trigger] s@[j]),
            acc == spec_digits_val(s@.take(i as int)),
            acc <= u32::MAX,
        decreases n - i,
    {
        let c = s.get_char(i);
        if !('0' <= c && c <= '9') {
            return None;
        }
        let d = (c as u32) - ('0' as u32);
        proof {
            assert(s@.take(i as int + 1).drop_last() =~= s@.take(i as int));
        }
        acc = acc * 10 + (d as u64);
        i = i + 1;
        if acc > 0xFFFF_FFFF {
            proof {
                if spec_all_digits(s@) {
                    lemma_digits_val_prefix(s@, i as int);
                }
            }
            return None;
        }
    }
    proof {
        assert(s@.take(n as int) =~= s@);
    }
    Some(acc as u32)
}

/// The three numbers of a dotted version string, when it is one.
pub open spec fn spec_parse_version(s: Seq<char>) -> Option<(int, int, int)> {
    let i = first_index_of(s, '.');
    if i < 0 {
        None
    } else {
        let rest = s.skip(i + 1);
        let j = first_index_of(rest, '.');
        if j < 0 {
            None
        } else {
            let major = s.take(i);
            let minor = rest.take(j);
            let patch = rest.skip(j + 1);
            if spec_all_digits(major) && spec_all_digits(minor) && spec_all_digits(patch)
                && spec_digits_val(major) <= u32::MAX && spec_digits_val(minor) <= u32::MAX
                && spec_digits_val(patch) <= u32::MAX {
                Some((spec_digits_val(major), spec_digits_val(minor), spec_digits_val(patch)))
            } else {
                None
            }
        }
    }
}

/// Parses a `major.minor.patch` version string.
pub fn parse_version(s: &str) -> (r: Option<(u32, u32, u32)>)
    ensures
        match r {
            Some((a, b, c)) => spec_parse_version(s@) == Some((a as int, b as int, c as int)),
            None => spec_parse_version(s@) is None,
        },
{
    let n = s.unicode_len();
    proof {
        lemma_first_index_of_props(s@, '.');
    }
    let i = match find_first_char(s, '.') {
        Some(i) => i,
        None => return None,
    };
    let rest = s.substring_char(i + 1, n);
    proof {
        lemma_first_index_of_props(rest@, '.');
    }
    let m = rest.unicode_len();
    let j = match find_first_char(rest, '.') {
        Some(j) => j,
        None => return None,
    };
    let major = s.substring_char(0, i);
    let minor = rest.substring_char(0, j);
    let patch = rest.substring_char(j + 1, m);
    proof {
        assert(rest@.take(j as int) =~= minor@);
        assert(rest@.skip(j as int + 1) =~= patch@);
        assert(s@.take(i as int) =~= major@);
        assert(s@.skip(i as int + 1) =~= rest@);
    }
    let a = match parse_decimal(major) {
        Some(v) => v,
        None => return None,
    };
    let b = match parse_decimal(minor) {
        Some(v) => v,
        None => return None,
    };
    let c = match parse_decimal(patch) {
        Some(v) => v,
        None => return None,
    };
    Some((a, b, c))
}

/// How the latest published release relates to the running one.
#[derive(Debug, Clone, Copy, PartialEq, Eq, Structural)]
pub enum StartupVersionStatus {
    UpToDate,
    PatchAvailable,
    MinorBlocking,
    MajorBlocking,
}

/// The status of `latest` against `current`, compared position by
/// position: a higher major or minor number blocks, a higher patch number
/// is only announced, anything else counts as up to date.
pub open spec fn spec_version_status(cur: (int, int, int), latest: (int, int, int)) -> (
    StartupVersionStatus
) {
    if latest.0 > cur.0 {
        StartupVersionStatus::MajorBlocking
    } else if latest.0 == cur.0 && latest.1 > cur.1 {
        StartupVersionStatus::MinorBlocking
    } else if latest.0 == cur.0 && latest.1 == cur.1 && latest.2 > cur.2 {
        StartupVersionStatus::PatchAvailable
    } else {
        StartupVersionStatus::UpToDate
    }
}

/// The message shown for a status.
pub open spec fn spec_version_message(status: StartupVersionStatus) -> Option<Seq<char>> {
    match status {
        StartupVersionStatus::MajorBlocking => Some(
            "Ny hovedversjon er tilgjengelig. Oppdater programmet for å fortsette."@,
        ),
        StartupVersionStatus::MinorBlocking => Some(
            "Ny delversjon er tilgjengelig. Oppdater programmet for å fortsette."@,
        ),
        StartupVersionStatus::PatchAvailable => Some(
            "Ny patch-versjon er tilgjengelig. Du må logge inn manuelt."@,
        ),
        StartupVersionStatus::UpToDate => None,
    }
}

/// The message shown for a status.
fn version_message(status: StartupVersionStatus) -> (r: Option<String>)
    ensures
        match r {
            Some(m) => spec_version_message(status) == Some(m@),
            None => spec_version_message(status) is None,
        },
{
    match status {
        StartupVersionStatus::MajorBlocking => Some(
            String::from_str("Ny hovedversjon er tilgjengelig. Oppdater programmet for å fortsette."),
        ),
        StartupVersionStatus::MinorBlocking => Some(
            String::from_str("Ny delversjon er tilgjengelig. Oppdater programmet for å fortsette."),
        ),
        StartupVersionStatus::PatchAvailable => Some(
            String::from_str("Ny patch-versjon er tilgjengelig. Du må logge inn manuelt."),
        ),
        StartupVersionStatus::UpToDate => None,
    }
}

/// What the application does at startup about its own version.
#[derive(Debug, Clone)]
pub struct StartupVersionPolicy {
    pub status: StartupVersionStatus,
    pub auto_login_allowed: bool,
    pub startup_version_message: Option<String>,
}

/// Decides the startup policy from the running and the latest version.
/// Automatic login is allowed only when the application is up to date.
pub fn evaluate_startup_version_policy(current: &str, latest: &str) -> (r: Result<
    StartupVersionPolicy,
    String,
>)
    ensures
        match r {
            Ok(p) => {
                &&& spec_parse_version(current@) is Some
                &&& spec_parse_version(latest@) is Some
                &&& p.status == spec_version_status(
                    spec_parse_version(current@)->Some_0,
                    spec_parse_version(latest@)->Some_0,
                )
                &&& p.auto_login_allowed == (p.status is UpToDate)
                &&& match p.startup_version_message {
                    Some(m) => spec_version_message(p.status) == Some(m@),
                    None => spec_version_message(p.status) is None,
                }
            },
            Err(m) => (spec_parse_version(current@) is None || spec_parse_version(latest@) is None)
                && m@ == "Ugyldig versjonsnummer"@,
        },
{
    let cur = match parse_version(current) {
        Some(v) => v,
        None => return Err(String::from_str("Ugyldig versjonsnummer")),
    };
    let lat = match parse_version(latest) {
        Some(v) => v,
        None => return Err(String::from_str("Ugyldig versjonsnummer")),
    };
    let status = if lat.0 > cur.0 {
        StartupVersionStatus::MajorBlocking
    } else if lat.0 == cur.0 && lat.1 > cur.1 {
        StartupVersionStatus::MinorBlocking
    } else if lat.0 == cur.0 && lat.1 == cur.1 && lat.2 > cur.2 {
        StartupVersionStatus::PatchAvailable
    } else {
        StartupVersionStatus::UpToDate
    };
    let auto_login_allowed = matches!(status, StartupVersionStatus::UpToDate);
    let startup_version_message = version_message(status);
    Ok(StartupVersionPolicy { status, auto_login_allowed, startup_version_message })
}

/// What the desktop shell does about an available update.
#[derive(Debug, Clone)]
pub struct DesktopVersionGate {
    pub status: StartupVersionStatus,
    pub is_blocking: bool,
    pub is_patch: bool,
    pub message: Option<String>,
}

/// Decides the desktop update gate from the running and the latest
/// version: major and minor updates block, a patch update is only
/// announced.
pub fn evaluate_desktop_version_gate(current: &str, latest: &str) -> (r: Result<
    DesktopVersionGate,
    String,
>)
    ensures
        match r {
            Ok(g) => {
                &&& spec_parse_version(current@) is Some
                &&& spec_parse_version(latest@) is Some
                &&& g.status == spec_version_status(
                    spec_parse_version(current@)->Some_0,
                    spec_parse_version(latest@)->Some_0,
                )
                &&& g.is_blocking == (g.status is MajorBlocking || g.status is MinorBlocking)
                &&& g.is_patch == (g.status is PatchAvailable)
                &&& match g.message {
                    Some(m) => spec_version_message(g.status) == Some(m@),
                    None => spec_version_message(g.status) is None,
                }
            },
            Err(m) => (spec_parse_version(current@) is None || spec_parse_version(latest@) is None)
                && m@ == "Ugyldig versjonsnummer"@,
        },
{
    let policy = evaluate_startup_version_policy(current, latest)?;
    let is_blocking = matches!(policy.status, StartupVersionStatus::MajorBlocking) || matches!(
        policy.status,
        StartupVersionStatus::MinorBlocking,
    );
    let is_patch = matches!(policy.status, StartupVersionStatus::PatchAvailable);
    Ok(
        DesktopVersionGate {
            status: policy.status,
            is_blocking,
            is_patch,
            message: policy.startup_version_message,
        },
    )
}

} // verus!
