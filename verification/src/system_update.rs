//! Reading the package manager's output during a system update: which line asks for
//! a human, which stage the update has reached, and whether a restart is needed.
use vstd::prelude::*;

use crate::launcher::strip_repeated_at;
use crate::launcher::strip_repeated;
use crate::launcher::strings_view;
use crate::roms::concat;
use crate::system_info::{decimal_of, decimal_text};
use crate::system_update_state::{SystemUpdateProgress, UpdateStatus};
use crate::text::{
    chars_eq, chars_of, contains_chars, contains_seq, ends_with, find_seq, first_occurrence, has_prefix,
    has_suffix, lower_chars, parse_usize, parsed_usize, slice_chars, split_words, starts_with,
    string_of, strip_suffix_repeated, strip_suffix_repeated_chars, trim, trim_chars, unicode_lower,
    vecs_view, words,
};

verus! {

// ---------------------------------------------------------------------------
// Prompts
// ---------------------------------------------------------------------------

/// A line on which the package manager waits for an answer.
pub open spec fn interactive_prompt(text: Seq<char>) -> bool {
    let t = trim(text);
    if t.len() == 0 {
        false
    } else if starts_with(t, "::"@) {
        ends_with(t, "[Y/n]"@) || ends_with(t, "[y/N]"@)
    } else if starts_with(t, "Enter a selection"@) || starts_with(t, "Enter a number"@) {
        ends_with(t, ":"@) || ends_with(t, "):"@)
    } else {
        false
    }
}

fn prompt_chars(t: &[char]) -> (r: bool)
    ensures
        r == interactive_prompt(t@),
{
    let t = trim_chars(t);
    if t.len() == 0 {
        return false;
    }
    if has_prefix(t.as_slice(), chars_of("::").as_slice()) {
        return has_suffix(t.as_slice(), chars_of("[Y/n]").as_slice()) || has_suffix(
            t.as_slice(),
            chars_of("[y/N]").as_slice(),
        );
    }
    if has_prefix(t.as_slice(), chars_of("Enter a selection").as_slice()) || has_prefix(
        t.as_slice(),
        chars_of("Enter a number").as_slice(),
    ) {
        return has_suffix(t.as_slice(), chars_of(":").as_slice()) || has_suffix(
            t.as_slice(),
            chars_of("):").as_slice(),
        );
    }
    false
}

/// Does `text` ask a question (`:: ... [Y/n]`, `Enter a number ...:`) that an
/// unattended update cannot answer?
pub fn is_interactive_prompt_line(text: &str) -> (r: bool)
    ensures
        r == interactive_prompt(text@),
{
    let t = chars_of(text);
    prompt_chars(t.as_slice())
}

// ---------------------------------------------------------------------------
// Progress lines
// ---------------------------------------------------------------------------

/// `(current/total) verb package...`: the two counters and the package, with its
/// trailing dots removed.
pub open spec fn install_progress(line: Seq<char>) -> Option<(usize, usize, Seq<char>)> {
    let l = trim(line);
    if !(l.len() > 0 && l[0] == '(') {
        None
    } else {
        match (first_occurrence(l, seq![')']), first_occurrence(l, seq!['/'])) {
            (Some(e), Some(sl)) => if sl > e {
                None
            } else {
                match (
                    parsed_usize(trim(l.subrange(1, sl))),
                    parsed_usize(trim(l.subrange(sl + 1, e))),
                ) {
                    (Some(current), Some(total)) => {
                        let parts = words(trim(l.skip(e + 1)));
                        if parts.len() < 2 {
                            None
                        } else {
                            Some((current, total, strip_suffix_repeated(parts[1], "..."@)))
                        }
                    },
                    _ => None,
                }
            },
            _ => None,
        }
    }
}

fn install_progress_chars(line: &[char]) -> (r: Option<(usize, usize, Vec<char>)>)
    ensures
        match r {
            Some((c, t, p)) => install_progress(line@) == Some((c, t, p@)),
            None => install_progress(line@) is None,
        },
{
    let l = trim_chars(line);
    if !(l.len() > 0 && l[0] == '(') {
        return None;
    }
    let close = vec![')'];
    let slash_p = vec!['/'];
    assert(close@ =~= seq![')']);
    assert(slash_p@ =~= seq!['/']);
    let end_paren = match find_seq(l.as_slice(), close.as_slice()) {
        Some(e) => e,
        None => return None,
    };
    let slash = match find_seq(l.as_slice(), slash_p.as_slice()) {
        Some(s) => s,
        None => return None,
    };
    if slash > end_paren {
        return None;
    }
    assert(l@[slash as int] == '/');
    assert(slash >= 1);
    let cur_s = slice_chars(l.as_slice(), 1, slash);
    let tot_s = slice_chars(l.as_slice(), slash + 1, end_paren);
    let current = match parse_usize(trim_chars(cur_s.as_slice()).as_slice()) {
        Some(c) => c,
        None => return None,
    };
    let total = match parse_usize(trim_chars(tot_s.as_slice()).as_slice()) {
        Some(t) => t,
        None => return None,
    };
    let rest = slice_chars(l.as_slice(), end_paren + 1, l.len());
    assert(rest@ =~= l@.skip(end_paren + 1));
    let parts = split_words(trim_chars(rest.as_slice()).as_slice());
    if parts.len() < 2 {
        return None;
    }
    let dots = chars_of("...");
    let package = strip_suffix_repeated_chars(parts[1].as_slice(), dots.as_slice());
    Some((current, total, package))
}

/// Reads an install line such as `(1/5) installing firefox...` into its counters and
/// package name.
pub fn parse_install_progress(line: &str) -> (r: Option<(usize, usize, String)>)
    ensures
        match r {
            Some((c, t, p)) => install_progress(line@) == Some((c, t, p@)),
            None => install_progress(line@) is None,
        },
{
    match install_progress_chars(chars_of(line).as_slice()) {
        Some((c, t, p)) => Some((c, t, string_of(p.as_slice()))),
        None => None,
    }
}

/// `==> Making package: name version ...`: the package's name.
pub open spec fn building_package(line: Seq<char>) -> Option<Seq<char>> {
    if starts_with(line, "==> Making package:"@) && words(line).len() >= 4 {
        Some(words(line)[3])
    } else {
        None
    }
}

fn building_package_chars(line: &[char]) -> (r: Option<Vec<char>>)
    ensures
        match r {
            Some(p) => building_package(line@) == Some(p@),
            None => building_package(line@) is None,
        },
{
    if has_prefix(line, chars_of("==> Making package:").as_slice()) {
        let parts = split_words(line);
        if parts.len() >= 4 {
            let p = slice_chars(parts[3].as_slice(), 0, parts[3].len());
            assert(p@ =~= parts@[3]@);
            return Some(p);
        }
    }
    None
}

/// The package that an AUR helper starts to build on this line, if any.
pub fn parse_building_package(line: &str) -> (r: Option<String>)
    ensures
        match r {
            Some(p) => building_package(line@) == Some(p@),
            None => building_package(line@) is None,
        },
{
    match building_package_chars(chars_of(line).as_slice()) {
        Some(p) => Some(string_of(p.as_slice())),
        None => None,
    }
}

/// `name downloading...`: the package's name.
pub open spec fn downloading_package(line: Seq<char>) -> Option<Seq<char>> {
    let t = trim(line);
    if ends_with(t, "downloading..."@) && words(t).len() > 0 {
        Some(words(t)[0])
    } else {
        None
    }
}

fn downloading_package_chars(line: &[char]) -> (r: Option<Vec<char>>)
    ensures
        match r {
            Some(p) => downloading_package(line@) == Some(p@),
            None => downloading_package(line@) is None,
        },
{
    let t = trim_chars(line);
    if has_suffix(t.as_slice(), chars_of("downloading...").as_slice()) {
        let parts = split_words(t.as_slice());
        if parts.len() > 0 {
            let p = slice_chars(parts[0].as_slice(), 0, parts[0].len());
            assert(p@ =~= parts@[0]@);
            return Some(p);
        }
    }
    None
}

/// The package whose download starts on this line, if any.
pub fn parse_downloading_package(line: &str) -> (r: Option<String>)
    ensures
        match r {
            Some(p) => downloading_package(line@) == Some(p@),
            None => downloading_package(line@) is None,
        },
{
    match downloading_package_chars(chars_of(line).as_slice()) {
        Some(p) => Some(string_of(p.as_slice())),
        None => None,
    }
}


// ---------------------------------------------------------------------------
// One line of output
// ---------------------------------------------------------------------------

/// The stage that a line of the package manager's output announces, if any.  The
/// lower-case form of the line decides, except for the package names, which come
/// from the line itself.
pub open spec fn output_status_ok(line: Seq<char>, r: Option<UpdateStatus>) -> bool {
    let lower = unicode_lower(line);
    if starts_with(lower, "-> error making:"@) {
        r matches Some(UpdateStatus::Failed(m)) && m@ == trim(
            strip_repeated(line, "-> error making:"@),
        )
    } else if contains_seq(lower, "synchronizing package databases"@) {
        r matches Some(UpdateStatus::SyncingDatabases)
    } else if contains_seq(lower, "starting full system upgrade"@) {
        r matches Some(UpdateStatus::CheckingUpdates)
    } else if building_package(line) is Some {
        r matches Some(UpdateStatus::Building { package }) && package@ == building_package(
            line,
        )->0
    } else if downloading_package(line) is Some {
        r matches Some(UpdateStatus::Downloading { package: Some(p) }) && p@
            == downloading_package(line)->0
    } else if contains_seq(lower, "downloading"@) {
        r matches Some(UpdateStatus::Downloading { package: None })
    } else if install_progress(line) is Some {
        let (c, t, p) = install_progress(line)->0;
        r matches Some(UpdateStatus::Installing { current, total, package }) && current == c
            && total == t && package@ == p
    } else if contains_seq(lower, "installing"@) || contains_seq(lower, "upgrading"@)
        || contains_seq(lower, "checking keys"@) || contains_seq(lower, "checking integrity"@) {
        r matches Some(UpdateStatus::Installing { current, total, package }) && current == 0
            && total == 0 && package@ == "System"@
    } else if contains_seq(lower, "there is nothing to do"@) {
        r matches Some(UpdateStatus::NoUpdates)
    } else {
        r is None
    }
}

/// The package that a line reports as being installed: the package of an install
/// line that no earlier rule claimed.
pub open spec fn installed_package(line: Seq<char>) -> Option<Seq<char>> {
    let lower = unicode_lower(line);
    if starts_with(lower, "-> error making:"@) || contains_seq(
        lower,
        "synchronizing package databases"@,
    ) || contains_seq(lower, "starting full system upgrade"@) || building_package(line) is Some
        || downloading_package(line) is Some || contains_seq(lower, "downloading"@) {
        None
    } else {
        match install_progress(line) {
            Some((_, _, p)) => Some(p),
            None => None,
        }
    }
}

#[verifier::rlimit(40)]
fn line_status(line: &str, updated_packages: &mut Vec<String>) -> (r: Option<UpdateStatus>)
    ensures
        output_status_ok(line@, r),
        match installed_package(line@) {
            Some(p) => strings_view(final(updated_packages)@) == strings_view(
                old(updated_packages)@,
            ).push(p),
            None => final(updated_packages)@ == old(updated_packages)@,
        },
{
    let chars = chars_of(line);
    let lower = lower_chars(chars.as_slice());
    let err_prefix = chars_of("-> error making:");
    if has_prefix(lower.as_slice(), err_prefix.as_slice()) {
        let k = strip_repeated_at(chars.as_slice(), err_prefix.as_slice());
        let rest = slice_chars(chars.as_slice(), k, chars.len());
        assert(rest@ =~= chars@.skip(k as int));
        let msg = trim_chars(rest.as_slice());
        return Some(UpdateStatus::Failed(string_of(msg.as_slice())));
    }
    if contains_chars(lower.as_slice(), chars_of("synchronizing package databases").as_slice()) {
        return Some(UpdateStatus::SyncingDatabases);
    }
    if contains_chars(lower.as_slice(), chars_of("starting full system upgrade").as_slice()) {
        return Some(UpdateStatus::CheckingUpdates);
    }
    if let Some(p) = building_package_chars(chars.as_slice()) {
        return Some(UpdateStatus::Building { package: string_of(p.as_slice()) });
    }
    if let Some(p) = downloading_package_chars(chars.as_slice()) {
        return Some(UpdateStatus::Downloading { package: Some(string_of(p.as_slice())) });
    }
    if contains_chars(lower.as_slice(), chars_of("downloading").as_slice()) {
        return Some(UpdateStatus::Downloading { package: None });
    }
    if let Some((current, total, p)) = install_progress_chars(chars.as_slice()) {
        let pkg = string_of(p.as_slice());
        let ghost old_pk = updated_packages@;
        updated_packages.push(string_of(p.as_slice()));
        assert(strings_view(updated_packages@) =~= strings_view(old_pk).push(p@));
        return Some(UpdateStatus::Installing { current, total, package: pkg });
    }
    if contains_chars(lower.as_slice(), chars_of("installing").as_slice()) || contains_chars(
        lower.as_slice(),
        chars_of("upgrading").as_slice(),
    ) || contains_chars(lower.as_slice(), chars_of("checking keys").as_slice()) || contains_chars(
        lower.as_slice(),
        chars_of("checking integrity").as_slice(),
    ) {
        return Some(
            UpdateStatus::Installing { current: 0, total: 0, package: String::from_str("System") },
        );
    }
    if contains_chars(lower.as_slice(), chars_of("there is nothing to do").as_slice()) {
        return Some(UpdateStatus::NoUpdates);
    }
    None
}

/// What one complete line of output reports: the line itself for the log, then the
/// stage it announces, if any.  A line that reports an installed package adds that
/// package to `updated_packages`.
pub fn parse_output_line(line: &str, updated_packages: &mut Vec<String>) -> (r: Vec<
    SystemUpdateProgress,
>)
    ensures
        r@.len() >= 1,
        r@[0] matches SystemUpdateProgress::LogLine(l) && l@ == line@,
        r@.len() == 1 ==> output_status_ok(line@, None),
        r@.len() == 2 ==> (r@[1] matches SystemUpdateProgress::StatusChange(s) && output_status_ok(
            line@,
            Some(s),
        )),
        r@.len() <= 2,
        match installed_package(line@) {
            Some(p) => strings_view(final(updated_packages)@) == strings_view(
                old(updated_packages)@,
            ).push(p),
            None => final(updated_packages)@ == old(updated_packages)@,
        },
{
    let mut r: Vec<SystemUpdateProgress> = Vec::new();
    r.push(SystemUpdateProgress::LogLine(string_of(chars_of(line).as_slice())));
    match line_status(line, updated_packages) {
        Some(s) => r.push(SystemUpdateProgress::StatusChange(s)),
        None => {},
    }
    r
}

// ---------------------------------------------------------------------------
// Restart
// ---------------------------------------------------------------------------

/// Packages after whose update the machine should be restarted.
pub open spec fn critical_packages() -> Seq<Seq<char>> {
    seq![
        "linux"@,
        "linux-lts"@,
        "linux-zen"@,
        "linux-hardened"@,
        "systemd"@,
        "nvidia"@,
        "mesa"@,
        "amd-ucode"@,
        "intel-ucode"@,
        "glibc"@,
    ]
}

/// A critical package itself, or one of its `name-...` companions.
pub open spec fn needs_restart(pkg: Seq<char>) -> bool {
    exists|k: int|
        0 <= k < critical_packages().len() && (pkg == #[trigger] critical_packages()[k]
            || starts_with(pkg, critical_packages()[k].push('-')))
}

/// `pkg` is the package `base` or one of its `base-...` companions.
pub open spec fn named_or_companion(pkg: Seq<char>, base: Seq<char>) -> bool {
    pkg == base || starts_with(pkg, base.push('-'))
}

/// A restart is asked for exactly when an updated package is the kernel (`linux`,
/// `linux-lts`, `linux-zen`, `linux-hardened`), `systemd`, `nvidia`, `mesa`, a
/// microcode package (`amd-ucode`, `intel-ucode`) or `glibc`, or a `name-...`
/// package of one of them; so an update list holding such a package needs a
/// restart, and one holding none of them does not.
pub proof fn law_restart_follows_the_critical_packages(packages: Seq<Seq<char>>)
    ensures
        (exists|i: int| 0 <= i < packages.len() && needs_restart(#[trigger] packages[i])) <==> (
        exists|i: int|
            0 <= i < packages.len() && {
                let p = #[trigger] packages[i];
                ||| named_or_companion(p, "linux"@)
                ||| named_or_companion(p, "linux-lts"@)
                ||| named_or_companion(p, "linux-zen"@)
                ||| named_or_companion(p, "linux-hardened"@)
                ||| named_or_companion(p, "systemd"@)
                ||| named_or_companion(p, "nvidia"@)
                ||| named_or_companion(p, "mesa"@)
                ||| named_or_companion(p, "amd-ucode"@)
                ||| named_or_companion(p, "intel-ucode"@)
                ||| named_or_companion(p, "glibc"@)
            }),
{
    let c = critical_packages();
    assert(c[0] == "linux"@);
    assert(c[1] == "linux-lts"@);
    assert(c[2] == "linux-zen"@);
    assert(c[3] == "linux-hardened"@);
    assert(c[4] == "systemd"@);
    assert(c[5] == "nvidia"@);
    assert(c[6] == "mesa"@);
    assert(c[7] == "amd-ucode"@);
    assert(c[8] == "intel-ucode"@);
    assert(c[9] == "glibc"@);
    assert(c.len() == 10);
}

fn critical_list() -> (r: Vec<Vec<char>>)
    ensures
        vecs_view(r@) == critical_packages(),
{
    let mut r: Vec<Vec<char>> = Vec::new();
    r.push(chars_of("linux"));
    r.push(chars_of("linux-lts"));
    r.push(chars_of("linux-zen"));
    r.push(chars_of("linux-hardened"));
    r.push(chars_of("systemd"));
    r.push(chars_of("nvidia"));
    r.push(chars_of("mesa"));
    r.push(chars_of("amd-ucode"));
    r.push(chars_of("intel-ucode"));
    r.push(chars_of("glibc"));
    assert(vecs_view(r@) =~= critical_packages());
    r
}

fn package_needs_restart(pkg: &[char], crit: &Vec<Vec<char>>) -> (r: bool)
    requires
        vecs_view(crit@) == critical_packages(),
    ensures
        r == needs_restart(pkg@),
{
    let mut k: usize = 0;
    while k < crit.len()
        invariant
            k <= crit@.len(),
            vecs_view(crit@) == critical_packages(),
            forall|j: int|
                0 <= j < k ==> !(pkg@ == #[trigger] critical_packages()[j] || starts_with(
                    pkg@,
                    critical_packages()[j].push('-'),
                )),
        decreases crit@.len() - k,
    {
        let c = &crit[k];
        assert(c@ == critical_packages()[k as int]);
        let mut dashed = slice_chars(c.as_slice(), 0, c.len());
        assert(dashed@ =~= c@);
        dashed.push('-');
        if chars_eq(pkg, c.as_slice()) || has_prefix(pkg, dashed.as_slice()) {
            return true;
        }
        k += 1;
    }
    false
}

/// Did the update touch a package (kernel, init system, graphics driver, microcode,
/// C library) that only takes effect after a restart?
pub fn check_restart_required(packages: &[String]) -> (r: bool)
    ensures
        r == exists|i: int| 0 <= i < packages@.len() && needs_restart(#[trigger] packages@[i]@),
{
    let crit = critical_list();
    let mut i: usize = 0;
    while i < packages.len()
        invariant
            i <= packages@.len(),
            vecs_view(crit@) == critical_packages(),
            forall|j: int| 0 <= j < i ==> !needs_restart(#[trigger] packages@[j]@),
        decreases packages@.len() - i,
    {
        let p = chars_of(packages[i].as_str());
        if package_needs_restart(p.as_slice(), &crit) {
            return true;
        }
        i += 1;
    }
    false
}


// ---------------------------------------------------------------------------
// The package manager to run
// ---------------------------------------------------------------------------

/// The AUR helper to use: `yay` before `paru`, given which of them are installed.
pub fn detect_aur_helper(yay_found: bool, paru_found: bool) -> (r: Option<&'static str>)
    ensures
        yay_found ==> r == Some("yay"),
        !yay_found && paru_found ==> r == Some("paru"),
        !yay_found && !paru_found ==> r is None,
{
    if yay_found {
        Some("yay")
    } else if paru_found {
        Some("paru")
    } else {
        None
    }
}

/// The program and arguments of an unattended full upgrade: through an AUR helper
/// when one is installed, else through `pacman`; `None` when neither is there.
pub open spec fn update_command_ok(
    yay_found: bool,
    paru_found: bool,
    pacman_found: bool,
    r: Option<(&'static str, Vec<&'static str>)>,
) -> bool {
    &&& yay_found ==> (r matches Some((p, a)) && p == "yay" && a@ == seq![
        "-Syu",
        "--noconfirm",
        "--answerdiff=None",
        "--answerclean=None",
    ])
    &&& !yay_found && paru_found ==> (r matches Some((p, a)) && p == "paru" && a@ == seq![
        "-Syu",
        "--noconfirm",
        "--skipreview",
    ])
    &&& !yay_found && !paru_found && pacman_found ==> (r matches Some((p, a)) && p == "pacman"
        && a@ == seq!["-Syu", "--noconfirm"])
    &&& !yay_found && !paru_found && !pacman_found ==> r is None
}

pub fn get_update_command(yay_found: bool, paru_found: bool, pacman_found: bool) -> (r: Option<
    (&'static str, Vec<&'static str>),
>)
    ensures
        update_command_ok(yay_found, paru_found, pacman_found, r),
{
    let mut args: Vec<&'static str> = Vec::new();
    match detect_aur_helper(yay_found, paru_found) {
        Some(helper) => {
            args.push("-Syu");
            args.push("--noconfirm");
            if yay_found {
                args.push("--answerdiff=None");
                args.push("--answerclean=None");
                assert(args@ =~= seq!["-Syu", "--noconfirm", "--answerdiff=None", "--answerclean=None"]);
            } else {
                args.push("--skipreview");
                assert(args@ =~= seq!["-Syu", "--noconfirm", "--skipreview"]);
            }
            Some((helper, args))
        },
        None => if pacman_found {
            args.push("-Syu");
            args.push("--noconfirm");
            assert(args@ =~= seq!["-Syu", "--noconfirm"]);
            Some(("pacman", args))
        } else {
            None
        },
    }
}

// ---------------------------------------------------------------------------
// Buffered output
// ---------------------------------------------------------------------------

/// A name for `String::from_utf8_lossy`: the text of some bytes, each invalid
/// sequence replaced by U+FFFD.
pub uninterp spec fn utf8_lossy(bytes: Seq<u8>) -> Seq<char>;

/// `String::from_utf8_lossy`: the result is named by `utf8_lossy` of the bytes, a
/// function of the bytes alone.
#[verifier::external_body]
fn decode_lossy(bytes: &[u8]) -> (r: String)
    ensures
        r@ == utf8_lossy(bytes@),
{
    String::from_utf8_lossy(bytes).into_owned()
}

/// The first position of a newline byte in `b`, if any.
pub open spec fn first_newline(b: Seq<u8>) -> Option<int> {
    if exists|i: int| 0 <= i < b.len() && b[i] == 10u8 {
        Some(choose|i: int| 0 <= i < b.len() && b[i] == 10u8 && forall|j: int| 0 <= j < i ==> b[j] != 10u8)
    } else {
        None
    }
}

/// Takes the first complete line, with its newline, off the front of `buffer`.
pub fn take_line(buffer: &mut Vec<u8>) -> (r: Option<Vec<u8>>)
    ensures
        match first_newline(old(buffer)@) {
            Some(p) => (r matches Some(l) && l@ == old(buffer)@.take(p + 1)) && final(buffer)@
                == old(buffer)@.skip(p + 1),
            None => r is None && final(buffer)@ == old(buffer)@,
        },
{
    let n = buffer.len();
    let mut i: usize = 0;
    while i < n
        invariant
            n == buffer@.len(),
            i <= n,
            buffer@ == old(buffer)@,
            forall|j: int| 0 <= j < i ==> buffer@[j] != 10u8,
        decreases n - i,
    {
        if buffer[i] == 10u8 {
            let ghost old_b = buffer@;
            proof {
                let p = choose|k: int|
                    0 <= k < old_b.len() && old_b[k] == 10u8 && forall|j: int|
                        0 <= j < k ==> old_b[j] != 10u8;
                assert(old_b[i as int] == 10u8);
                if p < i {
                } else if p > i {
                }
                assert(p == i);
            }
            let mut line: Vec<u8> = Vec::new();
            let mut rest: Vec<u8> = Vec::new();
            let mut k: usize = 0;
            while k < n
                invariant
                    n == buffer@.len(),
                    i < n,
                    k <= n,
                    buffer@ == old_b,
                    line@ == old_b.take(if k <= i + 1 { k as int } else { i + 1 }),
                    rest@ == (if k <= i + 1 { Seq::<u8>::empty() } else { old_b.subrange(i + 1, k as int) }),
                decreases n - k,
            {
                if k <= i {
                    line.push(buffer[k]);
                    assert(line@ =~= old_b.take(k + 1));
                } else {
                    rest.push(buffer[k]);
                    assert(rest@ =~= old_b.subrange(i + 1, k + 1));
                }
                k += 1;
            }
            assert(rest@ =~= old_b.skip(i + 1));
            *buffer = rest;
            return Some(line);
        }
        i += 1;
    }
    None
}

/// What a line of output amounts to once trimmed.
#[derive(Debug)]
pub enum LineOutcome {
    /// Nothing but whitespace.
    Blank,
    /// A question that needs a human: the update has to stop, with this message.
    Prompt(String),
    /// An ordinary line, trimmed.
    Line(String),
}

/// The message with which an update stops at a prompt.
pub open spec fn prompt_message(t: Seq<char>) -> Seq<char> {
    "Manual intervention required.\nPrompt: "@ + t
}

pub open spec fn line_outcome_ok(text: Seq<char>, r: LineOutcome) -> bool {
    let t = trim(text);
    if t.len() == 0 {
        r is Blank
    } else if interactive_prompt(t) {
        r matches LineOutcome::Prompt(m) && m@ == prompt_message(t)
    } else {
        r matches LineOutcome::Line(l) && l@ == t
    }
}

fn prompt_message_of(t: &[char]) -> (r: String)
    ensures
        r@ == prompt_message(t@),
{
    let mut m = chars_of("Manual intervention required.\nPrompt: ");
    let ghost m0 = m@;
    let mut t2 = slice_chars(t, 0, t.len());
    assert(t2@ =~= t@);
    m.append(&mut t2);
    assert(m@ =~= m0 + t@);
    string_of(m.as_slice())
}

fn outcome_of_text(text: &[char]) -> (r: LineOutcome)
    ensures
        line_outcome_ok(text@, r),
{
    let t = trim_chars(text);
    if t.len() == 0 {
        return LineOutcome::Blank;
    }
    if prompt_chars(t.as_slice()) {
        return LineOutcome::Prompt(prompt_message_of(t.as_slice()));
    }
    LineOutcome::Line(string_of(t.as_slice()))
}

/// Classifies a line of raw output bytes (decoded leniently, then trimmed).
pub fn classify_line(line: &[u8]) -> (r: LineOutcome)
    ensures
        line_outcome_ok(utf8_lossy(line@), r),
{
    let text = decode_lossy(line);
    outcome_of_text(chars_of(text.as_str()).as_slice())
}

/// An unfinished last line that already asks a question stops the update too: the
/// message for it, if it does.
pub fn pending_prompt(buffer: &[u8]) -> (r: Option<String>)
    ensures
        ({
            let text = utf8_lossy(buffer@);
            if text.len() > 0 && !text.contains('\n') && interactive_prompt(text) {
                r matches Some(m) && m@ == prompt_message(trim(text))
            } else {
                r is None
            }
        }),
{
    let text = chars_of(decode_lossy(buffer).as_str());
    let mut has_newline = false;
    let mut i: usize = 0;
    while i < text.len()
        invariant
            i <= text@.len(),
            has_newline == exists|j: int| 0 <= j < i && text@[j] == '\n',
        decreases text@.len() - i,
    {
        if text[i] == '\n' {
            has_newline = true;
        }
        i += 1;
    }
    if text.len() > 0 && !has_newline && prompt_chars(text.as_slice()) {
        Some(prompt_message_of(trim_chars(text.as_slice()).as_slice()))
    } else {
        None
    }
}


// ---------------------------------------------------------------------------
// Reading the output as it arrives
// ---------------------------------------------------------------------------

/// The message for an unfinished last line that already asks a question.
pub open spec fn pending_prompt_spec(buffer: Seq<u8>) -> Option<Seq<char>> {
    let text = utf8_lossy(buffer);
    if text.len() > 0 && !text.contains('\n') && interactive_prompt(text) {
        Some(prompt_message(trim(text)))
    } else {
        None
    }
}

/// What one ordinary (trimmed) line `t` reports, at the front of `ev`: its log
/// line, then the stage it announces, if it announces one; `n` is the number of
/// those events.
pub open spec fn line_events_ok(t: Seq<char>, ev: Seq<SystemUpdateProgress>, n: int) -> bool {
    &&& n == 1 || n == 2
    &&& ev.len() >= n
    &&& ev[0] matches SystemUpdateProgress::LogLine(l) && l@ == t
    &&& n == 1 ==> output_status_ok(t, None)
    &&& n == 2 ==> (ev[1] matches SystemUpdateProgress::StatusChange(st) && output_status_ok(
        t,
        Some(st),
    ))
}

/// The packages after a line `t` was read: one more when it reports an installed
/// package.
pub open spec fn packages_after(pk: Seq<Seq<char>>, t: Seq<char>) -> Seq<Seq<char>> {
    match installed_package(t) {
        Some(p) => pk.push(p),
        None => pk,
    }
}

/// Reading the complete lines of `b` in order, with `pk` the packages installed so
/// far: blank lines are skipped; a line that asks a question stops the reading with
/// its message, the rest left in the buffer; any other line reports its events (see
/// `line_events_ok`).  When no complete line is left, the unfinished rest stays in
/// the buffer and stops the reading if it already asks a question.  `ev` are the
/// events, `prompt` the message that stopped the reading, `b2` and `pk2` the buffer
/// and the packages afterwards.
pub open spec fn drained(
    b: Seq<u8>,
    pk: Seq<Seq<char>>,
    ev: Seq<SystemUpdateProgress>,
    prompt: Option<Seq<char>>,
    b2: Seq<u8>,
    pk2: Seq<Seq<char>>,
) -> bool
    decreases b.len(),
{
    match first_newline(b) {
        Some(p) => if 0 <= p < b.len() {
            let rest = b.skip(p + 1);
            let t = trim(utf8_lossy(b.take(p + 1)));
            if t.len() == 0 {
                drained(rest, pk, ev, prompt, b2, pk2)
            } else if interactive_prompt(t) {
                ev.len() == 0 && prompt == Some(prompt_message(t)) && b2 == rest && pk2 == pk
            } else {
                exists|n: int|
                    #![trigger line_events_ok(t, ev, n)]
                    line_events_ok(t, ev, n) && drained(
                        rest,
                        packages_after(pk, t),
                        ev.skip(n),
                        prompt,
                        b2,
                        pk2,
                    )
            }
        } else {
            false
        },
        None => ev.len() == 0 && prompt == pending_prompt_spec(b) && b2 == b && pk2 == pk,
    }
}

proof fn lemma_least_newline(b: Seq<u8>, i: int)
    requires
        0 <= i < b.len(),
        b[i] == 10u8,
    ensures
        exists|k: int| 0 <= k <= i && b[k] == 10u8 && forall|j: int| 0 <= j < k ==> b[j] != 10u8,
    decreases i,
{
    if exists|j: int| 0 <= j < i && b[j] == 10u8 {
        let j = choose|j: int| 0 <= j < i && b[j] == 10u8;
        lemma_least_newline(b, j);
    } else {
        assert(forall|j: int| 0 <= j < i ==> b[j] != 10u8);
    }
}

proof fn lemma_first_newline(b: Seq<u8>)
    ensures
        match first_newline(b) {
            Some(p) => 0 <= p < b.len() && b[p] == 10u8,
            None => forall|i: int| 0 <= i < b.len() ==> b[i] != 10u8,
        },
{
    if exists|i: int| 0 <= i < b.len() && b[i] == 10u8 {
        let i = choose|i: int| 0 <= i < b.len() && b[i] == 10u8;
        lemma_least_newline(b, i);
    }
}

/// A blank line read: nothing, then the rest.
proof fn lemma_drained_blank(
    b: Seq<u8>,
    pk: Seq<Seq<char>>,
    p: int,
    er: Seq<SystemUpdateProgress>,
    pr: Option<Seq<char>>,
    b2: Seq<u8>,
    pk2: Seq<Seq<char>>,
)
    requires
        first_newline(b) == Some(p),
        0 <= p < b.len(),
        trim(utf8_lossy(b.take(p + 1))).len() == 0,
        drained(b.skip(p + 1), pk, er, pr, b2, pk2),
    ensures
        drained(b, pk, er, pr, b2, pk2),
{
}

/// One ordinary line read: its events, then those of the rest.
proof fn lemma_drained_line(
    b: Seq<u8>,
    pk: Seq<Seq<char>>,
    p: int,
    t: Seq<char>,
    all: Seq<SystemUpdateProgress>,
    n: int,
    pr: Option<Seq<char>>,
    b2: Seq<u8>,
    pk2: Seq<Seq<char>>,
)
    requires
        first_newline(b) == Some(p),
        0 <= p < b.len(),
        t == trim(utf8_lossy(b.take(p + 1))),
        t.len() > 0,
        !interactive_prompt(t),
        line_events_ok(t, all, n),
        drained(b.skip(p + 1), packages_after(pk, t), all.skip(n), pr, b2, pk2),
    ensures
        drained(b, pk, all, pr, b2, pk2),
{
}

/// Reads the complete lines of `buffer` as `drained` says, leaving the unfinished
/// rest in it and adding installed packages to `updated_packages`; the events come
/// back in order, with the message of a question that stops the update, if any.
#[verifier::rlimit(60)]
pub fn drain_output(buffer: &mut Vec<u8>, updated_packages: &mut Vec<String>) -> (r: (
    Vec<SystemUpdateProgress>,
    Option<String>,
))
    ensures
        drained(
            old(buffer)@,
            strings_view(old(updated_packages)@),
            r.0@,
            crate::model::opt_view(r.1),
            final(buffer)@,
            strings_view(final(updated_packages)@),
        ),
{
    let ghost b0 = buffer@;
    let ghost pk0 = strings_view(updated_packages@);
    let mut events: Vec<SystemUpdateProgress> = Vec::new();
    assert(forall|er: Seq<SystemUpdateProgress>| events@ + er =~= er);
    loop
        invariant
            b0 == old(buffer)@,
            pk0 == strings_view(old(updated_packages)@),
            forall|er: Seq<SystemUpdateProgress>, pr: Option<Seq<char>>, b2: Seq<u8>, pk2: Seq<Seq<char>>|
                #[trigger] drained(buffer@, strings_view(updated_packages@), er, pr, b2, pk2) ==> drained(
                    b0,
                    pk0,
                    events@ + er,
                    pr,
                    b2,
                    pk2,
                ),
        decreases buffer@.len(),
    {
        let ghost b = buffer@;
        let ghost pk = strings_view(updated_packages@);
        let ghost ev0 = events@;
        proof {
            lemma_first_newline(b);
        }
        let line = match take_line(buffer) {
            Some(l) => l,
            None => {
                let prompt = pending_prompt(buffer.as_slice());
                proof {
                    let er = Seq::<SystemUpdateProgress>::empty();
                    assert(drained(b, pk, er, crate::model::opt_view(prompt), b, pk));
                    assert(events@ + er =~= events@);
                }
                return (events, prompt);
            },
        };
        let ghost p = first_newline(b)->0;
        let ghost t = trim(utf8_lossy(b.take(p + 1)));
        match classify_line(line.as_slice()) {
            LineOutcome::Blank => {
                assert forall|er: Seq<SystemUpdateProgress>, pr: Option<Seq<char>>, b2: Seq<u8>, pk2: Seq<Seq<char>>|
                    #[trigger] drained(buffer@, strings_view(updated_packages@), er, pr, b2, pk2) implies drained(
                    b0,
                    pk0,
                    events@ + er,
                    pr,
                    b2,
                    pk2,
                ) by {
                    lemma_drained_blank(b, pk, p, er, pr, b2, pk2);
                }
            },
            LineOutcome::Prompt(message) => {
                proof {
                    let er = Seq::<SystemUpdateProgress>::empty();
                    assert(drained(b, pk, er, Some(message@), buffer@, pk));
                    assert(events@ + er =~= events@);
                }
                return (events, Some(message));
            },
            LineOutcome::Line(text) => {
                let mut new_events = parse_output_line(text.as_str(), updated_packages);
                let ghost ne = new_events@;
                events.append(&mut new_events);
                assert(strings_view(updated_packages@) == packages_after(pk, t));
                assert forall|er: Seq<SystemUpdateProgress>, pr: Option<Seq<char>>, b2: Seq<u8>, pk2: Seq<Seq<char>>|
                    #[trigger] drained(buffer@, strings_view(updated_packages@), er, pr, b2, pk2) implies drained(
                    b0,
                    pk0,
                    events@ + er,
                    pr,
                    b2,
                    pk2,
                ) by {
                    let all = ne + er;
                    let n = ne.len() as int;
                    assert(all.skip(n) =~= er);
                    assert(all[0] == ne[0]);
                    if n == 2 {
                        assert(all[1] == ne[1]);
                    }
                    assert(line_events_ok(t, all, n));
                    lemma_drained_line(b, pk, p, t, all, n, pr, b2, pk2);
                    assert(ev0 + all =~= events@ + er);
                }
            },
        }
    }
}

/// Reads the rest of the output once it has ended: the unfinished last line, if
/// any, is read as a complete one.
pub fn finish_output(buffer: &mut Vec<u8>, updated_packages: &mut Vec<String>) -> (r: (
    Vec<SystemUpdateProgress>,
    Option<String>,
))
    ensures
        old(buffer)@.len() == 0 ==> r.0@.len() == 0 && r.1 is None && final(buffer)@.len() == 0
            && final(updated_packages)@ == old(updated_packages)@,
        old(buffer)@.len() > 0 ==> drained(
            old(buffer)@.push(10u8),
            strings_view(old(updated_packages)@),
            r.0@,
            crate::model::opt_view(r.1),
            final(buffer)@,
            strings_view(final(updated_packages)@),
        ),
{
    if buffer.len() == 0 {
        return (Vec::new(), None);
    }
    buffer.push(10u8);
    drain_output(buffer, updated_packages)
}

// ---------------------------------------------------------------------------
// Starting and finishing the update
// ---------------------------------------------------------------------------

/// Why an update cannot start: `pkexec` missing, or no package manager found.
pub open spec fn start_refusal(pkexec_found: bool, manager_found: bool) -> Option<Seq<char>> {
    if !pkexec_found {
        Some("pkexec is required for system updates"@)
    } else if !manager_found {
        Some("No supported package manager found"@)
    } else {
        None
    }
}

/// The program that runs the update under `pkexec`, with its arguments, or the
/// failure shown when the update cannot start.
pub fn update_start(pkexec_found: bool, yay_found: bool, paru_found: bool, pacman_found: bool) -> (r:
    Result<(&'static str, Vec<&'static str>), UpdateStatus>)
    ensures
        match start_refusal(pkexec_found, yay_found || paru_found || pacman_found) {
            Some(m) => r matches Err(UpdateStatus::Failed(t)) && t@ == m,
            None => r matches Ok((p, a)) && update_command_ok(
                yay_found,
                paru_found,
                pacman_found,
                Some((p, a)),
            ),
        },
{
    if !pkexec_found {
        return Err(UpdateStatus::Failed(String::from_str("pkexec is required for system updates")));
    }
    match get_update_command(yay_found, paru_found, pacman_found) {
        Some(c) => Ok(c),
        None => Err(UpdateStatus::Failed(String::from_str("No supported package manager found"))),
    }
}

/// An exit code as `Option::<i32>`'s debug text: `Some(<code>)` or `None`.
pub open spec fn code_text(code: Option<i32>) -> Seq<char> {
    match code {
        Some(c) => "Some("@ + (if c < 0 {
            "-"@ + decimal_text((-c) as nat)
        } else {
            decimal_text(c as nat)
        }) + ")"@,
        None => "None"@,
    }
}

/// How the update ends once its process has exited: completed (a restart needed
/// when a critical package was installed) when it succeeded, else failed with its
/// exit code.
pub open spec fn exit_status_ok(success: bool, code: Option<i32>, packages: Seq<String>, r: UpdateStatus) -> bool {
    if success {
        r == UpdateStatus::Completed {
            restart_required: exists|i: int| 0 <= i < packages.len() && needs_restart(#[trigger] packages[i]@),
        }
    } else {
        r matches UpdateStatus::Failed(m) && m@ == "Process exited with code: "@ + code_text(code)
    }
}

pub fn update_exit_status(success: bool, code: Option<i32>, packages: &[String]) -> (r: UpdateStatus)
    ensures
        exit_status_ok(success, code, packages@, r),
{
    if success {
        let restart_required = check_restart_required(packages);
        UpdateStatus::Completed { restart_required }
    } else {
        let text = match code {
            Some(c) => {
                let digits = if c < 0 {
                    let m: i64 = -(c as i64);
                    let d = decimal_of(m as u64);
                    concat(chars_of("-").as_slice(), d.as_slice())
                } else {
                    decimal_of(c as u64)
                };
                let a = concat(chars_of("Some(").as_slice(), digits.as_slice());
                concat(a.as_slice(), chars_of(")").as_slice())
            },
            None => chars_of("None"),
        };
        let m = concat(chars_of("Process exited with code: ").as_slice(), text.as_slice());
        UpdateStatus::Failed(string_of(m.as_slice()))
    }
}

} // verus!
