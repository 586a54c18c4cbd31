//! The system information dialog: reading the outputs of `/etc/os-release`,
//! `/proc/cpuinfo`, `free`, `lspci`, `glxinfo`, `vulkaninfo`, `df` and the zram
//! files into what the dialog shows.
use vstd::prelude::*;

use crate::launcher::{char_vecs_view, split_char, split_chars, strings_view, strip_repeated};
use crate::roms::concat;
use crate::category_list::{lemma_lex_total, lemma_lex_trans, lex_le, lex_le_chars};
use crate::snes9x::{path_join, path_join_of};
use crate::text::{
    chars_eq, chars_of, contains_chars, contains_seq, find_seq, first_occurrence, has_prefix,
    join_chars, join_with, lower_chars, parse_u64, parse_usize, parsed_u64, parsed_usize, slice_chars, split_lines,
    split_words, starts_with, string_of, text_lines, trim, trim_char, trim_char_chars, trim_chars,
    unicode_lower, vecs_view, words,
};

verus! {

/// A mounted disk as `df` reports it.
#[derive(Debug, Clone)]
pub struct DiskInfo {
    pub mount_point: String,
    pub size: String,
    pub used: String,
    pub usage_percent: String,
}

/// Compressed swap in memory.
#[derive(Debug, Clone)]
pub struct ZramInfo {
    pub enabled: bool,
    pub size: String,
    pub algorithm: String,
    pub used: String,
    pub usage_percent: String,
}

/// Everything the system information dialog shows.
#[derive(Debug, Clone)]
pub struct GamingSystemInfo {
    pub os_name: String,
    pub kernel_version: String,
    pub cpu_model: String,
    pub memory_total: String,
    pub memory_used: String,
    pub gpu_info: String,
    pub gpu_driver: String,
    pub vulkan_info: String,
    pub xdg_session_type: String,
    pub wine_versions: Vec<(String, String)>,
    pub proton_versions: Vec<(String, String)>,
    pub disks: Vec<DiskInfo>,
    pub zram: ZramInfo,
}

impl ZramInfo {
    /// No zram: disabled, every text empty.
    pub fn disabled() -> (r: Self)
        ensures
            !r.enabled,
            r.size@.len() == 0,
            r.algorithm@.len() == 0,
            r.used@.len() == 0,
            r.usage_percent@.len() == 0,
    {
        ZramInfo {
            enabled: false,
            size: String::new(),
            algorithm: String::new(),
            used: String::new(),
            usage_percent: String::new(),
        }
    }
}

// ---------------------------------------------------------------------------
// Operating system and processor
// ---------------------------------------------------------------------------

/// The first line satisfying nothing more than a prefix, as an index.
pub open spec fn first_line_with_prefix(lines: Seq<Seq<char>>, p: Seq<char>) -> Option<int> {
    if exists|i: int| 0 <= i < lines.len() && starts_with(#[trigger] lines[i], p) {
        Some(
            choose|i: int|
                0 <= i < lines.len() && starts_with(#[trigger] lines[i], p) && forall|j: int|
                    0 <= j < i ==> !starts_with(#[trigger] lines[j], p),
        )
    } else {
        None
    }
}

fn first_line_with_prefix_of(lines: &Vec<Vec<char>>, p: &[char]) -> (r: Option<usize>)
    ensures
        match r {
            Some(i) => first_line_with_prefix(vecs_view(lines@), p@) == Some(i as int) && i
                < lines@.len(),
            None => first_line_with_prefix(vecs_view(lines@), p@) is None,
        },
{
    let ghost lv = vecs_view(lines@);
    let mut i: usize = 0;
    while i < lines.len()
        invariant
            i <= lines@.len(),
            lv == vecs_view(lines@),
            forall|j: int| 0 <= j < i ==> !starts_with(#[trigger] lv[j], p@),
        decreases lines@.len() - i,
    {
        if has_prefix(lines[i].as_slice(), p) {
            assert(starts_with(lv[i as int], p@));
            proof {
                let k = choose|k: int|
                    0 <= k < lv.len() && starts_with(#[trigger] lv[k], p@) && forall|j: int|
                        0 <= j < k ==> !starts_with(#[trigger] lv[j], p@);
                if k < i {
                    assert(!starts_with(lv[k], p@));
                }
                if k > i {
                    assert(!starts_with(lv[i as int], p@));
                }
            }
            return Some(i);
        }
        i += 1;
    }
    None
}

/// The distribution's name: the `PRETTY_NAME=` line of `os-release`, without the key
/// and surrounding quotes; `Linux` when there is none.
pub open spec fn os_name_spec(content: Seq<char>) -> Seq<char> {
    let lines = text_lines(content);
    match first_line_with_prefix(lines, "PRETTY_NAME="@) {
        Some(i) => trim_char(strip_repeated(lines[i], "PRETTY_NAME="@), '"'),
        None => "Linux"@,
    }
}

pub fn os_name_from_release(content: &str) -> (r: String)
    ensures
        r@ == os_name_spec(content@),
{
    let lines = split_lines(chars_of(content).as_slice());
    let key = chars_of("PRETTY_NAME=");
    match first_line_with_prefix_of(&lines, key.as_slice()) {
        Some(i) => {
            let l = &lines[i];
            let k = crate::launcher::strip_repeated_at(l.as_slice(), key.as_slice());
            let rest = slice_chars(l.as_slice(), k, l.len());
            assert(rest@ =~= l@.skip(k as int));
            string_of(trim_char_chars(rest.as_slice(), '"').as_slice())
        },
        None => String::from_str("Linux"),
    }
}

/// The processor's model: what follows the first `:` of the first `model name` line
/// of `/proc/cpuinfo`, trimmed; `Unknown` when there is no such line or no `:`.
pub open spec fn cpu_model_spec(content: Seq<char>) -> Seq<char> {
    let lines = text_lines(content);
    match first_line_with_prefix(lines, "model name"@) {
        Some(i) => if split_char(lines[i], ':').len() >= 2 {
            trim(split_char(lines[i], ':')[1])
        } else {
            "Unknown"@
        },
        None => "Unknown"@,
    }
}

pub fn cpu_model_from(content: &str) -> (r: String)
    ensures
        r@ == cpu_model_spec(content@),
{
    let lines = split_lines(chars_of(content).as_slice());
    match first_line_with_prefix_of(&lines, chars_of("model name").as_slice()) {
        Some(i) => {
            let parts = split_chars(lines[i].as_slice(), ':');
            if parts.len() >= 2 {
                assert(char_vecs_view(parts@)[1] == parts@[1]@);
                string_of(trim_chars(parts[1].as_slice()).as_slice())
            } else {
                String::from_str("Unknown")
            }
        },
        None => String::from_str("Unknown"),
    }
}

// ---------------------------------------------------------------------------
// Memory
// ---------------------------------------------------------------------------

/// A `Mem:` line of `free -h` with at least three words.
pub open spec fn mem_line(l: Seq<char>) -> bool {
    starts_with(l, "Mem:"@) && words(l).len() >= 3
}

/// Total and used memory: the second and third words of the first `Mem:` line of
/// `free -h` that has three words; `Unknown` for both otherwise.
pub open spec fn memory_spec(output: Seq<char>) -> (Seq<char>, Seq<char>) {
    let lines = text_lines(output);
    if exists|i: int| 0 <= i < lines.len() && #[trigger] mem_line(lines[i]) {
        let i = choose|i: int|
            0 <= i < lines.len() && #[trigger] mem_line(lines[i]) && forall|j: int|
                0 <= j < i ==> !#[trigger] mem_line(lines[j]);
        (words(lines[i])[1], words(lines[i])[2])
    } else {
        ("Unknown"@, "Unknown"@)
    }
}

pub fn memory_from_free(output: &str) -> (r: (String, String))
    ensures
        (r.0@, r.1@) == memory_spec(output@),
{
    let lines = split_lines(chars_of(output).as_slice());
    let ghost lv = vecs_view(lines@);
    assert(lv == text_lines(output@));
    let key = chars_of("Mem:");
    let mut i: usize = 0;
    while i < lines.len()
        invariant
            i <= lines@.len(),
            lv == vecs_view(lines@),
            lv == text_lines(output@),
            key@ == "Mem:"@,
            forall|j: int| 0 <= j < i ==> !#[trigger] mem_line(lv[j]),
        decreases lines@.len() - i,
    {
        let prefixed = has_prefix(lines[i].as_slice(), key.as_slice());
        let parts = split_words(lines[i].as_slice());
        assert(lv[i as int] == lines@[i as int]@);
        if prefixed && parts.len() >= 3 {
            assert(mem_line(lv[i as int]));
            proof {
                let k = choose|k: int|
                    0 <= k < lv.len() && #[trigger] mem_line(lv[k]) && forall|j: int|
                        0 <= j < k ==> !#[trigger] mem_line(lv[j]);
                if k < i {
                    assert(!mem_line(lv[k]));
                }
                if k > i {
                    assert(!mem_line(lv[i as int]));
                }
                assert(vecs_view(parts@)[1] == parts@[1]@);
                assert(vecs_view(parts@)[2] == parts@[2]@);
            }
            return (string_of(parts[1].as_slice()), string_of(parts[2].as_slice()));
        }
        i += 1;
    }
    (String::from_str("Unknown"), String::from_str("Unknown"))
}

// ---------------------------------------------------------------------------
// Numbers as text
// ---------------------------------------------------------------------------

pub open spec fn digit_char(d: nat) -> char {
    (48 + d % 10) as char
}

/// The decimal digits of `n`, without leading zeros (`0` for zero).
pub open spec fn decimal_text(n: nat) -> Seq<char>
    decreases n,
{
    if n < 10 {
        seq![digit_char(n)]
    } else {
        decimal_text(n / 10).push(digit_char(n % 10))
    }
}

fn digit_of(d: u64) -> (c: char)
    requires
        d < 10,
    ensures
        c == digit_char(d as nat),
{
    let r: char = match d {
        0 => '0',
        1 => '1',
        2 => '2',
        3 => '3',
        4 => '4',
        5 => '5',
        6 => '6',
        7 => '7',
        8 => '8',
        _ => '9',
    };
    r
}

/// `n` written in decimal.
pub fn decimal_of(n: u64) -> (r: Vec<char>)
    ensures
        r@ == decimal_text(n as nat),
    decreases n,
{
    if n < 10 {
        let mut r: Vec<char> = Vec::new();
        r.push(digit_of(n));
        r
    } else {
        let mut r = decimal_of(n / 10);
        r.push(digit_of(n % 10));
        r
    }
}

// ---------------------------------------------------------------------------
// Graphics
// ---------------------------------------------------------------------------

/// An `lspci -mm` line of a graphics card.
pub open spec fn is_gpu_line(line: Seq<char>) -> bool {
    contains_seq(line, "\"VGA"@) || contains_seq(line, "\"3D"@) || contains_seq(line, "\"Display"@)
}

/// `vendor model` from the quoted fields of such a line; the line without its quotes
/// when it has too few.
pub open spec fn gpu_name(line: Seq<char>) -> Seq<char> {
    let parts = split_char(line, '"');
    if parts.len() >= 6 {
        parts[3] + " "@ + parts[5]
    } else {
        crate::text::replace_all(line, "\""@, ""@)
    }
}

pub open spec fn gpus_run(lines: Seq<Seq<char>>) -> Seq<Seq<char>>
    decreases lines.len(),
{
    if lines.len() == 0 {
        Seq::<Seq<char>>::empty()
    } else if is_gpu_line(lines.last()) {
        gpus_run(lines.drop_last()).push(gpu_name(lines.last()))
    } else {
        gpus_run(lines.drop_last())
    }
}

/// The graphics cards of an `lspci -mm` listing, in order.
pub open spec fn gpus_spec(lspci: Seq<char>) -> Seq<Seq<char>> {
    gpus_run(text_lines(lspci))
}

proof fn lemma_one_line_run(s: Seq<char>)
    requires
        !s.contains('\n'),
    ensures
        crate::text::lines_run(s) == (Seq::<Seq<char>>::empty(), s),
    decreases s.len(),
{
    if s.len() > 0 {
        assert(!s.drop_last().contains('\n')) by {
            if s.drop_last().contains('\n') {
                let j = choose|j: int| 0 <= j < s.drop_last().len() && s.drop_last()[j] == '\n';
                assert(s[j] == '\n');
            }
        }
        lemma_one_line_run(s.drop_last());
        assert(s[s.len() - 1] != '\n');
        assert(s.drop_last().push(s.last()) =~= s);
    }
}

/// One `lspci -mm` line, with or without its newline, names one graphics card when
/// its class field is a VGA compatible controller, a 3D controller or a Display
/// controller (`"VGA`, `"3D` or `"Display` occurs in it), named `vendor model` from
/// its quoted fields when it has them; any other line names none.
pub proof fn law_display_lines_name_one_gpu(line: Seq<char>)
    requires
        !line.contains('\n'),
        !line.contains('\r'),
    ensures
        ({
            let marked = contains_seq(line, "\"VGA"@) || contains_seq(line, "\"3D"@) || contains_seq(
                line,
                "\"Display"@,
            );
            &&& marked ==> gpus_spec(line).len() == 1 && gpus_spec(line.push('\n')).len() == 1
                && gpus_spec(line.push('\n')) == gpus_spec(line)
            &&& marked && split_char(line, '"').len() >= 6 ==> gpus_spec(line)[0] == split_char(
                line,
                '"',
            )[3] + " "@ + split_char(line, '"')[5]
            &&& !marked ==> gpus_spec(line).len() == 0 && gpus_spec(line.push('\n')).len() == 0
        }),
{
    lemma_one_line_run(line);
    let n = line.push('\n');
    assert(n.drop_last() =~= line);
    assert(n.last() == '\n');
    if line.len() > 0 {
        assert(line[line.len() - 1] != '\r');
    }
    assert(crate::text::strip_cr(line) == line);
    let marked = contains_seq(line, "\"VGA"@) || contains_seq(line, "\"3D"@) || contains_seq(
        line,
        "\"Display"@,
    );
    if marked {
        assert(line.len() > 0) by {
            if contains_seq(line, "\"VGA"@) {
                let i = choose|i: int| crate::text::occurs_at(line, "\"VGA"@, i);
                reveal_strlit("\"VGA");
            } else if contains_seq(line, "\"3D"@) {
                let i = choose|i: int| crate::text::occurs_at(line, "\"3D"@, i);
                reveal_strlit("\"3D");
            } else {
                let i = choose|i: int| crate::text::occurs_at(line, "\"Display"@, i);
                reveal_strlit("\"Display");
            }
        }
        assert(text_lines(line) =~= seq![line]);
        assert(text_lines(n) =~= seq![line]);
        assert(seq![line].drop_last() =~= Seq::<Seq<char>>::empty());
        assert(seq![line].last() == line);
        assert(is_gpu_line(line));
        assert(gpus_run(seq![line]) == gpus_run(Seq::<Seq<char>>::empty()).push(gpu_name(line)));
        assert(gpus_run(seq![line]) =~= seq![gpu_name(line)]);
    } else {
        if line.len() > 0 {
            assert(text_lines(line) =~= seq![line]);
            assert(seq![line].drop_last() =~= Seq::<Seq<char>>::empty());
        } else {
            assert(text_lines(line) =~= Seq::<Seq<char>>::empty());
        }
        assert(text_lines(n) =~= seq![line]);
        assert(seq![line].drop_last() =~= Seq::<Seq<char>>::empty());
        assert(seq![line].last() == line);
        assert(!is_gpu_line(line));
        assert(gpus_run(seq![line]) == gpus_run(Seq::<Seq<char>>::empty()));
        assert(gpus_run(Seq::<Seq<char>>::empty()).len() == 0);
    }
}

fn gpu_name_of(line: &[char]) -> (r: Vec<char>)
    ensures
        r@ == gpu_name(line@),
{
    let parts = split_chars(line, '"');
    if parts.len() >= 6 {
        assert(char_vecs_view(parts@)[3] == parts@[3]@);
        assert(char_vecs_view(parts@)[5] == parts@[5]@);
        let a = concat(parts[3].as_slice(), chars_of(" ").as_slice());
        concat(a.as_slice(), parts[5].as_slice())
    } else {
        let q = chars_of("\"");
        proof {
            reveal_strlit("\"");
        }
        crate::text::replace_all_chars(line, q.as_slice(), chars_of("").as_slice())
    }
}

/// The graphics cards named by an `lspci -mm` listing.
pub fn gpus_from_lspci(lspci: &str) -> (r: Vec<String>)
    ensures
        strings_view(r@) == gpus_spec(lspci@),
{
    let lines = split_lines(chars_of(lspci).as_slice());
    let ghost lv = vecs_view(lines@);
    let vga = chars_of("\"VGA");
    let d3 = chars_of("\"3D");
    let disp = chars_of("\"Display");
    let mut r: Vec<String> = Vec::new();
    let mut i: usize = 0;
    assert(lv.take(0) =~= Seq::<Seq<char>>::empty());
    while i < lines.len()
        invariant
            i <= lines@.len(),
            lv == vecs_view(lines@),
            lv == text_lines(lspci@),
            vga@ == "\"VGA"@,
            d3@ == "\"3D"@,
            disp@ == "\"Display"@,
            strings_view(r@) == gpus_run(lv.take(i as int)),
        decreases lines@.len() - i,
    {
        assert(lv.take(i + 1).drop_last() =~= lv.take(i as int));
        assert(lv.take(i + 1).last() == lines@[i as int]@);
        let l = lines[i].as_slice();
        if contains_chars(l, vga.as_slice()) || contains_chars(l, d3.as_slice()) || contains_chars(
            l,
            disp.as_slice(),
        ) {
            let ghost b = strings_view(r@);
            let g = string_of(gpu_name_of(l).as_slice());
            r.push(g);
            assert(strings_view(r@) =~= b.push(g@));
        }
        i += 1;
    }
    assert(lv.take(lines@.len() as int) =~= lv);
    r
}

/// The driver: what follows `OpenGL version string:` on the last such line of
/// `glxinfo -B` (lines trimmed first); `Unknown` when there is none.
pub open spec fn driver_run(lines: Seq<Seq<char>>) -> Seq<char>
    decreases lines.len(),
{
    if lines.len() == 0 {
        "Unknown"@
    } else {
        let t = trim(lines.last());
        if starts_with(t, "OpenGL version string:"@) {
            trim(strip_repeated(t, "OpenGL version string:"@))
        } else {
            driver_run(lines.drop_last())
        }
    }
}

pub open spec fn driver_spec(glxinfo: Seq<char>) -> Seq<char> {
    driver_run(text_lines(glxinfo))
}

/// The OpenGL driver named by `glxinfo -B`.
pub fn driver_from_glxinfo(glxinfo: &str) -> (r: String)
    ensures
        r@ == driver_spec(glxinfo@),
{
    let lines = split_lines(chars_of(glxinfo).as_slice());
    let ghost lv = vecs_view(lines@);
    let key = chars_of("OpenGL version string:");
    let mut i: usize = lines.len();
    assert(lv.take(lv.len() as int) =~= lv);
    while i > 0
        invariant
            i <= lines@.len(),
            lv == vecs_view(lines@),
            lv == text_lines(glxinfo@),
            key@ == "OpenGL version string:"@,
            driver_run(lv) == driver_run(lv.take(i as int)),
        decreases i,
    {
        let t = trim_chars(lines[i - 1].as_slice());
        assert(lv.take(i as int).last() == lines@[i - 1]@);
        assert(lv.take(i as int).drop_last() =~= lv.take(i - 1));
        if has_prefix(t.as_slice(), key.as_slice()) {
            let k = crate::launcher::strip_repeated_at(t.as_slice(), key.as_slice());
            let rest = slice_chars(t.as_slice(), k, t.len());
            assert(rest@ =~= t@.skip(k as int));
            return string_of(trim_chars(rest.as_slice()).as_slice());
        }
        i -= 1;
    }
    String::from_str("Unknown")
}

/// One line per card, `GPU n: name`, numbered from one.
pub open spec fn numbered_gpus(gpus: Seq<Seq<char>>) -> Seq<Seq<char>> {
    Seq::new(gpus.len(), |i: int| "GPU "@ + decimal_text((i + 1) as nat) + ": "@ + gpus[i])
}

/// What the dialog shows for the graphics: the only card, or the numbered cards one
/// per line, or `Unknown GPU`.
pub open spec fn gpu_summary_spec(gpus: Seq<Seq<char>>) -> Seq<char> {
    if gpus.len() == 0 {
        "Unknown GPU"@
    } else if gpus.len() == 1 {
        gpus[0]
    } else {
        join_with(numbered_gpus(gpus), "\n"@)
    }
}

pub fn gpu_summary(gpus: &Vec<String>) -> (r: String)
    ensures
        r@ == gpu_summary_spec(strings_view(gpus@)),
{
    if gpus.len() == 0 {
        return String::from_str("Unknown GPU");
    }
    if gpus.len() == 1 {
        return string_of(chars_of(gpus[0].as_str()).as_slice());
    }
    let ghost gv = strings_view(gpus@);
    let mut lines: Vec<Vec<char>> = Vec::new();
    let mut i: usize = 0;
    while i < gpus.len()
        invariant
            i <= gpus@.len(),
            gv == strings_view(gpus@),
            vecs_view(lines@) == numbered_gpus(gv).take(i as int),
        decreases gpus@.len() - i,
    {
        let k: usize = i + 1;
        let n = decimal_of(k as u64);
        let a = concat(chars_of("GPU ").as_slice(), n.as_slice());
        let a = concat(a.as_slice(), chars_of(": ").as_slice());
        let a = concat(a.as_slice(), chars_of(gpus[i].as_str()).as_slice());
        let ghost b = vecs_view(lines@);
        assert(gv[i as int] == gpus@[i as int]@);
        assert(a@ == numbered_gpus(gv)[i as int]);
        lines.push(a);
        assert(vecs_view(lines@) =~= b.push(a@));
        assert(vecs_view(lines@) =~= numbered_gpus(gv).take(i + 1));
        i += 1;
    }
    assert(numbered_gpus(gv).take(gpus@.len() as int) =~= numbered_gpus(gv));
    string_of(join_chars(&lines, chars_of("\n").as_slice()).as_slice())
}


// ---------------------------------------------------------------------------
// Vulkan
// ---------------------------------------------------------------------------

/// The value of a `key = value` line: the second `=`-separated piece, trimmed, or
/// nothing.
pub open spec fn eq_value(line: Seq<char>) -> Seq<char> {
    if split_char(line, '=').len() >= 2 {
        trim(split_char(line, '=')[1])
    } else {
        Seq::<char>::empty()
    }
}

pub open spec fn vulkan_run(lines: Seq<Seq<char>>) -> (Seq<char>, Seq<char>)
    decreases lines.len(),
{
    if lines.len() == 0 {
        (Seq::<char>::empty(), Seq::<char>::empty())
    } else {
        let st = vulkan_run(lines.drop_last());
        let t = trim(lines.last());
        if starts_with(t, "deviceName"@) {
            (eq_value(t), st.1)
        } else if starts_with(t, "apiVersion"@) {
            (st.0, eq_value(t))
        } else {
            st
        }
    }
}

/// `device (vAPI)` from the last `deviceName` and `apiVersion` lines of `vulkaninfo
/// --summary`; `Not Available` when no device is named.
pub open spec fn vulkan_spec(output: Seq<char>) -> Seq<char> {
    let st = vulkan_run(text_lines(output));
    if st.0.len() > 0 {
        st.0 + " (v"@ + st.1 + ")"@
    } else {
        "Not Available"@
    }
}

fn eq_value_of(line: &[char]) -> (r: Vec<char>)
    ensures
        r@ == eq_value(line@),
{
    let parts = split_chars(line, '=');
    if parts.len() >= 2 {
        assert(char_vecs_view(parts@)[1] == parts@[1]@);
        trim_chars(parts[1].as_slice())
    } else {
        Vec::new()
    }
}

pub fn vulkan_from(output: &str) -> (r: String)
    ensures
        r@ == vulkan_spec(output@),
{
    let lines = split_lines(chars_of(output).as_slice());
    let ghost lv = vecs_view(lines@);
    let dn = chars_of("deviceName");
    let av = chars_of("apiVersion");
    let mut device: Vec<char> = Vec::new();
    let mut api: Vec<char> = Vec::new();
    let mut i: usize = 0;
    assert(lv.take(0) =~= Seq::<Seq<char>>::empty());
    while i < lines.len()
        invariant
            i <= lines@.len(),
            lv == vecs_view(lines@),
            lv == text_lines(output@),
            dn@ == "deviceName"@,
            av@ == "apiVersion"@,
            (device@, api@) == vulkan_run(lv.take(i as int)),
        decreases lines@.len() - i,
    {
        assert(lv.take(i + 1).drop_last() =~= lv.take(i as int));
        assert(lv.take(i + 1).last() == lines@[i as int]@);
        let t = trim_chars(lines[i].as_slice());
        if has_prefix(t.as_slice(), dn.as_slice()) {
            device = eq_value_of(t.as_slice());
        } else if has_prefix(t.as_slice(), av.as_slice()) {
            api = eq_value_of(t.as_slice());
        }
        i += 1;
    }
    assert(lv.take(lines@.len() as int) =~= lv);
    if device.len() > 0 {
        let a = concat(device.as_slice(), chars_of(" (v").as_slice());
        let a = concat(a.as_slice(), api.as_slice());
        let a = concat(a.as_slice(), chars_of(")").as_slice());
        string_of(a.as_slice())
    } else {
        String::from_str("Not Available")
    }
}

// ---------------------------------------------------------------------------
// Proton
// ---------------------------------------------------------------------------

/// The version in a Proton `version` file (`<build time> <name>`): every word after
/// the first, joined by spaces; or the whole text, trimmed, when it has one word.
pub open spec fn proton_version_spec(content: Seq<char>) -> Option<Seq<char>> {
    let w = words(content);
    if w.len() >= 2 {
        Some(join_with(w.skip(1), " "@))
    } else if trim(content).len() > 0 {
        Some(trim(content))
    } else {
        None
    }
}

pub fn read_proton_version_file(content: &str) -> (r: Option<String>)
    ensures
        match r {
            Some(v) => proton_version_spec(content@) == Some(v@),
            None => proton_version_spec(content@) is None,
        },
{
    let c = chars_of(content);
    let w = split_words(c.as_slice());
    if w.len() >= 2 {
        let mut rest: Vec<Vec<char>> = Vec::new();
        let mut i: usize = 1;
        while i < w.len()
            invariant
                1 <= i <= w@.len(),
                vecs_view(rest@) == vecs_view(w@).subrange(1, i as int),
            decreases w@.len() - i,
        {
            let ghost b = vecs_view(rest@);
            let piece = slice_chars(w[i].as_slice(), 0, w[i].len());
            assert(piece@ =~= w@[i as int]@);
            rest.push(piece);
            assert(vecs_view(rest@) =~= b.push(w@[i as int]@));
            assert(vecs_view(w@)[i as int] == w@[i as int]@);
            assert(vecs_view(rest@) =~= vecs_view(w@).subrange(1, i + 1));
            i += 1;
        }
        assert(vecs_view(w@).subrange(1, w@.len() as int) =~= vecs_view(w@).skip(1));
        return Some(string_of(join_chars(&rest, chars_of(" ").as_slice()).as_slice()));
    }
    let t = trim_chars(c.as_slice());
    if t.len() > 0 {
        Some(string_of(t.as_slice()))
    } else {
        None
    }
}

/// The number of bytes of a character in UTF-8.
pub open spec fn utf8_width(c: char) -> nat {
    let u = c as u32;
    if u < 0x80 {
        1
    } else if u < 0x800 {
        2
    } else if u < 0x10000 {
        3
    } else {
        4
    }
}

/// The number of bytes of a text in UTF-8.
pub open spec fn utf8_size(s: Seq<char>) -> nat
    decreases s.len(),
{
    if s.len() == 0 {
        0
    } else {
        utf8_size(s.drop_last()) + utf8_width(s.last())
    }
}

fn utf8_width_of(c: char) -> (r: u8)
    ensures
        r == utf8_width(c),
{
    let u = c as u32;
    if u < 0x80 {
        1
    } else if u < 0x800 {
        2
    } else if u < 0x10000 {
        3
    } else {
        4
    }
}

/// Where, in characters of `name`, the text after the first `proton` of its
/// lower-case form starts: the byte offset found in the lower-case text is used on
/// `name`, so there must be a character boundary there.
pub open spec fn proton_cut(name: Seq<char>) -> Option<Option<int>> {
    let lower = unicode_lower(name);
    match first_occurrence(lower, "proton"@) {
        Some(k) => {
            let b = utf8_size(lower.take(k)) + 6;
            if exists|j: int| 0 <= j <= name.len() && #[trigger] utf8_size(name.take(j)) == b {
                Some(Some(choose|j: int| 0 <= j <= name.len() && #[trigger] utf8_size(name.take(j)) == b))
            } else {
                None
            }
        },
        None => Some(None),
    }
}

/// `str::trim_start_matches(['-', ' ', '_'])`.
pub open spec fn lead_separators(s: Seq<char>) -> nat
    decreases s.len(),
{
    if s.len() > 0 && (s[0] == '-' || s[0] == ' ' || s[0] == '_') {
        1 + lead_separators(s.drop_first())
    } else {
        0
    }
}

/// The version in a Proton directory's name (`GE-Proton10-28`, `Proton 9.0`): what
/// follows `proton` (in any case), without leading `-`, ` `, `_`; `Unknown` when
/// nothing does.
pub open spec fn version_from_name_spec(name: Seq<char>) -> Seq<char> {
    match proton_cut(name) {
        Some(Some(j)) => {
            let after = name.skip(j);
            let v = after.skip(lead_separators(after) as int);
            if v.len() > 0 {
                v
            } else {
                "Unknown"@
            }
        },
        _ => "Unknown"@,
    }
}

proof fn lemma_utf8_size_grows(s: Seq<char>, i: int, j: int)
    requires
        0 <= i < j <= s.len(),
    ensures
        utf8_size(s.take(i)) < utf8_size(s.take(j)),
    decreases j - i,
{
    assert(s.take(j).drop_last() =~= s.take(j - 1));
    if i < j - 1 {
        lemma_utf8_size_grows(s, i, j - 1);
    }
}

fn version_after_proton(name: &str) -> (r: Option<String>)
    ensures
        match r {
            Some(v) => proton_cut(name@) is Some && v@ == version_from_name_spec(name@),
            None => proton_cut(name@) is None,
        },
{
    let n = chars_of(name);
    let lower = lower_chars(n.as_slice());
    let k = match find_seq(lower.as_slice(), chars_of("proton").as_slice()) {
        Some(k) => k,
        None => return Some(String::from_str("Unknown")),
    };
    let ghost lv = lower@;
    let mut b: u128 = 0;
    let mut i: usize = 0;
    assert(lv.take(0) =~= Seq::<char>::empty());
    while i < k
        invariant
            i <= k <= lv.len(),
            lv == lower@,
            b == utf8_size(lv.take(i as int)),
            b <= 4 * i,
        decreases k - i,
    {
        assert(lv.take(i + 1).drop_last() =~= lv.take(i as int));
        b = b + utf8_width_of(lower[i]) as u128;
        i += 1;
    }
    b = b + 6;
    let ghost nv = n@;
    let mut acc: u128 = 0;
    let mut j: usize = 0;
    assert(nv.take(0) =~= Seq::<char>::empty());
    while j < n.len() && acc < b
        invariant
            j <= nv.len(),
            nv == n@,
            acc == utf8_size(nv.take(j as int)),
            acc <= 4 * j,
            forall|m: int| 0 <= m < j ==> #[trigger] utf8_size(nv.take(m)) < b,
        decreases nv.len() - j,
    {
        assert(nv.take(j + 1).drop_last() =~= nv.take(j as int));
        proof {
            assert forall|m: int| 0 <= m < j + 1 implies #[trigger] utf8_size(nv.take(m)) < b by {
                if m < j {
                } else {
                    assert(m == j);
                }
            }
        }
        acc = acc + utf8_width_of(n[j]) as u128;
        j += 1;
    }
    if acc != b {
        proof {
            assert forall|m: int| 0 <= m <= nv.len() implies #[trigger] utf8_size(nv.take(m)) != b by {
                if m < j {
                } else if m == j {
                } else {
                    lemma_utf8_size_grows(nv, j as int, m);
                    assert(j == nv.len() || acc > b);
                    if j == nv.len() {
                        assert(false);
                    }
                }
            }
        }
        return None;
    }
    proof {
        let c = choose|m: int| 0 <= m <= nv.len() && #[trigger] utf8_size(nv.take(m)) == b;
        if c < j {
            lemma_utf8_size_grows(nv, c, j as int);
        } else if c > j {
            lemma_utf8_size_grows(nv, j as int, c);
        }
        assert(c == j);
    }
    let mut s = j;
    let ghost after = nv.skip(j as int);
    assert(nv.skip(j as int).skip(0) =~= after);
    while s < n.len() && (n[s] == '-' || n[s] == ' ' || n[s] == '_')
        invariant
            j <= s <= nv.len(),
            nv == n@,
            after == nv.skip(j as int),
            lead_separators(after) == (s - j) + lead_separators(nv.skip(s as int)),
        decreases nv.len() - s,
    {
        assert(nv.skip(s as int).drop_first() =~= nv.skip(s + 1));
        s += 1;
    }
    assert(s < nv.len() ==> lead_separators(nv.skip(s as int)) == 0);
    assert(s == nv.len() ==> nv.skip(s as int).len() == 0);
    let v = slice_chars(n.as_slice(), s, n.len());
    assert(v@ =~= after.skip(lead_separators(after) as int));
    if v.len() > 0 {
        Some(string_of(v.as_slice()))
    } else {
        Some(String::from_str("Unknown"))
    }
}

/// The version in a Proton directory's name, or nothing when the name's lower-case
/// form has a different byte layout up to `proton`, so that cutting the name there
/// would fail.
pub fn version_from_name(name: &str) -> (r: Option<String>)
    ensures
        match r {
            Some(v) => proton_cut(name@) is Some && v@ == version_from_name_spec(name@),
            None => proton_cut(name@) is None,
        },
{
    version_after_proton(name)
}

/// The version in a Proton directory's name (`GE-Proton10-28` gives `10-28`).
pub fn extract_version_from_name(name: &str) -> (r: String)
    requires
        proton_cut(name@) is Some,
    ensures
        r@ == version_from_name_spec(name@),
{
    match version_after_proton(name) {
        Some(v) => v,
        None => String::new(),
    }
}


// ---------------------------------------------------------------------------
// Disks
// ---------------------------------------------------------------------------

/// Mount points not worth showing for games.
pub open spec fn hidden_mount(m: Seq<char>) -> bool {
    starts_with(m, "/snap"@) || starts_with(m, "/boot"@) || m == "/efi"@
}

pub open spec fn disk_ok(d: DiskInfo, w: Seq<Seq<char>>) -> bool {
    &&& d.mount_point@ == w[0]
    &&& d.size@ == w[1]
    &&& d.used@ == w[2]
    &&& d.usage_percent@ == w[3]
}

/// The `df` lines (after the header) that describe a disk to show: four words or
/// more, the mount point not hidden.
pub open spec fn disk_rows(lines: Seq<Seq<char>>) -> Seq<Seq<Seq<char>>>
    decreases lines.len(),
{
    if lines.len() == 0 {
        Seq::<Seq<Seq<char>>>::empty()
    } else {
        let rest = disk_rows(lines.drop_last());
        let w = words(lines.last());
        if w.len() >= 4 && !hidden_mount(w[0]) {
            rest.push(w)
        } else {
            rest
        }
    }
}

/// The disks in the output of `df -h --output=target,size,used,pcent`: one per row,
/// mount point, size, used and percentage in that order.
pub fn disks_from_df(output: &str) -> (r: Vec<DiskInfo>)
    ensures
        ({
            let lines = text_lines(output@);
            let rows = disk_rows(if lines.len() > 0 { lines.skip(1) } else { lines });
            r@.len() == rows.len() && forall|i: int| 0 <= i < rows.len() ==> disk_ok(#[trigger] r@[i], rows[i])
        }),
{
    let lines = split_lines(chars_of(output).as_slice());
    let ghost lv = vecs_view(lines@);
    let ghost body = if lv.len() > 0 {
        lv.skip(1)
    } else {
        lv
    };
    let mut r: Vec<DiskInfo> = Vec::new();
    let snap = chars_of("/snap");
    let boot = chars_of("/boot");
    let efi = chars_of("/efi");
    if lines.len() == 0 {
        return r;
    }
    let mut i: usize = 1;
    assert(body.take(0) =~= Seq::<Seq<char>>::empty());
    while i < lines.len()
        invariant
            1 <= i <= lines@.len(),
            lv == vecs_view(lines@),
            lv == text_lines(output@),
            body == lv.skip(1),
            snap@ == "/snap"@,
            boot@ == "/boot"@,
            efi@ == "/efi"@,
            r@.len() == disk_rows(body.take(i - 1)).len(),
            forall|k: int|
                0 <= k < r@.len() ==> disk_ok(#[trigger] r@[k], disk_rows(body.take(i - 1))[k]),
        decreases lines@.len() - i,
    {
        assert(body.take(i as int).drop_last() =~= body.take(i - 1));
        assert(body.take(i as int).last() == lines@[i as int]@);
        let w = split_words(lines[i].as_slice());
        if w.len() >= 4 {
            let m = &w[0];
            assert(vecs_view(w@)[0] == w@[0]@);
            let hidden = has_prefix(m.as_slice(), snap.as_slice()) || has_prefix(
                m.as_slice(),
                boot.as_slice(),
            ) || chars_eq(m.as_slice(), efi.as_slice());
            if !hidden {
                assert(vecs_view(w@)[1] == w@[1]@);
                assert(vecs_view(w@)[2] == w@[2]@);
                assert(vecs_view(w@)[3] == w@[3]@);
                let d = DiskInfo {
                    mount_point: string_of(w[0].as_slice()),
                    size: string_of(w[1].as_slice()),
                    used: string_of(w[2].as_slice()),
                    usage_percent: string_of(w[3].as_slice()),
                };
                let ghost old_r = r@;
                r.push(d);
                proof {
                    let rows = disk_rows(body.take(i as int));
                    assert(rows == disk_rows(body.take(i - 1)).push(vecs_view(w@)));
                    assert forall|k: int| 0 <= k < r@.len() implies disk_ok(#[trigger] r@[k], rows[k]) by {
                        if k < old_r.len() {
                            assert(r@[k] == old_r[k]);
                        }
                    }
                }
            }
        }
        i += 1;
    }
    assert(body.take(lines@.len() - 1) =~= body);
    r
}

// ---------------------------------------------------------------------------
// zram
// ---------------------------------------------------------------------------

pub open spec fn round_half_even(num: nat, den: nat) -> nat
    recommends
        den > 0,
{
    let q = num / den;
    let r = num % den;
    if 2 * r > den {
        q + 1
    } else if 2 * r < den {
        q
    } else if q % 2 == 0 {
        q
    } else {
        q + 1
    }
}

pub open spec fn gib() -> nat {
    1073741824
}

pub open spec fn mib() -> nat {
    1048576
}

/// `x` tenths as text, one decimal: `12.3`.
pub open spec fn tenths_text(t: nat) -> Seq<char> {
    decimal_text(t / 10) + seq!['.'] + seq![digit_char(t % 10)]
}

/// A size in bytes for people, to a tenth: gibibytes from one GiB up, mebibytes below
/// (the tenth rounded half to even, as the float formatting of the quotient does).
pub open spec fn bytes_text(bytes: nat) -> Seq<char> {
    if bytes >= gib() {
        tenths_text(round_half_even(bytes * 10, gib())) + " GB"@
    } else {
        tenths_text(round_half_even(bytes * 10, mib())) + " MB"@
    }
}

fn round_half_even_of(num: u64, den: u64) -> (r: u64)
    requires
        den > 0,
        num < u64::MAX / 2,
    ensures
        r == round_half_even(num as nat, den as nat),
{
    let q = num / den;
    let r = num % den;
    if r > den - r {
        q + 1
    } else if r < den - r {
        q
    } else if q % 2 == 0 {
        q
    } else {
        q + 1
    }
}

fn tenths_of(t: u64) -> (r: Vec<char>)
    ensures
        r@ == tenths_text(t as nat),
{
    let mut r = decimal_of(t / 10);
    r.push('.');
    r.push(digit_of(t % 10));
    r
}

/// A size in bytes for people, to a tenth of a GB or MB.  The tenths are those of a
/// floating-point quotient rounded half to even, which this integer computation
/// matches for every count below 2^53 bytes.
pub fn format_bytes(bytes: u64) -> (r: String)
    requires
        bytes < 0x20_0000_0000_0000,
    ensures
        r@ == bytes_text(bytes as nat),
{
    let t = if bytes >= 1073741824 {
        round_half_even_of(bytes * 10, 1073741824)
    } else {
        round_half_even_of(bytes * 10, 1048576)
    };
    let unit = if bytes >= 1073741824 {
        chars_of(" GB")
    } else {
        chars_of(" MB")
    };
    string_of(concat(tenths_of(t).as_slice(), unit.as_slice()).as_slice())
}

/// The active algorithm in `comp_algorithm` (`lzo [zstd] lz4`): the one in brackets,
/// else the first word, else `Unknown`.
pub open spec fn algorithm_spec(text: Option<Seq<char>>) -> Seq<char> {
    match text {
        Some(s) => match (first_occurrence(s, seq!['[']), first_occurrence(s, seq![']'])) {
            (Some(a), Some(b)) => s.subrange(a + 1, b),
            _ => if words(s).len() > 0 {
                words(s)[0]
            } else {
                "Unknown"@
            },
        },
        None => "Unknown"@,
    }
}

/// Cutting between the brackets needs the `]` after the `[`.
pub open spec fn algorithm_text_ok(text: Option<Seq<char>>) -> bool {
    match text {
        Some(s) => match (first_occurrence(s, seq!['[']), first_occurrence(s, seq![']'])) {
            (Some(a), Some(b)) => a < b,
            _ => true,
        },
        None => true,
    }
}

pub fn zram_algorithm(text: Option<&str>) -> (r: String)
    requires
        algorithm_text_ok(
            match text {
                Some(s) => Some(s@),
                None => None,
            },
        ),
    ensures
        r@ == algorithm_spec(
            match text {
                Some(s) => Some(s@),
                None => None,
            },
        ),
{
    match text {
        Some(s) => {
            let c = chars_of(s);
            let open = vec!['['];
            let close = vec![']'];
            assert(open@ =~= seq!['[']);
            assert(close@ =~= seq![']']);
            match (find_seq(c.as_slice(), open.as_slice()), find_seq(c.as_slice(), close.as_slice())) {
                (Some(a), Some(b)) => string_of(slice_chars(c.as_slice(), a + 1, b).as_slice()),
                _ => {
                    let w = split_words(c.as_slice());
                    if w.len() > 0 {
                        assert(vecs_view(w@)[0] == w@[0]@);
                        string_of(w[0].as_slice())
                    } else {
                        String::from_str("Unknown")
                    }
                },
            }
        },
        None => String::from_str("Unknown"),
    }
}

/// A zram line of `/proc/swaps` with at least four words.
pub open spec fn zram_swap_line(l: Seq<char>) -> bool {
    contains_seq(l, "/dev/zram"@) && words(l).len() >= 4
}

/// Size and use in KiB of the first zram swap in `/proc/swaps`; `0` for what does
/// not read as a number, and both `0` without such a line.
pub open spec fn zram_swap_spec(swaps: Seq<char>) -> (u64, u64) {
    let lines = text_lines(swaps);
    if exists|i: int| 0 <= i < lines.len() && #[trigger] zram_swap_line(lines[i]) {
        let i = choose|i: int|
            0 <= i < lines.len() && #[trigger] zram_swap_line(lines[i]) && forall|j: int|
                0 <= j < i ==> !#[trigger] zram_swap_line(lines[j]);
        let w = words(lines[i]);
        (
            match parsed_u64(w[2]) {
                Some(v) => v,
                None => 0,
            },
            match parsed_u64(w[3]) {
                Some(v) => v,
                None => 0,
            },
        )
    } else {
        (0, 0)
    }
}

pub fn zram_swap_usage(swaps: &str) -> (r: (u64, u64))
    ensures
        r == zram_swap_spec(swaps@),
{
    let lines = split_lines(chars_of(swaps).as_slice());
    let ghost lv = vecs_view(lines@);
    let key = chars_of("/dev/zram");
    let mut i: usize = 0;
    while i < lines.len()
        invariant
            i <= lines@.len(),
            lv == vecs_view(lines@),
            lv == text_lines(swaps@),
            key@ == "/dev/zram"@,
            forall|j: int| 0 <= j < i ==> !#[trigger] zram_swap_line(lv[j]),
        decreases lines@.len() - i,
    {
        let has = contains_chars(lines[i].as_slice(), key.as_slice());
        let w = split_words(lines[i].as_slice());
        assert(lv[i as int] == lines@[i as int]@);
        if has && w.len() >= 4 {
            assert(zram_swap_line(lv[i as int]));
            proof {
                let k = choose|k: int|
                    0 <= k < lv.len() && #[trigger] zram_swap_line(lv[k]) && forall|j: int|
                        0 <= j < k ==> !#[trigger] zram_swap_line(lv[j]);
                if k < i {
                    assert(!zram_swap_line(lv[k]));
                }
                if k > i {
                    assert(!zram_swap_line(lv[i as int]));
                }
                assert(vecs_view(w@)[2] == w@[2]@);
                assert(vecs_view(w@)[3] == w@[3]@);
            }
            let total = match parse_u64(w[2].as_slice()) {
                Some(v) => v,
                None => 0,
            };
            let used = match parse_u64(w[3].as_slice()) {
                Some(v) => v,
                None => 0,
            };
            return (total, used);
        }
        i += 1;
    }
    (0, 0)
}

/// The zram summary from what was read: whether `/sys/block/zram0` exists, its
/// `disksize` and `comp_algorithm` files, and `/proc/swaps`.
pub open spec fn zram_ok(
    exists_dev: bool,
    disksize: Option<Seq<char>>,
    algorithm: Option<Seq<char>>,
    swaps: Option<Seq<char>>,
    r: ZramInfo,
) -> bool {
    let size = match disksize {
        Some(t) => match parsed_u64(trim(t)) {
            Some(v) => v,
            None => 0,
        },
        None => 0,
    };
    if !exists_dev || size == 0 {
        !r.enabled && r.size@.len() == 0 && r.algorithm@.len() == 0 && r.used@.len() == 0
            && r.usage_percent@.len() == 0
    } else {
        let (total, used) = match swaps {
            Some(s) => zram_swap_spec(s),
            None => (0u64, 0u64),
        };
        &&& r.enabled
        &&& r.size@ == bytes_text(size as nat)
        &&& r.algorithm@ == algorithm_spec(algorithm)
        &&& r.used@ == bytes_text(used as nat * 1024)
        &&& r.usage_percent@ == (if total > 0 {
            decimal_text(((used as int * 100) / (total as int)) as nat) + "%"@
        } else {
            "0%"@
        })
    }
}

pub open spec fn opt_str_view(o: Option<&str>) -> Option<Seq<char>> {
    match o {
        Some(s) => Some(s@),
        None => None,
    }
}

/// The zram readings that can be shown: when the device is there with a size, its
/// `comp_algorithm` text does not put `]` before `[` (the active algorithm could not
/// be cut out), and the sizes stay below 2^53 bytes, where the byte counts are
/// shown exactly.
pub open spec fn zram_inputs_ok(
    exists_dev: bool,
    disksize: Option<Seq<char>>,
    algorithm: Option<Seq<char>>,
    swaps: Option<Seq<char>>,
) -> bool {
    let size = match disksize {
        Some(t) => match parsed_u64(trim(t)) {
            Some(v) => v as int,
            None => 0,
        },
        None => 0,
    };
    let used = match swaps {
        Some(s) => zram_swap_spec(s).1 as int,
        None => 0,
    };
    exists_dev && size != 0 ==> algorithm_text_ok(algorithm) && size < 0x20_0000_0000_0000 && used
        * 1024 < 0x20_0000_0000_0000
}

/// Whether the readings can be shown (see `zram_inputs_ok`).
pub fn zram_inputs_fit(
    exists_dev: bool,
    disksize: Option<&str>,
    algorithm: Option<&str>,
    swaps: Option<&str>,
) -> (r: bool)
    ensures
        r == zram_inputs_ok(exists_dev, opt_str_view(disksize), opt_str_view(algorithm), opt_str_view(swaps)),
{
    if !exists_dev {
        return true;
    }
    let size: u64 = match disksize {
        Some(t) => match parse_u64(trim_chars(chars_of(t).as_slice()).as_slice()) {
            Some(v) => v,
            None => 0,
        },
        None => 0,
    };
    if size == 0 {
        return true;
    }
    let (_total, used) = match swaps {
        Some(s) => zram_swap_usage(s),
        None => (0, 0),
    };
    let algo_ok = match algorithm {
        Some(a) => {
            let c = chars_of(a);
            let open = vec!['['];
            let close = vec![']'];
            assert(open@ =~= seq!['[']);
            assert(close@ =~= seq![']']);
            match (find_seq(c.as_slice(), open.as_slice()), find_seq(c.as_slice(), close.as_slice())) {
                (Some(x), Some(y)) => x < y,
                _ => true,
            }
        },
        None => true,
    };
    algo_ok && size < 0x20_0000_0000_0000 && used < 0x20_0000_0000_0000 / 1024
}

/// The zram summary for the dialog.
pub fn zram_info(
    exists_dev: bool,
    disksize: Option<&str>,
    algorithm: Option<&str>,
    swaps: Option<&str>,
) -> (r: ZramInfo)
    requires
        zram_inputs_ok(exists_dev, opt_str_view(disksize), opt_str_view(algorithm), opt_str_view(swaps)),
    ensures
        zram_ok(exists_dev, opt_str_view(disksize), opt_str_view(algorithm), opt_str_view(swaps), r),
{
    if !exists_dev {
        return ZramInfo::disabled();
    }
    let size: u64 = match disksize {
        Some(t) => match parse_u64(trim_chars(chars_of(t).as_slice()).as_slice()) {
            Some(v) => v,
            None => 0,
        },
        None => 0,
    };
    if size == 0 {
        return ZramInfo::disabled();
    }
    let algo = zram_algorithm(algorithm);
    let (total, used) = match swaps {
        Some(s) => zram_swap_usage(s),
        None => (0, 0),
    };
    let percent = if total > 0 {
        let p = decimal_of(used * 100 / total);
        string_of(concat(p.as_slice(), chars_of("%").as_slice()).as_slice())
    } else {
        String::from_str("0%")
    };
    ZramInfo {
        enabled: true,
        size: format_bytes(size),
        algorithm: algo,
        used: format_bytes(used * 1024),
        usage_percent: percent,
    }
}


// ---------------------------------------------------------------------------
// The list of Proton builds
// ---------------------------------------------------------------------------

/// The directories searched for Proton builds, for the home directory `home`.
pub open spec fn proton_dirs(home: Seq<char>) -> Seq<Seq<char>> {
    seq![
        path_join(home, ".steam/steam/steamapps/common"@),
        path_join(home, ".local/share/Steam/steamapps/common"@),
        path_join(home, ".steam/root/compatibilitytools.d"@),
        path_join(home, ".steam/steam/compatibilitytools.d"@),
        path_join(home, ".local/share/Steam/compatibilitytools.d"@),
        path_join(home, ".steam/compatibilitytools.d"@),
        path_join(home, ".local/share/Steam/compatibility-tools.d"@),
        path_join(home, ".var/app/com.valvesoftware.Steam/data/Steam/compatibilitytools.d"@),
        path_join(home, "snap/steam/common/.steam/steam/compatibilitytools.d"@),
        "/usr/share/steam/compatibilitytools.d"@,
        "/usr/local/share/steam/compatibilitytools.d"@,
    ]
}

fn joined(home: &[char], rel: &str) -> (r: String)
    ensures
        r@ == path_join(home@, rel@),
{
    string_of(path_join_of(home, chars_of(rel).as_slice()).as_slice())
}

pub fn proton_search_paths(home: &str) -> (r: Vec<String>)
    ensures
        strings_view(r@) == proton_dirs(home@),
{
    let h = chars_of(home);
    let mut r: Vec<String> = Vec::new();
    r.push(joined(h.as_slice(), ".steam/steam/steamapps/common"));
    r.push(joined(h.as_slice(), ".local/share/Steam/steamapps/common"));
    r.push(joined(h.as_slice(), ".steam/root/compatibilitytools.d"));
    r.push(joined(h.as_slice(), ".steam/steam/compatibilitytools.d"));
    r.push(joined(h.as_slice(), ".local/share/Steam/compatibilitytools.d"));
    r.push(joined(h.as_slice(), ".steam/compatibilitytools.d"));
    r.push(joined(h.as_slice(), ".local/share/Steam/compatibility-tools.d"));
    r.push(joined(h.as_slice(), ".var/app/com.valvesoftware.Steam/data/Steam/compatibilitytools.d"));
    r.push(joined(h.as_slice(), "snap/steam/common/.steam/steam/compatibilitytools.d"));
    r.push(String::from_str("/usr/share/steam/compatibilitytools.d"));
    r.push(String::from_str("/usr/local/share/steam/compatibilitytools.d"));
    assert(strings_view(r@) =~= proton_dirs(home@));
    r
}

/// Does a directory of this name hold a Proton build (`proton` in its lower-case
/// name)?
pub fn is_proton_dir(name: &str) -> (r: bool)
    ensures
        r == contains_seq(unicode_lower(name@), "proton"@),
{
    contains_chars(lower_chars(chars_of(name).as_slice()).as_slice(), chars_of("proton").as_slice())
}

/// The entry of a Proton build: its directory's name and version, the version from
/// its `version` file when that gave one, else from its name.  Nothing when only
/// the name could give the version and it cannot be cut where `proton` ends.
pub fn proton_entry(name: &str, from_file: Option<String>) -> (r: Option<(String, String)>)
    ensures
        match from_file {
            Some(v) => r matches Some((n, w)) && n@ == name@ && w@ == v@,
            None => match proton_cut(name@) {
                Some(_) => r matches Some((n, w)) && n@ == name@ && w@ == version_from_name_spec(
                    name@,
                ),
                None => r is None,
            },
        },
{
    let n = string_of(chars_of(name).as_slice());
    match from_file {
        Some(v) => Some((n, v)),
        None => match version_from_name(name) {
            Some(v) => Some((n, v)),
            None => None,
        },
    }
}

/// `k` is the first entry of `input` with its name.
#[verifier::opaque]
pub open spec fn first_of_name(input: Seq<(String, String)>, k: int) -> bool {
    &&& 0 <= k < input.len()
    &&& forall|k2: int| 0 <= k2 < k ==> input[k2].0@ != input[k].0@
}

/// The names are in order and distinct.
#[verifier::opaque]
pub open spec fn names_sorted(r: Seq<(String, String)>) -> bool {
    forall|i: int, j: int|
        0 <= i < j < r.len() ==> lex_le(#[trigger] r[i].0@, #[trigger] r[j].0@) && r[i].0@ != r[j].0@
}

/// The Proton builds as listed: in name order, each name once, with the version of
/// its first entry; every name of the input is there.
pub open spec fn versions_listed(input: Seq<(String, String)>, r: Seq<(String, String)>) -> bool {
    &&& names_sorted(r)
    &&& forall|i: int| 0 <= i < r.len() ==> #[trigger] first_entry_of(input, r[i])
    &&& forall|k: int| 0 <= k < input.len() ==> #[trigger] has_name(r, input[k].0@)
}

/// `e` has the name and version of the first entry of `input` with its name.
pub open spec fn first_entry_of(input: Seq<(String, String)>, e: (String, String)) -> bool {
    exists|k: int| #[trigger] first_of_name(input, k) && input[k].0@ == e.0@ && input[k].1@ == e.1@
}

/// Some entry of `r` has the name `n`.
pub open spec fn has_name(r: Seq<(String, String)>, n: Seq<char>) -> bool {
    exists|a: int| 0 <= a < r.len() && (#[trigger] r[a]).0@ == n
}

fn name_in(r: &Vec<(String, String)>, name: &[char]) -> (found: bool)
    ensures
        found == has_name(r@, name@),
{
    let mut i: usize = 0;
    while i < r.len()
        invariant
            i <= r@.len(),
            forall|j: int| 0 <= j < i ==> (#[trigger] r@[j]).0@ != name@,
        decreases r@.len() - i,
    {
        if chars_eq(chars_of(r[i].0.as_str()).as_slice(), name) {
            return true;
        }
        i += 1;
    }
    false
}

/// The entries built from the first `i` of the input: in name order, each name
/// once, each the first entry of its name, every name seen so far there.
pub open spec fn listed_upto(input: Seq<(String, String)>, r: Seq<(String, String)>, i: int) -> bool {
    &&& 0 <= i <= input.len()
    &&& names_sorted(r)
    &&& forall|a: int|
        0 <= a < r.len() ==> exists|k: int|
            #[trigger] first_of_name(input, k) && k < i && input[k].0@ == (#[trigger] r[a]).0@
                && input[k].1@ == r[a].1@
    &&& forall|k: int| 0 <= k < i ==> #[trigger] has_name(r, input[k].0@)
}

proof fn lemma_listed_skip(input: Seq<(String, String)>, r: Seq<(String, String)>, i: int)
    requires
        listed_upto(input, r, i),
        i < input.len(),
        has_name(r, input[i].0@),
    ensures
        listed_upto(input, r, i + 1),
{
    assert forall|a: int| 0 <= a < r.len() implies exists|k: int|
        #[trigger] first_of_name(input, k) && k < i + 1 && input[k].0@ == (#[trigger] r[a]).0@
            && input[k].1@ == r[a].1@ by {
        let k = choose|k: int|
            #[trigger] first_of_name(input, k) && k < i && input[k].0@ == (#[trigger] r[a]).0@
                && input[k].1@ == r[a].1@;
    }
}

proof fn lemma_listed_insert(
    input: Seq<(String, String)>,
    r0: Seq<(String, String)>,
    i: int,
    p: int,
    x: (String, String),
)
    requires
        listed_upto(input, r0, i),
        i < input.len(),
        !has_name(r0, input[i].0@),
        0 <= p <= r0.len(),
        forall|a: int| 0 <= a < p ==> lex_le((#[trigger] r0[a]).0@, input[i].0@),
        p < r0.len() ==> !lex_le(r0[p].0@, input[i].0@),
        x.0@ == input[i].0@,
        x.1@ == input[i].1@,
    ensures
        listed_upto(input, r0.insert(p, x), i + 1),
{
    let r = r0.insert(p, x);
    let name = input[i].0@;
    reveal(names_sorted);
    assert(first_of_name(input, i)) by {
        reveal(first_of_name);
        assert forall|k2: int| 0 <= k2 < i implies input[k2].0@ != input[i].0@ by {
            assert(has_name(r0, input[k2].0@));
        }
    }
    if p < r0.len() {
        lemma_lex_total(r0[p].0@, name);
    }
    assert forall|a: int, b: int| 0 <= a < b < r.len() implies lex_le(
        #[trigger] r[a].0@,
        #[trigger] r[b].0@,
    ) && r[a].0@ != r[b].0@ by {
        if b < p {
            assert(r[a] == r0[a] && r[b] == r0[b]);
        } else if b == p {
            assert(r[a] == r0[a]);
        } else if a == p {
            assert(r[b] == r0[b - 1]);
            if b - 1 > p {
                assert(lex_le(r0[p].0@, r0[b - 1].0@));
                lemma_lex_trans(name, r0[p].0@, r0[b - 1].0@);
            }
        } else if a < p {
            assert(r[a] == r0[a] && r[b] == r0[b - 1]);
        } else {
            assert(r[a] == r0[a - 1] && r[b] == r0[b - 1]);
        }
    }
    assert forall|a: int| 0 <= a < r.len() implies exists|k: int|
        #[trigger] first_of_name(input, k) && k < i + 1 && input[k].0@ == (#[trigger] r[a]).0@
            && input[k].1@ == r[a].1@ by {
        if a == p {
            assert(r[a] == x);
        } else if a < p {
            assert(r[a] == r0[a]);
            let k = choose|k: int|
                #[trigger] first_of_name(input, k) && k < i && input[k].0@ == (#[trigger] r0[a]).0@
                    && input[k].1@ == r0[a].1@;
        } else {
            assert(r[a] == r0[a - 1]);
            let k = choose|k: int|
                #[trigger] first_of_name(input, k) && k < i && input[k].0@ == (
                #[trigger] r0[a - 1]).0@ && input[k].1@ == r0[a - 1].1@;
        }
    }
    assert forall|k: int| 0 <= k < i + 1 implies #[trigger] has_name(r, input[k].0@) by {
        if k == i {
            assert(r[p] == x);
        } else {
            assert(has_name(r0, input[k].0@));
            let a0 = choose|a: int| 0 <= a < r0.len() && (#[trigger] r0[a]).0@ == input[k].0@;
            if a0 < p {
                assert(r[a0] == r0[a0]);
            } else {
                assert(r[a0 + 1] == r0[a0]);
            }
        }
    }
}

/// Sorts the Proton builds by name and keeps the first of each name.
pub fn sort_and_dedup_versions(input: &Vec<(String, String)>) -> (r: Vec<(String, String)>)
    ensures
        versions_listed(input@, r@),
{
    let mut r: Vec<(String, String)> = Vec::new();
    let mut i: usize = 0;
    proof {
        reveal(names_sorted);
    }
    while i < input.len()
        invariant
            listed_upto(input@, r@, i as int),
        decreases input@.len() - i,
    {
        let name = chars_of(input[i].0.as_str());
        if name_in(&r, name.as_slice()) {
            proof {
                lemma_listed_skip(input@, r@, i as int);
            }
            i += 1;
        } else {
            let mut p: usize = 0;
            while p < r.len() && lex_le_chars(chars_of(r[p].0.as_str()).as_slice(), name.as_slice())
                invariant
                    p <= r@.len(),
                    i < input@.len(),
                    listed_upto(input@, r@, i as int),
                    !has_name(r@, input@[i as int].0@),
                    name@ == input@[i as int].0@,
                    forall|a: int| 0 <= a < p ==> lex_le((#[trigger] r@[a]).0@, name@),
                decreases r@.len() - p,
            {
                p += 1;
            }
            let ghost r0 = r@;
            let x = (string_of(name.as_slice()), string_of(chars_of(input[i].1.as_str()).as_slice()));
            r.insert(p, x);
            proof {
                lemma_listed_insert(input@, r0, i as int, p as int, x);
            }
            i += 1;
        }
    }
    proof {
        assert forall|a: int| 0 <= a < r@.len() implies #[trigger] first_entry_of(input@, r@[a]) by {
            let k = choose|k: int|
                #[trigger] first_of_name(input@, k) && k < i && input@[k].0@ == (#[trigger] r@[a]).0@
                    && input@[k].1@ == r@[a].1@;
        }
        assert(i == input@.len());
        assert(names_sorted(r@));
        assert(forall|k: int| 0 <= k < input@.len() ==> #[trigger] has_name(r@, input@[k].0@));
        assert(versions_listed(input@, r@));
    }
    r
}


// ---------------------------------------------------------------------------
// The whole dialog
// ---------------------------------------------------------------------------

/// The text read from the machine for the system information dialog: `None` where
/// a file could not be read or a program could not run.
pub struct SystemReadings {
    /// `/etc/os-release`.
    pub os_release: Option<String>,
    /// The output of `uname -r`.
    pub uname: Option<String>,
    /// `/proc/cpuinfo`.
    pub cpuinfo: Option<String>,
    /// The output of `free -h`.
    pub free: Option<String>,
    /// The output of `lspci -mm`.
    pub lspci: Option<String>,
    /// The output of `glxinfo -B`.
    pub glxinfo: Option<String>,
    /// The output of `vulkaninfo --summary`.
    pub vulkaninfo: Option<String>,
    /// `XDG_SESSION_TYPE`.
    pub session_type: Option<String>,
    /// The output of `wine --version`.
    pub wine_version: Option<String>,
    /// The output of `df` over the real file systems.
    pub df: Option<String>,
}

/// What the dialog shows for the readings: each value parsed from its reading,
/// with `Linux`, `Unknown` or `Not Available` where the reading is missing, the
/// Wine version when `wine` ran, and the disks when `df` ran.
pub open spec fn system_info_ok(
    rd: SystemReadings,
    proton: Seq<(String, String)>,
    zram: ZramInfo,
    r: GamingSystemInfo,
) -> bool {
    &&& r.os_name@ == match rd.os_release {
        Some(c) => os_name_spec(c@),
        None => "Linux"@,
    }
    &&& r.kernel_version@ == match rd.uname {
        Some(o) => trim(o@),
        None => "Unknown"@,
    }
    &&& r.cpu_model@ == match rd.cpuinfo {
        Some(c) => cpu_model_spec(c@),
        None => "Unknown"@,
    }
    &&& (r.memory_total@, r.memory_used@) == match rd.free {
        Some(o) => memory_spec(o@),
        None => ("Unknown"@, "Unknown"@),
    }
    &&& r.gpu_info@ == gpu_summary_spec(
        match rd.lspci {
            Some(o) => gpus_spec(o@),
            None => gpus_spec(Seq::empty()),
        },
    )
    &&& r.gpu_driver@ == match rd.glxinfo {
        Some(o) => driver_spec(o@),
        None => "Unknown"@,
    }
    &&& r.vulkan_info@ == match rd.vulkaninfo {
        Some(o) => vulkan_spec(o@),
        None => "Not Available"@,
    }
    &&& r.xdg_session_type@ == match rd.session_type {
        Some(t) => t@,
        None => "Unknown"@,
    }
    &&& match rd.wine_version {
        Some(o) => r.wine_versions@.len() == 1 && r.wine_versions@[0].0@ == "Wine"@
            && r.wine_versions@[0].1@ == trim(o@),
        None => r.wine_versions@.len() == 0,
    }
    &&& r.proton_versions@ == proton
    &&& match rd.df {
        Some(o) => {
            let lines = text_lines(o@);
            let rows = disk_rows(if lines.len() > 0 { lines.skip(1) } else { lines });
            r.disks@.len() == rows.len() && forall|i: int|
                0 <= i < rows.len() ==> disk_ok(#[trigger] r.disks@[i], rows[i])
        },
        None => r.disks@.len() == 0,
    }
    &&& r.zram == zram
}

/// Everything the system information dialog shows, from what was read from the
/// machine (see `system_info_ok`).
pub fn system_info_from(
    rd: &SystemReadings,
    proton_versions: Vec<(String, String)>,
    zram: ZramInfo,
) -> (r: GamingSystemInfo)
    ensures
        system_info_ok(*rd, proton_versions@, zram, r),
{
    let os_name = match &rd.os_release {
        Some(c) => os_name_from_release(c.as_str()),
        None => String::from_str("Linux"),
    };
    let kernel_version = match &rd.uname {
        Some(o) => string_of(trim_chars(chars_of(o.as_str()).as_slice()).as_slice()),
        None => String::from_str("Unknown"),
    };
    let cpu_model = match &rd.cpuinfo {
        Some(c) => cpu_model_from(c.as_str()),
        None => String::from_str("Unknown"),
    };
    let (memory_total, memory_used) = match &rd.free {
        Some(o) => memory_from_free(o.as_str()),
        None => (String::from_str("Unknown"), String::from_str("Unknown")),
    };
    let gpus = match &rd.lspci {
        Some(o) => gpus_from_lspci(o.as_str()),
        None => gpus_from_lspci(""),
    };
    proof {
        reveal_strlit("");
    }
    let gpu_info = gpu_summary(&gpus);
    let gpu_driver = match &rd.glxinfo {
        Some(o) => driver_from_glxinfo(o.as_str()),
        None => String::from_str("Unknown"),
    };
    let vulkan_info = match &rd.vulkaninfo {
        Some(o) => vulkan_from(o.as_str()),
        None => String::from_str("Not Available"),
    };
    let xdg_session_type = match &rd.session_type {
        Some(t) => string_of(chars_of(t.as_str()).as_slice()),
        None => String::from_str("Unknown"),
    };
    let mut wine_versions: Vec<(String, String)> = Vec::new();
    match &rd.wine_version {
        Some(o) => {
            wine_versions.push(
                (
                    String::from_str("Wine"),
                    string_of(trim_chars(chars_of(o.as_str()).as_slice()).as_slice()),
                ),
            );
        },
        None => {},
    }
    let disks = match &rd.df {
        Some(o) => disks_from_df(o.as_str()),
        None => Vec::new(),
    };
    GamingSystemInfo {
        os_name,
        kernel_version,
        cpu_model,
        memory_total,
        memory_used,
        gpu_info,
        gpu_driver,
        vulkan_info,
        xdg_session_type,
        wine_versions,
        proton_versions,
        disks,
        zram,
    }
}

} // verus!
