//! Nintendo 64 games for the gopher64 emulator.
use vstd::prelude::*;

use crate::model::AppEntry;
use crate::paths::{extension, lower_extension_of};
use crate::roms::{
    chars_one_of, cover_choice_ok, launch_key_for, one_of, quoted_command, quoted_command_of,
    rom_entry_ok, rom_launch_key, rom_title, title_from_filename,
};
use crate::text::{ascii_lower, chars_of, vecs_view};

verus! {

/// The file extensions of N64 ROMs that gopher64 opens (compared in lower case).
pub open spec fn gopher_extensions() -> Seq<Seq<char>> {
    seq!["z64"@, "n64"@, "v64"@, "zip"@, "7z"@]
}

/// Is the file at `path` an N64 ROM that gopher64 opens, judged by its extension in
/// any case?
pub fn is_valid_extension(path: &str) -> (r: bool)
    ensures
        r == (extension(path@) is Some && one_of(
            ascii_lower(extension(path@)->0),
            gopher_extensions(),
        )),
{
    let mut set: Vec<Vec<char>> = Vec::new();
    set.push(chars_of("z64"));
    set.push(chars_of("n64"));
    set.push(chars_of("v64"));
    set.push(chars_of("zip"));
    set.push(chars_of("7z"));
    assert(vecs_view(set@) =~= gopher_extensions());
    match lower_extension_of(chars_of(path).as_slice()) {
        Some(e) => chars_one_of(e.as_slice(), &set),
        None => false,
    }
}

/// The game's title: the ROM's file stem without the parts in `( )` and `[ ]`.
pub fn extract_title_from_filename(path: &str) -> (r: String)
    requires
        path@.len() < i32::MAX,
    ensures
        r@ == rom_title(path@, true),
{
    title_from_filename(path, true)
}

/// The cover beside the ROM: the first of `game.png`, `game.jpg`, `game.jpeg`,
/// `game.webp` that `is_present` reports.
pub fn find_cover<F: Fn(&str) -> bool>(rom_path: &str, is_present: F) -> (r: Option<String>)
    requires
        forall|s: &str| call_requires(is_present, (s,)),
    ensures
        cover_choice_ok(rom_path@, is_present, r),
{
    crate::roms::find_cover(rom_path, is_present)
}

/// The launcher entry of the ROM at `path`.
pub fn process_rom<F: Fn(&str) -> bool>(path: &str, is_present: F) -> (r: Option<AppEntry>)
    requires
        path@.len() < i32::MAX,
        forall|s: &str| call_requires(is_present, (s,)),
    ensures
        r matches Some(e) && rom_entry_ok(
            e,
            rom_title(path@, true),
            quoted_command("gopher64 --fullscreen "@, path@),
            e.icon,
            rom_launch_key("gopher64"@, path@),
        ) && cover_choice_ok(path@, is_present, e.icon),
{
    let title = extract_title_from_filename(path);
    let cover = find_cover(path, is_present);
    let p = chars_of(path);
    let command = quoted_command_of("gopher64 --fullscreen ", p.as_slice());
    let key = launch_key_for("gopher64", p.as_slice());
    Some(AppEntry::new(title, command, cover).with_launch_key(key))
}

} // verus!
