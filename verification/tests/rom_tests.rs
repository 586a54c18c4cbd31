use rhinco_tv::{gopher64, mupen64plus, simple64, snes9x};

#[test]
fn snes9x_test_extract_title_from_filename() {
    assert_eq!(
        snes9x::extract_title_from_filename("Super Mario World (USA).sfc"),
        "Super Mario World"
    );
    assert_eq!(
        snes9x::extract_title_from_filename("Chrono Trigger (USA) [!].smc"),
        "Chrono Trigger"
    );
    assert_eq!(
        snes9x::extract_title_from_filename("Donkey Kong Country.sfc"),
        "Donkey Kong Country"
    );
    assert_eq!(
        snes9x::extract_title_from_filename("Final Fantasy III (USA) (v1.1).smc"),
        "Final Fantasy III"
    );
}

#[test]
fn test_valid_snes_extensions() {
    assert!(snes9x::is_valid_extension("game.sfc"));
    assert!(snes9x::is_valid_extension("game.smc"));
    assert!(snes9x::is_valid_extension("game.fig"));
    assert!(snes9x::is_valid_extension("game.swc"));
    assert!(snes9x::is_valid_extension("game.bs"));
    assert!(snes9x::is_valid_extension("game.st"));
}

#[test]
fn test_invalid_extension_returns_false() {
    assert!(!snes9x::is_valid_extension("game.zip"));
    assert!(!snes9x::is_valid_extension("game.7z"));
    assert!(!snes9x::is_valid_extension("game.txt"));
    assert!(!snes9x::is_valid_extension("game.bin"));
}

#[test]
fn test_case_insensitive_extension() {
    assert!(snes9x::is_valid_extension("game.SFC"));
    assert!(snes9x::is_valid_extension("game.SmC"));
    assert!(snes9x::is_valid_extension("game.FIG"));
    assert!(snes9x::is_valid_extension("game.SWC"));
    assert!(snes9x::is_valid_extension("game.BS"));
    assert!(snes9x::is_valid_extension("game.ST"));
}

#[test]
fn gopher64_test_extract_title_from_filename() {
    assert_eq!(
        gopher64::extract_title_from_filename("Mario Kart 64 (E) (V1.1) [!].z64"),
        "Mario Kart 64"
    );
    assert_eq!(
        gopher64::extract_title_from_filename("Super Mario 64.z64"),
        "Super Mario 64"
    );
}

#[test]
fn mupen64plus_test_extract_title_from_filename() {
    assert_eq!(
        mupen64plus::extract_title_from_filename("Mario Kart 64 (E) (V1.1) [!].z64"),
        "Mario Kart 64"
    );
    assert_eq!(
        mupen64plus::extract_title_from_filename("Super Mario 64.z64"),
        "Super Mario 64"
    );
}

#[test]
fn test_7z_extension_not_matched() {
    assert!(!mupen64plus::is_valid_extension("test.7z"));
}

#[test]
fn simple64_test_extract_title_from_filename() {
    assert_eq!(
        simple64::extract_title_from_filename("Mario Kart 64 (E) (V1.1) [!].z64"),
        "Mario Kart 64"
    );
    assert_eq!(
        simple64::extract_title_from_filename("Super Mario 64.z64"),
        "Super Mario 64"
    );
    assert_eq!(
        simple64::extract_title_from_filename(
            "Legend of Zelda, The - Ocarina of Time (U) (V1.0) [!].z64"
        ),
        "Legend of Zelda, The - Ocarina of Time"
    );
}

#[test]
fn stray_closing_brackets_differ_between_emulators() {
    // A closing bracket with none open takes the depth below zero in the snes9x
    // family, so what follows is dropped until a bracket opens again.
    assert_eq!(snes9x::extract_title_from_filename("A)B(C.sfc"), "AC");
    assert_eq!(simple64::extract_title_from_filename("A)B(C.z64"), "AB");
    assert_eq!(snes9x::extract_title_from_filename("/roms/.hidden"), ".hidden");
    assert_eq!(snes9x::extract_title_from_filename("/"), "");
}

#[test]
fn n64_extensions_per_emulator() {
    assert!(gopher64::is_valid_extension("x.7z"));
    assert!(simple64::is_valid_extension("x.7Z"));
    assert!(mupen64plus::is_valid_extension("x.Z64"));
    assert!(!gopher64::is_valid_extension("z64"));
    assert!(!simple64::is_valid_extension("x.sfc"));
}

fn present<'a>(names: &'a [&'a str]) -> impl Fn(&str) -> bool + 'a {
    move |p: &str| names.contains(&p)
}

#[test]
fn test_find_cover_returns_first_match() {
    let names = ["/r/game.png", "/r/game.jpg"];
    assert_eq!(
        snes9x::find_cover("/r/game.sfc", present(&names)),
        Some("/r/game.png".to_string())
    );
    let names = ["/r/game.webp", "/r/game.jpeg"];
    assert_eq!(
        mupen64plus::find_cover("/r/game.z64", present(&names)),
        Some("/r/game.jpeg".to_string())
    );
    let names: [&str; 0] = [];
    assert_eq!(gopher64::find_cover("/r/game.z64", present(&names)), None);
}

#[test]
fn test_process_rom_creates_valid_entry() {
    let names: [&str; 0] = [];
    let entry = snes9x::process_rom("/roms/Super Mario World (USA).sfc", "snes9x", present(&names))
        .expect("entry");
    assert_eq!(entry.name, "Super Mario World");
    assert_eq!(entry.command, "snes9x -fullscreen \"/roms/Super Mario World (USA).sfc\"");
    assert_eq!(
        entry.launch_key,
        Some("snes9x:Super Mario World (USA).sfc".to_string())
    );
    assert_eq!(entry.icon, None);
}

#[test]
fn test_process_rom_with_gtk_binary() {
    let names = ["/roms/Chrono Trigger (USA).png"];
    let entry = snes9x::process_rom("/roms/Chrono Trigger (USA).sfc", "snes9x-gtk", present(&names))
        .expect("entry");
    assert_eq!(entry.name, "Chrono Trigger");
    assert!(entry.command.contains("snes9x-gtk"));
    assert!(!entry.command.contains("-fullscreen"));
    assert_eq!(entry.command, "snes9x-gtk  \"/roms/Chrono Trigger (USA).sfc\"");
    assert_eq!(entry.icon, Some("/roms/Chrono Trigger (USA).png".to_string()));
    assert_eq!(
        entry.launch_key,
        Some("snes9x:Chrono Trigger (USA).sfc".to_string())
    );
}

#[test]
fn other_emulators_build_their_commands() {
    let names: [&str; 0] = [];
    let e = mupen64plus::process_rom("/n/a (U).z64", present(&names)).unwrap();
    assert_eq!(e.command, "mupen64plus --fullscreen \"/n/a (U).z64\"");
    assert_eq!(e.launch_key, Some("mupen64plus:a (U).z64".to_string()));
    let e = gopher64::process_rom("/n/a.z64", present(&names)).unwrap();
    assert_eq!(e.command, "gopher64 --fullscreen \"/n/a.z64\"");
    assert_eq!(e.launch_key, Some("gopher64:a.z64".to_string()));
    let e = simple64::process_rom("/n/a.z64", present(&names)).unwrap();
    assert_eq!(e.command, "simple64-gui \"/n/a.z64\"");
    assert_eq!(e.launch_key, Some("simple64:a.z64".to_string()));
}

#[test]
fn test_get_snes9x_binary_basic() {
    assert_eq!(snes9x::get_snes9x_binary(true, true), Some("snes9x-gtk".to_string()));
    assert_eq!(snes9x::get_snes9x_binary(false, true), Some("snes9x".to_string()));
    assert_eq!(snes9x::get_snes9x_binary(false, false), None);
}

fn dirs<'a>(names: &'a [&'a str]) -> impl Fn(&str) -> bool + 'a {
    move |p: &str| names.contains(&p)
}

#[test]
fn snes9x_test_parse_config_single_rom_dir() {
    let names = ["/tmp/x/roms"];
    let r = snes9x::rom_dirs_from_config("[Files]\nLastDirectory = /tmp/x/roms\n", None, dirs(&names));
    assert_eq!(r, vec!["/tmp/x/roms".to_string()]);
}

#[test]
fn test_parse_config_multiple_entries() {
    let names = ["/tmp/x/roms"];
    let r = snes9x::rom_dirs_from_config(
        "[Files]\nLastDirectory = /tmp/x/roms\n[OtherSection]\nSomeKey = value\n",
        None,
        dirs(&names),
    );
    assert_eq!(r, vec!["/tmp/x/roms".to_string()]);
}

#[test]
fn test_parse_config_malformed_content() {
    let names = ["/tmp/x/roms"];
    let r = snes9x::rom_dirs_from_config("{ this is not INI format }", None, dirs(&names));
    assert!(r.is_empty());
}

#[test]
fn test_parse_config_filters_nonexistent_dirs() {
    let names = ["/tmp/x/roms"];
    let r = snes9x::rom_dirs_from_config("[Files]\nLastDirectory = /nonexistent/path\n", None, dirs(&names));
    assert!(r.is_empty());
}

#[test]
fn snes9x_test_parse_config_quoted_value() {
    let names = ["/tmp/x/roms"];
    let r = snes9x::rom_dirs_from_config("[Files]\nLastDirectory = \"/tmp/x/roms\"\n", None, dirs(&names));
    assert_eq!(r, vec!["/tmp/x/roms".to_string()]);
}

#[test]
fn test_parse_config_empty_value() {
    let names = [""];
    let r = snes9x::rom_dirs_from_config("[Files]\nLastDirectory =\n", None, dirs(&names));
    assert!(r.is_empty());
}

#[test]
fn test_parse_config_case_insensitive_key() {
    let names = ["/tmp/x/roms"];
    let r = snes9x::rom_dirs_from_config("[Files]\nLASTDIRECTORY = /tmp/x/roms\n", None, dirs(&names));
    assert_eq!(r, vec!["/tmp/x/roms".to_string()]);
}

#[test]
fn test_parse_config_with_comments() {
    let names = ["/tmp/x/roms"];
    let r = snes9x::rom_dirs_from_config(
        "; This is a comment\n# Another comment\n[Files]\nLastDirectory = /tmp/x/roms\n; More comments\n",
        None,
        dirs(&names),
    );
    assert_eq!(r, vec!["/tmp/x/roms".to_string()]);
}

#[test]
fn test_parse_config_tilde_expansion() {
    let names = ["/home/u/games/snes"];
    let r = snes9x::rom_dirs_from_config(
        "[Files]\nLastDirectory = ~//games/snes\n",
        Some("/home/u".to_string()),
        dirs(&names),
    );
    assert_eq!(r, vec!["/home/u/games/snes".to_string()]);
    let r = snes9x::rom_dirs_from_config("[Files]\nLastDirectory = ~/games/snes\n", None, dirs(&names));
    assert!(r.is_empty());
}

#[test]
fn snes9x_first_existing_directory_wins() {
    let names = ["/b", "/c"];
    let r = snes9x::rom_dirs_from_config(
        "[Files]\nLastDirectory=/a\nLastDirectory=/b\nLastDirectory=/c\n",
        None,
        dirs(&names),
    );
    assert_eq!(r, vec!["/b".to_string()]);
}

#[test]
fn fullscreen_on_open_is_switched_on() {
    assert!(matches!(
        snes9x::fullscreen_on_open_edit("a\nFullscreenOnOpen        = true\n"),
        snes9x::ConfigEdit::Done
    ));
    match snes9x::fullscreen_on_open_edit("x\nFullscreenOnOpen        = false\ny") {
        snes9x::ConfigEdit::Write(t) => assert_eq!(t, "x\nFullscreenOnOpen        = true\ny"),
        _ => panic!("expected a rewrite"),
    }
    assert!(matches!(
        snes9x::fullscreen_on_open_edit("FullscreenOnOpen = false"),
        snes9x::ConfigEdit::Next
    ));
}

#[test]
fn mupen64plus_test_parse_config_single_rom_dir() {
    let names = ["/t/roms"];
    let r = mupen64plus::rom_dirs_from_qt_config("[Paths]\nroms=/t/roms\n", None, dirs(&names));
    assert_eq!(r, vec!["/t/roms".to_string()]);
}

#[test]
fn test_parse_config_multiple_rom_dirs() {
    let names = ["/t/roms1", "/t/roms2", "/t/roms3"];
    let r = mupen64plus::rom_dirs_from_qt_config(
        "[Paths]\nroms=/t/roms1|/t/roms2|/t/roms3\n",
        None,
        dirs(&names),
    );
    assert_eq!(r.len(), 3);
    assert!(r.contains(&"/t/roms1".to_string()));
    assert!(r.contains(&"/t/roms2".to_string()));
    assert!(r.contains(&"/t/roms3".to_string()));
}

#[test]
fn mupen64plus_test_parse_config_mixed_existing_and_nonexistent() {
    let names = ["/t/roms"];
    let r = mupen64plus::rom_dirs_from_qt_config(
        "[Paths]\nroms=/nonexistent/path|/t/roms|/another/nonexistent\n",
        None,
        dirs(&names),
    );
    assert_eq!(r, vec!["/t/roms".to_string()]);
}

#[test]
fn test_parse_config_roms_not_in_paths_section() {
    let names = ["/t/roms"];
    let r = mupen64plus::rom_dirs_from_qt_config("[OtherSection]\nroms=/t/roms\n", None, dirs(&names));
    assert!(r.is_empty());
}

#[test]
fn mupen64plus_test_parse_config_quoted_value() {
    let names = ["/t/roms"];
    let r = mupen64plus::rom_dirs_from_qt_config("[Paths]\nroms=\"/t/roms\"\n", None, dirs(&names));
    assert_eq!(r, vec!["/t/roms".to_string()]);
}

#[test]
fn test_parse_config_at_invalid_marker() {
    let names = ["/t/roms"];
    let r = mupen64plus::rom_dirs_from_qt_config("[Paths]\nroms=@Invalid()\n", None, dirs(&names));
    assert!(r.is_empty());
}

#[test]
fn test_parse_config_empty_segments() {
    let names = ["/t/roms1", "/t/roms3"];
    let r = mupen64plus::rom_dirs_from_qt_config("[Paths]\nroms=/t/roms1||/t/roms3\n", None, dirs(&names));
    assert_eq!(r, vec!["/t/roms1".to_string(), "/t/roms3".to_string()]);
}

#[test]
fn test_parse_config_empty_roms_value() {
    let names = [""];
    let r = mupen64plus::rom_dirs_from_qt_config("[Paths]\nroms=\n", None, dirs(&names));
    assert!(r.is_empty());
}

#[test]
fn test_parse_config() {
    let names = ["/g/Games"];
    let (dir, recent) = simple64::parse_config(
        "[General]\nROMdir=/g/Games\nRecentROMs2=/g/Game1.z64, /o/Game2.z64\n",
        dirs(&names),
    );
    assert_eq!(dir, Some("/g/Games".to_string()));
    assert_eq!(recent.len(), 2);
    assert_eq!(recent[0], "/g/Game1.z64");
    assert_eq!(recent[1], "/o/Game2.z64");
}

#[test]
fn test_ensure_fullscreen_config() {
    assert_eq!(
        simple64::ensure_fullscreen_config("[Video-General]\nFullscreen = False\nOther = 1"),
        Some("[Video-General]\nFullscreen = True\nOther = 1".to_string())
    );
    assert_eq!(
        simple64::ensure_fullscreen_config("[Video-General]\nOther = 1"),
        Some("[Video-General]\nOther = 1\nFullscreen = True".to_string())
    );
    assert_eq!(
        simple64::ensure_fullscreen_config("[Video-General]\nFullscreen = True\nOther = 1"),
        None
    );
    assert_eq!(
        simple64::ensure_fullscreen_config("[Video-General]\n[Core]\nx=1"),
        Some("[Video-General]\nFullscreen = True\n[Core]\nx=1".to_string())
    );
}

#[test]
fn rom_dirs_are_sorted_once_each() {
    let dirs = vec![
        "/roms/snes".to_string(),
        "/home/u/roms".to_string(),
        "/roms/snes".to_string(),
        "/a".to_string(),
    ];
    assert_eq!(
        rhinco_tv::roms::sorted_unique_paths(&dirs),
        vec!["/a".to_string(), "/home/u/roms".to_string(), "/roms/snes".to_string()]
    );
}

#[test]
fn repeated_paths_keep_their_first_place() {
    let paths = vec![
        "/r/b.z64".to_string(),
        "/r/a.z64".to_string(),
        "/r/b.z64".to_string(),
        "/x/c.n64".to_string(),
    ];
    assert_eq!(
        rhinco_tv::roms::first_of_each_path(&paths),
        vec!["/r/b.z64".to_string(), "/r/a.z64".to_string(), "/x/c.n64".to_string()]
    );
}
