use freedesktop_desktop_entry::DesktopEntry;
use rhinco_tv::desktop_apps::{
    app_from_desktop_fields, clean_exec_code, convert_entry, first_icon_found, pixmap_fallback,
    search_name_of, themes_in_search_order,
};

#[test]
fn test_clean_exec() {
    assert_eq!(clean_exec_code("vlc %U"), "vlc");
    assert_eq!(clean_exec_code("eog %f"), "eog");
    assert_eq!(clean_exec_code("my-app --arg %i"), "my-app --arg");
}

#[test]
fn clean_exec_collapses_whitespace() {
    assert_eq!(clean_exec_code("  gimp   %U  --new "), "gimp --new");
    assert_eq!(clean_exec_code("%F"), "");
}

#[test]
fn search_name_strips_image_extensions_only() {
    assert_eq!(search_name_of("firefox.png"), "firefox");
    assert_eq!(search_name_of("logo.SVG"), "logo");
    assert_eq!(search_name_of("app.JpEg"), "app");
    assert_eq!(search_name_of("org.gnome.Terminal"), "org.gnome.Terminal");
    assert_eq!(search_name_of("steam"), "steam");
    assert_eq!(search_name_of("a.b.xpm"), "a.b");
}

#[test]
fn hicolor_is_searched_first_and_once() {
    let installed = vec![
        "Adwaita".to_string(),
        "HiColor".to_string(),
        "Papirus".to_string(),
    ];
    assert_eq!(
        themes_in_search_order(installed),
        vec!["hicolor".to_string(), "Adwaita".to_string(), "Papirus".to_string()]
    );
    assert_eq!(themes_in_search_order(Vec::new()), vec!["hicolor".to_string()]);
}

#[test]
fn icon_search_tries_all_themes_before_a_smaller_size() {
    let themes = vec!["hicolor".to_string(), "Papirus".to_string()];
    let found = first_icon_found(&themes, |size: u16, theme: &str| {
        if theme == "Papirus" && size <= 64 {
            Some(format!("/icons/{}/{}.png", theme, size))
        } else if theme == "hicolor" && size <= 48 {
            Some(format!("/icons/{}/{}.png", theme, size))
        } else {
            None
        }
    });
    assert_eq!(found, Some("/icons/Papirus/64.png".to_string()));
    let none = first_icon_found(&themes, |_size: u16, _theme: &str| None);
    assert_eq!(none, None);
}

#[test]
fn pixmap_fallback_takes_the_first_present_file() {
    let r = pixmap_fallback("foo", |p: &str| {
        p == "/usr/share/pixmaps/foo.xpm" || p == "/usr/share/pixmaps/foo.jpg"
    });
    assert_eq!(r, Some("/usr/share/pixmaps/foo.xpm".to_string()));
    assert_eq!(pixmap_fallback("foo", |_p: &str| false), None);
}

#[test]
fn desktop_fields_become_an_app_entry() {
    let e = app_from_desktop_fields(
        false,
        Some("Application".to_string()),
        Some("VLC".to_string()),
        Some("vlc %U".to_string()),
        Some("vlc.png".to_string()),
        |n: &str| {
            if n == "vlc" {
                Some("/icons/vlc.png".to_string())
            } else {
                None
            }
        },
        |_p: &str| false,
    )
    .expect("an application entry");
    assert_eq!(e.name, "VLC");
    assert_eq!(e.command, "vlc");
    assert_eq!(e.icon, Some("/icons/vlc.png".to_string()));
}

#[test]
fn absolute_icons_and_pixmaps() {
    let e = app_from_desktop_fields(
        false,
        Some("Application".to_string()),
        Some("Tool".to_string()),
        Some("tool".to_string()),
        Some("/opt/tool/icon.png".to_string()),
        |_n: &str| None,
        |_p: &str| false,
    )
    .unwrap();
    assert_eq!(e.icon, Some("/opt/tool/icon.png".to_string()));
    let e = app_from_desktop_fields(
        false,
        Some("Application".to_string()),
        Some("Tool".to_string()),
        Some("tool".to_string()),
        Some("tool".to_string()),
        |_n: &str| None,
        |p: &str| p == "/usr/share/pixmaps/tool.svg",
    )
    .unwrap();
    assert_eq!(e.icon, Some("/usr/share/pixmaps/tool.svg".to_string()));
}

#[test]
fn hidden_links_and_incomplete_entries_are_skipped() {
    let none = |_n: &str| None;
    let no = |_p: &str| false;
    let app = Some("Application".to_string());
    let name = Some("A".to_string());
    let exec = Some("a".to_string());
    assert!(app_from_desktop_fields(true, app.clone(), name.clone(), exec.clone(), None, none, no)
        .is_none());
    assert!(app_from_desktop_fields(
        false,
        Some("Link".to_string()),
        name.clone(),
        exec.clone(),
        None,
        none,
        no
    )
    .is_none());
    assert!(app_from_desktop_fields(false, app.clone(), None, exec.clone(), None, none, no)
        .is_none());
    assert!(app_from_desktop_fields(false, app.clone(), name.clone(), None, None, none, no)
        .is_none());
    let e = app_from_desktop_fields(false, app, name, exec, None, none, no).unwrap();
    assert_eq!(e.icon, None);
}

fn entry(text: &str) -> DesktopEntry {
    DesktopEntry::from_str("/usr/share/applications/test.desktop", text, Some(&[] as &[&str]))
        .expect("a desktop entry")
}

#[test]
fn parsed_desktop_entries_become_launcher_entries() {
    let e = entry(
        "[Desktop Entry]\nType=Application\nName=Foo Player\nExec=foo-player --play %U\nIcon=/opt/foo/icon.png\n",
    );
    let app = convert_entry(&e, |_p: &str| false).expect("an application");
    assert_eq!(app.name, "Foo Player");
    assert_eq!(app.command, "foo-player --play");
    assert_eq!(app.icon, Some("/opt/foo/icon.png".to_string()));

    let hidden = entry("[Desktop Entry]\nType=Application\nName=Hidden\nExec=h\nNoDisplay=true\n");
    assert!(convert_entry(&hidden, |_p: &str| false).is_none());
    let link = entry("[Desktop Entry]\nType=Link\nName=Site\nURL=https://example.com\n");
    assert!(convert_entry(&link, |_p: &str| false).is_none());
    let nameless = entry("[Desktop Entry]\nType=Application\nExec=x\n");
    assert!(convert_entry(&nameless, |_p: &str| false).is_none());
}

#[test]
fn unknown_icons_fall_back_to_pixmaps() {
    let e = entry(
        "[Desktop Entry]\nType=Application\nName=Odd\nExec=odd\nIcon=zz-no-such-icon-qx7.svg\n",
    );
    let app = convert_entry(&e, |p: &str| p == "/usr/share/pixmaps/zz-no-such-icon-qx7.xpm")
        .expect("an application");
    assert_eq!(app.icon, Some("/usr/share/pixmaps/zz-no-such-icon-qx7.xpm".to_string()));
}

#[test]
fn found_icons_are_image_files() {
    for name in ["firefox", "utilities-terminal", "no-such-icon-anywhere"] {
        if let Some(p) = rhinco_tv::desktop_apps::resolve_icon_path(name) {
            assert!(p.ends_with(".png") || p.ends_with(".svg") || p.ends_with(".xmp"));
        }
    }
}

#[test]
fn the_home_directory_is_never_empty() {
    if let Some(h) = rhinco_tv::user_dirs::home_dir() {
        assert!(!h.is_empty());
    }
}
