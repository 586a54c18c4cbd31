use rhinco_tv::heroic::{add_heroic_games, parse_heroic_library_json};
use rhinco_tv::json::{parse_json_bool, JsonValue};

#[test]
fn test_parse_heroic_library_json_filters_uninstalled() {
    let contents = r#"
    {
        "games": [
            {"app_name": "gog-1", "title": "GOG One", "is_installed": true, "runner": "gog"},
            {"app_name": "gog-2", "title": "GOG Two", "is_installed": false, "runner": "gog"}
        ]
    }
    "#;

    let games = parse_heroic_library_json(contents, "gog");
    assert_eq!(games.len(), 1);
    assert_eq!(games[0].app_name, "gog-1");
    assert_eq!(games[0].title, "GOG One");
    assert_eq!(games[0].store, "gog");
}

#[test]
fn test_parse_sideload_array_format() {
    let contents = r#"
    [
        {
            "app_name": "Sideload1",
            "title": "My Sideloaded Game",
            "runner": "wine",
            "is_installed": true
        }
    ]
    "#;

    let games = parse_heroic_library_json(contents, "sideload");
    assert_eq!(games.len(), 1);
    assert_eq!(games[0].app_name, "Sideload1");
    assert_eq!(games[0].title, "My Sideloaded Game");
    assert_eq!(games[0].store, "wine");
}

#[test]
fn test_parse_library_with_art_cover() {
    let contents = r#"
    {
        "games": [
            {
                "runner": "sideload",
                "app_name": "testAppId",
                "title": "Robot Arena 2",
                "art_cover": "https://example.com/cover.png",
                "art_square": "https://example.com/square.png",
                "is_installed": true
            }
        ]
    }
    "#;

    let games = parse_heroic_library_json(contents, "sideload");
    assert_eq!(games.len(), 1);
    assert_eq!(games[0].app_name, "testAppId");
    assert_eq!(games[0].title, "Robot Arena 2");
    assert_eq!(games[0].store, "sideload");
    assert_eq!(games[0].launch_key, "heroic:sideload:testAppId");
    assert_eq!(
        games[0].art_cover,
        Some("https://example.com/cover.png".to_string())
    );
}

#[test]
fn keyed_objects_take_their_key_as_app_name() {
    let contents = r#"
    {
        "installed": {
            "Fortnite": {"title": "  Fortnite ", "install": {"is_installed": "TRUE", "executable": "/games/fn/FortniteLauncher.exe"}}
        }
    }
    "#;
    let games = parse_heroic_library_json(contents, "legendary");
    assert_eq!(games.len(), 1);
    assert_eq!(games[0].app_name, "Fortnite");
    assert_eq!(games[0].title, "Fortnite");
    assert_eq!(games[0].store, "legendary");
    assert_eq!(games[0].launch_key, "heroic:legendary:Fortnite");
    assert_eq!(games[0].executable, Some("FortniteLauncher.exe".to_string()));
    assert_eq!(games[0].art_cover, None);
}

#[test]
fn broken_and_unnamed_entries_give_nothing() {
    assert!(parse_heroic_library_json("{ not json", "gog").is_empty());
    let contents = r#"[{"app_name": "  ", "title": "X", "installed": true},
                       {"app_name": "a", "installed": true},
                       {"app_name": "b", "title": "B"}]"#;
    assert!(parse_heroic_library_json(contents, "gog").is_empty());
}

#[test]
fn json_booleans_accept_strings_in_any_case() {
    let values = vec![
        JsonValue::Str("TRUE".to_string()),
        JsonValue::Str("1".to_string()),
        JsonValue::Str("false".to_string()),
        JsonValue::Str("0".to_string()),
        JsonValue::Bool(true),
        JsonValue::Str("yes".to_string()),
        JsonValue::Number("1".to_string()),
        JsonValue::Null,
    ];
    let got: Vec<Option<bool>> = values.iter().map(parse_json_bool).collect();
    assert_eq!(
        got,
        vec![Some(true), Some(true), Some(false), Some(false), Some(true), None, None, None]
    );
}

#[test]
fn app_names_are_added_once_and_tools_skipped() {
    let contents = r#"[
        {"app_name": "g1", "title": "Game One", "runner": "gog", "is_installed": true, "art_square": "sq.png"},
        {"app_name": "g1", "title": "Game One Again", "runner": "gog", "is_installed": true},
        {"app_name": "228980", "title": "Steamworks Common Redistributables", "is_installed": true},
        {"app_name": "w 1", "title": "Wine Game", "runner": "wine", "is_installed": true}
    ]"#;
    let found = parse_heroic_library_json(contents, "gog");
    assert_eq!(found.len(), 4);
    let mut seen = vec!["w 1".to_string()];
    let mut games = Vec::new();
    add_heroic_games(found, &mut seen, &mut games);
    assert_eq!(seen, vec!["w 1".to_string(), "g1".to_string()]);
    assert_eq!(games.len(), 1);
    assert_eq!(games[0].name, "Game One");
    assert_eq!(games[0].command, "xdg-open heroic://launch/gog/g1");
    assert_eq!(games[0].icon, Some("sq.png".to_string()));
    assert_eq!(games[0].launch_key, Some("heroic:gog:g1".to_string()));
}
