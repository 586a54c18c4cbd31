use rhinco_tv::artwork::{
    cover_query_of, extension_of_url, first_grid_url, first_image_src, image_attempts,
    lookup_appid, pick_sgdb_game, sgdb_game_for_appid, sgdb_grids_url, sgdb_search_url,
    sgdb_steam_url, GridData, ImageAttempt, ImageCache, SgdbGame,
};

fn cache() -> ImageCache {
    ImageCache { cache_dir: "/home/u/.cache/grids".to_string() }
}

#[test]
fn names_are_made_safe_for_files() {
    let c = cache();
    assert_eq!(c.sanitize_name("Half-Life 2: Episode One"), "Half-Life_2__Episode_One");
    assert_eq!(c.sanitize_name("Café/Ünïcode"), "Café_Ünïcode");
    assert_eq!(c.sanitize_name(""), "");
}

#[test]
fn image_paths_live_in_the_cache_dir() {
    let c = cache();
    assert_eq!(c.get_image_path("Celeste", "png"), "/home/u/.cache/grids/Celeste.png");
    let slash = ImageCache { cache_dir: "/tmp/grids/".to_string() };
    assert_eq!(slash.get_image_path("A B", "jpg"), "/tmp/grids/A_B.jpg");
    assert_eq!(
        c.save_path("Celeste", "https://cdn.example.com/grid/abc.webp"),
        "/home/u/.cache/grids/Celeste.webp"
    );
}

#[test]
fn url_extensions() {
    assert_eq!(extension_of_url("https://x.org/a/b.jpeg"), "jpeg");
    assert_eq!(extension_of_url("noextension"), "noextension");
    assert_eq!(extension_of_url("https://x.org/img"), "org/img");
}

#[test]
fn existing_images_are_found_in_preference_order() {
    let c = cache();
    let r = c.find_existing_image("Celeste", |p: &str| {
        p.ends_with("Celeste.jpeg") || p.ends_with("Celeste.webp")
    });
    assert_eq!(r, Some("/home/u/.cache/grids/Celeste.jpeg".to_string()));
    assert_eq!(c.find_existing_image("Celeste", |_p: &str| false), None);
}

#[test]
fn attempts_come_in_order() {
    let all = image_attempts(Some("https://img/cover.png"), Some(" 504230 "));
    assert_eq!(all.len(), 5);
    assert!(matches!(all[0], ImageAttempt::Cached));
    assert!(matches!(&all[1], ImageAttempt::SourceUrl { url } if url == "https://img/cover.png"));
    assert!(matches!(&all[2], ImageAttempt::SgdbSteamId { appid } if appid == "504230"));
    assert!(matches!(all[3], ImageAttempt::SgdbName));
    assert!(matches!(all[4], ImageAttempt::Searxng));
    let few = image_attempts(None, Some("   "));
    assert_eq!(few.len(), 3);
    assert!(matches!(few[1], ImageAttempt::SgdbName));
    assert_eq!(lookup_appid(Some(" 42")), Some("42".to_string()));
    assert_eq!(lookup_appid(None), None);
}

#[test]
fn queries_and_urls() {
    assert_eq!(cover_query_of("Limbo"), "Limbo game cover");
    assert_eq!(
        sgdb_search_url("Half-Life 2: Ep"),
        "https://www.steamgriddb.com/api/v2/search/autocomplete/Half-Life%202%3A%20Ep"
    );
    assert_eq!(sgdb_steam_url(" 48000 "), "https://www.steamgriddb.com/api/v2/games/steam/48000");
    assert_eq!(sgdb_grids_url(5023), "https://www.steamgriddb.com/api/v2/grids/game/5023");
}

#[test]
fn search_picks_exact_name_else_first() {
    let games = vec![
        SgdbGame { id: 1, name: "Celeste Classic".to_string() },
        SgdbGame { id: 2, name: "CELESTE".to_string() },
        SgdbGame { id: 3, name: "celeste".to_string() },
    ];
    assert_eq!(pick_sgdb_game(true, &games, "Celeste"), Some(2));
    assert_eq!(pick_sgdb_game(true, &games, "Other"), Some(1));
    assert_eq!(pick_sgdb_game(false, &games, "Celeste"), None);
    assert_eq!(pick_sgdb_game(true, &Vec::new(), "Celeste"), None);
    assert_eq!(sgdb_game_for_appid(true, 7), Some(7));
    assert_eq!(sgdb_game_for_appid(false, 7), None);
}

#[test]
fn first_grid_and_first_image() {
    let grids = vec![GridData { url: "a.png".to_string() }, GridData { url: "b.png".to_string() }];
    assert_eq!(first_grid_url(true, &grids), Some("a.png".to_string()));
    assert_eq!(first_grid_url(false, &grids), None);
    let results = vec![None, Some(String::new()), Some("x.jpg".to_string()), Some("y.jpg".to_string())];
    assert_eq!(first_image_src(&results), Some("x.jpg".to_string()));
    assert_eq!(first_image_src(&vec![None, Some(String::new())]), None);
}

#[test]
fn downloaded_covers_are_decoded_and_scaled() {
    let mut png = std::io::Cursor::new(Vec::new());
    image::DynamicImage::ImageRgb8(image::RgbImage::new(40, 80))
        .write_to(&mut png, image::ImageFormat::Png)
        .unwrap();
    let cover = rhinco_tv::artwork::cover_from_bytes(png.get_ref(), 20, 20).unwrap();
    assert_eq!((cover.width(), cover.height()), (10, 20));
    assert!(rhinco_tv::artwork::cover_from_bytes(b"<html>not found</html>", 20, 20).is_none());
}
