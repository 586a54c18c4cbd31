use rhinco_tv::game_sources::{
    appid_from_manifest_path, encode_uri_component, extract_quoted_strings, heroic_exec,
    is_ignored_app, is_manifest_file, normalize_vdf_path, parse_library_folders,
    parse_steam_manifest, steam_entry, SteamManifest,
};
use rhinco_tv::system_info::{
    cpu_model_from, decimal_of, disks_from_df, driver_from_glxinfo, extract_version_from_name,
    format_bytes, gpu_summary, gpus_from_lspci, memory_from_free, os_name_from_release,
    read_proton_version_file, version_from_name, vulkan_from, zram_algorithm, zram_info,
    zram_swap_usage, is_proton_dir, proton_entry, proton_search_paths, sort_and_dedup_versions,
    system_info_from, zram_inputs_fit, SystemReadings, ZramInfo,
};

#[test]
fn test_parse_library_folders_extracts_paths() {
    let contents = r#"
        "libraryfolders"
        {
            "1"
            {
                "path" "/mnt/games"
            }
            "2" "/home/test/Steam"
        }
        "#;
    let paths = parse_library_folders(contents);
    assert!(paths.contains(&"/mnt/games".to_string()));
    assert!(paths.contains(&"/home/test/Steam".to_string()));
}

#[test]
fn test_parse_steam_manifest_extracts_name_and_appid() {
    let contents = r#"
        "AppState"
        {
            "appid" "570"
            "name" "Dota 2"
        }
        "#;
    let manifest = parse_steam_manifest(contents).expect("manifest parsed");
    assert_eq!(manifest.appid, "570");
    assert_eq!(manifest.name, "Dota 2");
}

#[test]
fn test_is_ignored_app() {
    assert!(is_ignored_app("Proton Experimental", "1493710"));
    assert!(is_ignored_app("Steam Linux Runtime - Sniper", "1628350"));
    assert!(!is_ignored_app("My Game", "123456"));
}

#[test]
fn ignored_apps_by_name() {
    assert!(is_ignored_app("DXVK", "1"));
    assert!(is_ignored_app("anything", "228980"));
    assert!(is_ignored_app("GE-PROTON 9", "2"));
    assert!(!is_ignored_app("dxvk tools", "3"));
}

#[test]
fn test_heroic_exec_handles_sideload_runners() {
    assert_eq!(heroic_exec("wine", "App1"), "xdg-open heroic://launch/App1");
    assert_eq!(heroic_exec("native", "App2"), "xdg-open heroic://launch/App2");
    assert_eq!(heroic_exec("sideload", "App3"), "xdg-open heroic://launch/App3");
    assert_eq!(
        heroic_exec("legendary", "App4"),
        "xdg-open heroic://launch/legendary/App4"
    );
}

#[test]
fn uri_components_are_percent_encoded() {
    assert_eq!(encode_uri_component("a b/c~d"), "a%20b%2Fc~d");
    assert_eq!(encode_uri_component("é"), "%C3%A9");
    assert_eq!(heroic_exec("", "My Game"), "xdg-open heroic://launch/My%20Game");
}

#[test]
fn quoted_strings_honour_escapes() {
    assert_eq!(
        extract_quoted_strings(r#""path"  "C:\\Games\"x" "open"#),
        vec!["path".to_string(), "C:\\Games\"x".to_string()]
    );
    assert!(extract_quoted_strings("no quotes").is_empty());
}

#[test]
fn manifest_needs_a_name() {
    assert!(parse_steam_manifest("\"appid\" \"1\"\n\"name\" \"  \"").is_none());
    let m = parse_steam_manifest("\"name\" \" Portal \"").unwrap();
    assert_eq!(m.appid, "");
    assert_eq!(m.name, "Portal");
}

#[test]
fn manifest_files_and_ids() {
    assert!(is_manifest_file("/lib/steamapps/appmanifest_570.acf"));
    assert!(!is_manifest_file("/lib/steamapps/libraryfolders.vdf"));
    assert_eq!(
        appid_from_manifest_path("/lib/appmanifest_570.acf"),
        Some("570".to_string())
    );
    assert_eq!(appid_from_manifest_path("/lib/appmanifest_x1.acf"), None);
    assert_eq!(normalize_vdf_path("D:\\\\Steam"), "D:\\Steam");
}

#[test]
fn steam_entries_use_the_app_id() {
    let e = steam_entry(
        Some("570".to_string()),
        SteamManifest { appid: String::new(), name: "Dota 2".to_string() },
    )
    .unwrap();
    assert_eq!(e.command, "steam -applaunch 570");
    assert_eq!(e.launch_key, Some("steam:570".to_string()));
    assert_eq!(e.steam_appid, Some("570".to_string()));
    let from_manifest = steam_entry(
        Some("1".to_string()),
        SteamManifest { appid: "730".to_string(), name: "Counter-Strike 2".to_string() },
    )
    .unwrap();
    assert_eq!(from_manifest.steam_appid, Some("730".to_string()));
    assert!(steam_entry(
        None,
        SteamManifest { appid: "1493710".to_string(), name: "Proton Experimental".to_string() }
    )
    .is_none());
    assert!(steam_entry(None, SteamManifest { appid: String::new(), name: "X".to_string() }).is_none());
}

#[test]
fn system_text_parsers() {
    assert_eq!(
        os_name_from_release("NAME=Arch\nPRETTY_NAME=\"Arch Linux\"\n"),
        "Arch Linux"
    );
    assert_eq!(os_name_from_release("NAME=x\n"), "Linux");
    assert_eq!(
        cpu_model_from("processor\t: 0\nmodel name\t: AMD Ryzen 7 5800X\n"),
        "AMD Ryzen 7 5800X"
    );
    assert_eq!(cpu_model_from("flags: x\n"), "Unknown");
    assert_eq!(
        memory_from_free("               total        used\nMem:            31Gi       4,2Gi\nSwap: 1 2\n"),
        ("31Gi".to_string(), "4,2Gi".to_string())
    );
    assert_eq!(
        memory_from_free("nothing"),
        ("Unknown".to_string(), "Unknown".to_string())
    );
}

#[test]
fn graphics_parsers() {
    let lspci = "00:02.0 \"VGA compatible controller\" \"Intel Corporation\" \"HD Graphics 530\" -r06\n00:1f.3 \"Audio device\" \"Intel\" \"HDA\"\n01:00.0 \"3D controller\" \"NVIDIA\" \"GP107M\"\n";
    let gpus = gpus_from_lspci(lspci);
    assert_eq!(
        gpus,
        vec!["Intel Corporation HD Graphics 530".to_string(), "NVIDIA GP107M".to_string()]
    );
    assert_eq!(
        gpu_summary(&gpus),
        "GPU 1: Intel Corporation HD Graphics 530\nGPU 2: NVIDIA GP107M"
    );
    assert_eq!(gpu_summary(&vec!["One".to_string()]), "One");
    assert_eq!(gpu_summary(&Vec::new()), "Unknown GPU");
    assert_eq!(
        driver_from_glxinfo("name of display: :0\n    OpenGL version string: 4.6 Mesa 23.1.3\n"),
        "4.6 Mesa 23.1.3"
    );
    assert_eq!(driver_from_glxinfo(""), "Unknown");
    assert_eq!(
        vulkan_from("GPU0:\n\tapiVersion = 1.3.255\n\tdeviceName = AMD RADV\n"),
        "AMD RADV (v1.3.255)"
    );
    assert_eq!(vulkan_from("apiVersion = 1"), "Not Available");
}

#[test]
fn proton_versions() {
    assert_eq!(
        read_proton_version_file("1767307616 GE-Proton10-28\n"),
        Some("GE-Proton10-28".to_string())
    );
    assert_eq!(read_proton_version_file(" 9.0 \n"), Some("9.0".to_string()));
    assert_eq!(read_proton_version_file("  \n"), None);
    assert_eq!(extract_version_from_name("GE-Proton10-28"), "10-28");
    assert_eq!(extract_version_from_name("Proton 9.0"), "9.0");
    assert_eq!(extract_version_from_name("Proton-_ "), "Unknown");
    assert_eq!(extract_version_from_name("Wine"), "Unknown");
    assert_eq!(version_from_name("Proton-8.0"), Some("8.0".to_string()));
}

#[test]
fn disks_and_zram() {
    let df = "Mounted on Size Used Use%\n/ 100G 40G 40%\n/boot 1G 100M 10%\n/efi 1G 1M 1%\n/home 1T 1G 1%\nshort line\n";
    let disks = disks_from_df(df);
    assert_eq!(disks.len(), 2);
    assert_eq!(disks[0].mount_point, "/");
    assert_eq!(disks[0].usage_percent, "40%");
    assert_eq!(disks[1].mount_point, "/home");
    assert_eq!(format_bytes(1073741824), "1.0 GB");
    assert_eq!(format_bytes(1610612736), "1.5 GB");
    assert_eq!(format_bytes(524288), "0.5 MB");
    assert_eq!(format_bytes(0), "0.0 MB");
    assert_eq!(zram_algorithm(Some("lzo-rle lzo [zstd] deflate\n")), "zstd");
    assert_eq!(zram_algorithm(Some("lz4 zstd")), "lz4");
    assert_eq!(zram_algorithm(None), "Unknown");
    assert_eq!(
        zram_swap_usage("Filename Type Size Used Priority\n/dev/zram0 partition 4194300 1048576 100\n"),
        (4194300, 1048576)
    );
    let z = zram_info(
        true,
        Some("8589934592\n"),
        Some("[zstd]"),
        Some("Filename Type Size Used\n/dev/zram0 partition 200 50 100\n"),
    );
    assert!(z.enabled);
    assert_eq!(z.size, "8.0 GB");
    assert_eq!(z.algorithm, "zstd");
    assert_eq!(z.used, "0.0 MB");
    assert_eq!(z.usage_percent, "25%");
    assert!(!zram_info(false, None, None, None).enabled);
    assert!(!zram_info(true, Some("0"), None, None).enabled);
    assert_eq!(decimal_of(1205), vec!['1', '2', '0', '5']);
}

#[test]
fn proton_dirs_and_entries() {
    let paths = proton_search_paths("/home/u");
    assert_eq!(paths.len(), 11);
    assert_eq!(paths[0], "/home/u/.steam/steam/steamapps/common");
    assert_eq!(paths[10], "/usr/local/share/steam/compatibilitytools.d");
    assert_eq!(proton_search_paths("/")[2], "/.steam/root/compatibilitytools.d");
    assert!(is_proton_dir("GE-Proton10-28"));
    assert!(!is_proton_dir("SteamLinuxRuntime"));
    assert_eq!(
        proton_entry("GE-Proton10-28", Some("GE-Proton10-28 build".to_string())),
        Some(("GE-Proton10-28".to_string(), "GE-Proton10-28 build".to_string()))
    );
    assert_eq!(
        proton_entry("Proton 9.0", None),
        Some(("Proton 9.0".to_string(), "9.0".to_string()))
    );
}

#[test]
fn proton_list_is_sorted_and_keeps_first_of_each_name() {
    let found = vec![
        ("Proton 9.0".to_string(), "9.0-a".to_string()),
        ("GE-Proton10-28".to_string(), "10-28".to_string()),
        ("Proton 9.0".to_string(), "9.0-b".to_string()),
        ("Proton 8.0".to_string(), "8.0".to_string()),
    ];
    assert_eq!(
        sort_and_dedup_versions(&found),
        vec![
            ("GE-Proton10-28".to_string(), "10-28".to_string()),
            ("Proton 8.0".to_string(), "8.0".to_string()),
            ("Proton 9.0".to_string(), "9.0-a".to_string()),
        ]
    );
    assert!(sort_and_dedup_versions(&Vec::new()).is_empty());
}

#[test]
fn system_info_from_readings_and_defaults() {
    let rd = SystemReadings {
        os_release: Some("NAME=Arch\nPRETTY_NAME=\"Arch Linux\"\n".to_string()),
        uname: Some("6.8.1-arch1-1\n".to_string()),
        cpuinfo: Some("processor : 0\nmodel name\t: AMD Ryzen 7 5800X\n".to_string()),
        free: None,
        lspci: Some("01:00.0 \"VGA compatible controller\" \"NVIDIA Corporation\" \"GA104\"\n".to_string()),
        glxinfo: None,
        vulkaninfo: None,
        session_type: None,
        wine_version: Some("wine-9.0\n".to_string()),
        df: None,
    };
    let info = system_info_from(&rd, vec![("Proton 9.0".to_string(), "9.0".to_string())], ZramInfo::disabled());
    assert_eq!(info.os_name, "Arch Linux");
    assert_eq!(info.kernel_version, "6.8.1-arch1-1");
    assert_eq!(info.cpu_model, "AMD Ryzen 7 5800X");
    assert_eq!(info.memory_total, "Unknown");
    assert_eq!(info.memory_used, "Unknown");
    assert_eq!(info.gpu_info, "NVIDIA Corporation GA104");
    assert_eq!(info.gpu_driver, "Unknown");
    assert_eq!(info.vulkan_info, "Not Available");
    assert_eq!(info.xdg_session_type, "Unknown");
    assert_eq!(info.wine_versions, vec![("Wine".to_string(), "wine-9.0".to_string())]);
    assert_eq!(info.proton_versions.len(), 1);
    assert!(info.disks.is_empty());
    assert!(!info.zram.enabled);

    let none = SystemReadings {
        os_release: None,
        uname: None,
        cpuinfo: None,
        free: None,
        lspci: None,
        glxinfo: None,
        vulkaninfo: None,
        session_type: Some("wayland".to_string()),
        wine_version: None,
        df: None,
    };
    let info = system_info_from(&none, Vec::new(), ZramInfo::disabled());
    assert_eq!(info.os_name, "Linux");
    assert_eq!(info.kernel_version, "Unknown");
    assert_eq!(info.gpu_info, "Unknown GPU");
    assert_eq!(info.xdg_session_type, "wayland");
    assert!(info.wine_versions.is_empty());
}

#[test]
fn zram_readings_that_can_be_shown() {
    assert!(zram_inputs_fit(false, Some("x"), Some("]bad["), None));
    assert!(zram_inputs_fit(true, Some("0"), Some("]bad["), None));
    assert!(!zram_inputs_fit(true, Some("4096"), Some("lz4] [zstd"), None));
    assert!(zram_inputs_fit(true, Some("4096"), Some("lzo [zstd]"), Some("Filename Type Size Used Priority\n/dev/zram0 partition 100 50 100\n")));
    assert!(!zram_inputs_fit(true, Some("9007199254740992"), Some("[zstd]"), None));
}
