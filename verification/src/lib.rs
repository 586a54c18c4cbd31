pub mod artwork;
pub mod auth_flow;
pub mod category_list;
pub mod desktop_apps;
pub mod entries;
pub mod game_sources;
pub mod json;
pub mod gamepad;
pub mod gopher64;
pub mod heroic;
pub mod launcher;
pub mod model;
pub mod monitor;
pub mod mupen64plus;
pub mod navigation;
pub mod osk;
pub mod paths;
pub mod roms;
pub mod screen;
pub mod session;
pub mod simple64;
pub mod sleep_inhibit;
pub mod snes9x;
pub mod system_info;
pub mod system_update;
pub mod system_update_state;
pub mod text;
pub mod user_dirs;
pub mod virtual_keyboard;
