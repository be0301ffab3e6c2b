use auto_wallpaper::protocol::{response_accepted, Command, UnloadTarget, WallpaperDirectory};

fn s(text: &str) -> String {
    text.to_string()
}

#[test]
fn preload_is_encoded() {
    let command = Command::Preload { path: s("/home/u/w/beach.jpg") };
    assert_eq!(command.encode(), "preload /home/u/w/beach.jpg");
    assert_eq!(command.to_line(), "preload /home/u/w/beach.jpg\n");
}

#[test]
fn activate_is_encoded() {
    let command = Command::Activate { monitor: None, mode: None, path: s("/w/a.png") };
    assert_eq!(command.encode(), "wallpaper ,/w/a.png");
    let command = Command::Activate { monitor: Some(s("DP-1")), mode: None, path: s("/w/a.png") };
    assert_eq!(command.encode(), "wallpaper DP-1,/w/a.png");
    let command = Command::Activate { monitor: Some(s("DP-1")), mode: Some(s("contain")), path: s("/w/a.png") };
    assert_eq!(command.encode(), "wallpaper DP-1,/w/a.png,contain");
    let command = Command::Activate { monitor: None, mode: Some(s("tile")), path: s("/w/a.png") };
    assert_eq!(command.to_line(), "wallpaper ,/w/a.png,tile\n");
}

#[test]
fn unload_is_encoded() {
    let command = Command::Unload { target: UnloadTarget::Path(s("/w/a.png")) };
    assert_eq!(command.encode(), "unload /w/a.png");
    let command = Command::Unload { target: UnloadTarget::All };
    assert_eq!(command.encode(), "unload all");
    assert_eq!(command.to_line(), "unload all\n");
}

#[test]
fn reload_is_encoded() {
    let command = Command::Reload { monitor: None, mode: None, path: s("/w/a.png") };
    assert_eq!(command.encode(), "reload ,/w/a.png");
    let command = Command::Reload { monitor: Some(s("HDMI-A-1")), mode: Some(s("cover")), path: s("/w/a.png") };
    assert_eq!(command.encode(), "reload HDMI-A-1,/w/a.png,cover");
}

#[test]
fn only_ok_is_an_acceptance() {
    assert!(response_accepted("ok"));
    assert!(response_accepted("ok\n"));
    assert!(response_accepted("  ok\r\n"));
    assert!(!response_accepted(""));
    assert!(!response_accepted("\n"));
    assert!(!response_accepted("OK"));
    assert!(!response_accepted("okay"));
    assert!(!response_accepted("o k"));
    assert!(!response_accepted("ko"));
    assert!(!response_accepted("wallpaper failed (not preloaded)"));
}

#[test]
fn directory_resolves_names() {
    let dir = WallpaperDirectory::new(s("/home/u/Pictures/wallpapers"));
    assert_eq!(dir.resolve("beach.jpg"), "/home/u/Pictures/wallpapers/beach.jpg");
    let dir = WallpaperDirectory::new(s("/home/u/Pictures/wallpapers/"));
    assert_eq!(dir.resolve("beach.jpg"), "/home/u/Pictures/wallpapers/beach.jpg");
    let dir = WallpaperDirectory::new(s(""));
    assert_eq!(dir.resolve("beach.jpg"), "beach.jpg");
    let dir = WallpaperDirectory::new(s("/"));
    assert_eq!(dir.resolve("sub/beach.jpg"), "/sub/beach.jpg");
}
