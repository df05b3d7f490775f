use release_manager::app::github::Asset;
use release_manager::app::platform::{
    filter_assets_for_windows, is_windows_asset, is_x64_asset, score_asset_for_windows, score_lowercase_name,
};

fn asset(name: &str) -> Asset {
    Asset { name: name.to_string(), browser_download_url: format!("https://example.com/{}", name), size: None }
}

#[test]
fn scores_of_typical_names() {
    assert_eq!(score_asset_for_windows("app-windows-x64.zip"), 70);
    assert_eq!(score_asset_for_windows("app-linux-x64.tar.gz"), 0);
    assert_eq!(score_asset_for_windows("source.tar"), 5);
    assert_eq!(score_asset_for_windows("readme.txt"), 0);
    assert_eq!(score_asset_for_windows("darwin-arm64.zip"), 0);
    assert_eq!(score_asset_for_windows("tool_win.txt"), 35);
    assert_eq!(score_asset_for_windows("winget.json"), 5);
    assert_eq!(score_asset_for_windows("app-x86_64.msi"), 50);
    assert_eq!(score_asset_for_windows("debug-windows.zip"), 0);
    assert_eq!(score_asset_for_windows("app-win32-i386.7z"), 30 + 10 + 10);
    assert_eq!(score_asset_for_windows("app-win-arm64.exe"), 35 + 5 + 30);
}

#[test]
fn scores_ignore_case() {
    // Needs the lower-case form: "WIN64" and ".EXE" only count once lowered.
    assert_eq!(score_asset_for_windows("Setup-WIN64.EXE"), 65);
    assert_eq!(score_lowercase_name("Setup-WIN64.EXE"), 0);
    assert_eq!(score_lowercase_name("setup-win64.exe"), 65);
}

#[test]
fn windows_asset_needs_more_than_20() {
    assert!(is_windows_asset("app-windows-x64.zip"));
    assert!(!is_windows_asset("source.tar"));
    assert!(!is_windows_asset("other.zip"));
    assert!(is_windows_asset("tool_win.txt"));
}

#[test]
fn x64_marking() {
    assert!(is_x64_asset("App-AMD64.zip"));
    assert!(is_x64_asset("app-x86_64.msi"));
    assert!(is_x64_asset("app-X64.exe"));
    assert!(!is_x64_asset("app-x86.exe"));
}

#[test]
fn ranking_drops_zero_scores_and_sorts_stably() {
    let assets = vec![
        asset("app-linux-x64.tar.gz"),
        asset("app-windows-x64.zip"),
        asset("Setup-WIN64.EXE"),
        asset("source.tar"),
        asset("app-x86_64.msi"),
        asset("other.zip"),
        asset("b.zip"),
        asset("readme.md"),
    ];
    let r = filter_assets_for_windows(&assets);
    assert_eq!(r, vec![(1, 70), (2, 65), (4, 50), (5, 15), (6, 15), (3, 5)]);
}

#[test]
fn ranking_of_nothing() {
    assert_eq!(filter_assets_for_windows(&[]), vec![]);
    assert_eq!(filter_assets_for_windows(&[asset("x.deb")]), vec![]);
}

#[test]
fn score_ignores_ascii_case() {
    for name in ["App-Win64-x64.EXE", "tool_WINDOWS_amd64.zip", "Foo-Linux.tar", "WIN-ARM64.7Z", "readme.txt"] {
        let s = score_asset_for_windows(name);
        assert_eq!(s, score_asset_for_windows(&name.to_ascii_lowercase()), "{}", name);
        assert_eq!(s, score_asset_for_windows(&name.to_ascii_uppercase()), "{}", name);
    }
    assert_eq!(score_asset_for_windows("APP-WIN64.EXE"), 35 + 30);
}
