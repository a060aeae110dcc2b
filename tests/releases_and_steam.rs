use patchops::dxvk::{
    archive_file_name, archive_format, preferred_asset_url, preferred_index, release_label, ArchiveFormat,
    DxvkError, Release, ReleaseAssetLink, ReleaseAssets,
};
use patchops::steam::{
    default_game_path, find_user_id, platform_of, steam_executable, steam_userdata_path, Platform, SteamPaths,
};

fn link(url: &str) -> ReleaseAssetLink {
    ReleaseAssetLink { url: url.to_string(), name: None }
}

fn release(links: Option<Vec<&str>>, sources: Option<Vec<&str>>) -> Release {
    Release {
        assets: Some(ReleaseAssets {
            links: links.map(|v| v.into_iter().map(link).collect()),
            sources: sources.map(|v| v.into_iter().map(link).collect()),
        }),
        name: None,
        tag_name: None,
    }
}

#[test]
fn zip_is_preferred_whatever_its_case() {
    let r = release(Some(vec!["https://x/a.tar.gz", "https://x/B.ZIP"]), None);
    assert_eq!(preferred_asset_url(&r).unwrap(), "https://x/B.ZIP");
}

#[test]
fn suffix_order_decides() {
    let r = release(Some(vec!["https://x/a.tzst", "https://x/a.tar.gz", "https://x/a.tar.xz"]), None);
    assert_eq!(preferred_asset_url(&r).unwrap(), "https://x/a.tar.xz");
    let r = release(Some(vec!["https://x/readme", "https://x/a.exe"]), None);
    assert_eq!(preferred_asset_url(&r).unwrap(), "https://x/readme");
}

#[test]
fn sources_used_when_links_empty() {
    let r = release(Some(vec![]), Some(vec!["https://x/src.tar.bz2", "https://x/src.zip"]));
    assert_eq!(preferred_asset_url(&r).unwrap(), "https://x/src.zip");
}

#[test]
fn no_asset_is_an_error() {
    assert_eq!(preferred_asset_url(&release(None, Some(vec![]))), Err(DxvkError::NoAsset));
    let bare = Release { assets: None, name: None, tag_name: None };
    assert_eq!(preferred_asset_url(&bare), Err(DxvkError::NoAsset));
}

#[test]
fn preferred_index_on_lowered_names() {
    let v: Vec<String> = vec!["a.tar.zst".into(), "b.tar.bz2".into(), "c.tar.bz2".into()];
    assert_eq!(preferred_index(&v), 1);
    assert_eq!(preferred_index(&Vec::new()), 0);
}

#[test]
fn archive_formats_by_name() {
    assert_eq!(archive_format("dxvk.ZIP"), Some(ArchiveFormat::Zip));
    assert_eq!(archive_format("dxvk-2.3.tar.gz"), Some(ArchiveFormat::TarGz));
    assert_eq!(archive_format("dxvk.TGZ"), Some(ArchiveFormat::TarGz));
    assert_eq!(archive_format("a.gz"), Some(ArchiveFormat::TarGz));
    assert_eq!(archive_format(".gz"), None);
    assert_eq!(archive_format("dxvk.tar.xz"), Some(ArchiveFormat::TarXz));
    assert_eq!(archive_format("dxvk.tar.zst"), Some(ArchiveFormat::TarZst));
    assert_eq!(archive_format("dxvk.tzst"), Some(ArchiveFormat::TarZst));
    assert_eq!(archive_format("dxvk.rar"), None);
}

#[test]
fn labels_and_file_names() {
    let mut r = release(None, None);
    assert_eq!(release_label(&r), "Unknown");
    r.tag_name = Some("v2.3".into());
    assert_eq!(release_label(&r), "v2.3");
    r.name = Some("DXVK 2.3".into());
    assert_eq!(release_label(&r), "DXVK 2.3");
    assert_eq!(archive_file_name(Some("dxvk.tar.gz")), "dxvk.tar.gz");
    assert_eq!(archive_file_name(Some("")), "dxvk-gplasync");
    assert_eq!(archive_file_name(None), "dxvk-gplasync");
}

#[test]
fn steam_paths_and_ids() {
    let p = SteamPaths { userdata: "/s/userdata".into(), steam_exe: "steam".into() };
    assert_eq!(steam_userdata_path(Some(&p)).as_deref(), Some("/s/userdata"));
    assert_eq!(steam_executable(Some(&p)).as_deref(), Some("steam"));
    assert_eq!(steam_userdata_path(None), None);
    assert_eq!(steam_executable(None), None);
    let names: Vec<String> = vec!["anonymous".into(), "12345".into(), "678".into()];
    assert_eq!(find_user_id(&names).as_deref(), Some("12345"));
    assert_eq!(find_user_id(&vec!["ac".to_string()]), None);
}

#[test]
fn platforms_and_default_paths() {
    assert_eq!(platform_of("windows"), Some(Platform::Windows));
    assert_eq!(platform_of("linux"), Some(Platform::Linux));
    assert_eq!(platform_of("macos"), Some(Platform::MacOs));
    assert_eq!(platform_of("freebsd"), None);
    assert!(default_game_path(true).starts_with("~/.local/share/Steam"));
    assert!(default_game_path(false).starts_with("C:/Program Files (x86)/Steam"));
}
