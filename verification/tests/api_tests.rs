use debeon::api::{
    asset_cache_file_name, asset_details_from_parts, asset_url, client_version_from,
    creator_from_parts, game_icon_cache_file_name, game_icon_url, game_info_from_parts,
    search_hit_from_parts, thumbnail_cache_file_name, thumbnail_url, user_info_from_parts,
    RobloxApiClient,
};
use debeon::flags_catalog::get_common_flags;
use debeon::installer::RobloxInstaller;
use debeon::models::{ApiResponse, ThumbnailSize};
use debeon::profiles::ConfigManager;

#[test]
fn api_urls_are_exact() {
    let c = RobloxApiClient::new();
    assert_eq!(c.user_info_url(55), "https://users.roblox.com/v1/users/55");
    assert_eq!(
        c.game_info_url(9),
        "https://games.roblox.com/v1/games?universeIds=9"
    );
    assert_eq!(
        c.asset_details_url(7),
        "https://economy.roblox.com/v2/assets/7/details"
    );
    assert_eq!(
        c.search_users_url("bob"),
        "https://users.roblox.com/v1/users/search?keyword=bob&limit=10"
    );
    assert_eq!(
        c.client_version_url(),
        "https://clientsettingscdn.roblox.com/v2/client-version/WindowsPlayer"
    );
    assert_eq!(client_version_from(Some("version-1".to_string())), "version-1");
    assert_eq!(client_version_from(None), "unknown");
}

#[test]
fn asset_urls_and_cache_names() {
    assert_eq!(asset_cache_file_name(12), "12.rbxm");
    assert_eq!(
        asset_url(12),
        "https://assetdelivery.roblox.com/v1/asset/?id=12"
    );
    assert_eq!(thumbnail_cache_file_name(12, ThumbnailSize::Medium), "12_420x420.png");
    assert_eq!(
        thumbnail_url(12, ThumbnailSize::Large),
        "https://thumbnails.roblox.com/v1/assets?assetIds=12&size=768x432&format=Png"
    );
    assert_eq!(game_icon_cache_file_name(3), "game_3.png");
    assert_eq!(
        game_icon_url(3),
        "https://thumbnails.roblox.com/v1/games/icons?universeIds=3&size=512x512&format=Png"
    );
}

#[test]
fn record_builders_default_missing_fields() {
    let u = user_info_from_parts(None, None, None, None, None, None);
    assert_eq!(u.id, 0);
    assert_eq!(u.name, "");
    assert_eq!(u.is_banned, false);
    let u2 = user_info_from_parts(Some(9), Some("n".into()), None, None, None, Some(true));
    assert_eq!(u2.id, 9);
    assert_eq!(u2.name, "n");
    assert!(u2.is_banned);

    let hit = search_hit_from_parts(Some(4), Some("a".into()), None);
    assert_eq!(hit.id, 4);
    assert_eq!(hit.description, "");
    assert_eq!(hit.created, "");
    assert!(!hit.is_banned);

    let cr = creator_from_parts(None, Some("c".into()), None);
    let g = game_info_from_parts(
        Some(1),
        None,
        None,
        cr.clone(),
        None,
        Some(10),
        None,
        None,
        Some(30),
        None,
    );
    assert_eq!(g.id, 1);
    assert_eq!(g.name, "");
    assert_eq!(g.creator.name, "c");
    assert_eq!(g.price, None);
    assert_eq!(g.playing, 10);
    assert_eq!(g.visits, 0);
    assert_eq!(g.max_players, 30);

    let a = asset_details_from_parts(
        Some(2),
        Some("thing".into()),
        None,
        Some(8),
        cr,
        Some(5),
        Some(true),
        None,
        None,
        None,
    );
    assert_eq!(a.id, 2);
    assert_eq!(a.asset_type, "8");
    assert_eq!(a.price, Some(5));
    assert!(a.is_for_sale);
    assert!(!a.is_limited);
}

#[test]
fn response_envelopes() {
    let ok: ApiResponse<u32> = ApiResponse::success(5);
    assert!(ok.success);
    assert_eq!(ok.data, Some(5));
    assert_eq!(ok.error, None);
    let bad: ApiResponse<u32> = ApiResponse::error("nope".to_string());
    assert!(!bad.success);
    assert_eq!(bad.data, None);
    assert_eq!(bad.error, Some("nope".to_string()));
}

#[test]
fn installer_contracts() {
    let inst = RobloxInstaller::new();
    assert_eq!(inst.download_url, "https://setup.rbxcdn.com");
    assert_eq!(
        inst.bootstrapper_url(),
        "https://setup.rbxcdn.com/RobloxPlayerLauncher.exe"
    );
    let v = inst.version_info_from(Some("version-xyz".to_string()));
    assert_eq!(v.version, "version-xyz");
    assert_eq!(v.deployment_url, "https://setup.rbxcdn.com/");
    let v2 = inst.version_info_from(None);
    assert_eq!(v2.version, "unknown");

    let listing = vec!["x.dll".to_string(), "RobloxPlayerBeta.exe".to_string()];
    assert!(inst.verify_installation(true, &listing));
    assert!(!inst.verify_installation(false, &listing));
    assert!(!inst.verify_installation(true, &vec!["x.dll".to_string()]));
}

#[test]
fn profile_store_compute_parts() {
    let m = ConfigManager::new("/cfg".to_string(), "/cfg/profiles".to_string());
    assert_eq!(m.profile_file_name("main"), "main.json");
    let listed = m.list_profiles(&vec![
        "zeta.json".to_string(),
        "readme.md".to_string(),
        "alpha.json".to_string(),
    ]);
    assert_eq!(listed, vec!["alpha".to_string(), "zeta".to_string()]);
    let d = m.get_default_config();
    assert_eq!(d.graphics.graphics_quality, 10);
}

#[test]
fn common_flag_catalog_shape() {
    let cats = get_common_flags();
    assert_eq!(cats.len(), 3);
    assert_eq!(cats[0].0, "Performance");
    assert_eq!(cats[0].1.len(), 3);
    assert_eq!(cats[0].1[0].name, "Uncap FPS");
    assert_eq!(
        cats[0].1[0].flags,
        vec![("DFIntTaskSchedulerTargetFps".to_string(), "999".to_string())]
    );
    assert_eq!(cats[1].0, "Graphics");
    assert_eq!(cats[1].1.len(), 2);
    assert_eq!(cats[1].1[1].name, "Potato Mode");
    assert_eq!(cats[1].1[1].flags.len(), 3);
    assert_eq!(cats[2].0, "UI");
    assert_eq!(cats[2].1.len(), 2);
    assert_eq!(
        cats[2].1[0].flags,
        vec![("FFlagDebugDisplayFPS".to_string(), "true".to_string())]
    );
}
