use pageweave::error::AppError;
use pageweave::secrets::storage_key;
use pageweave::settings::{
    default_lang_in, default_lang_out, default_language, default_log_retention, default_theme,
    AppSettings,
};
use pageweave::translate::assets::{
    already_installed, cache_dir_parts, check_offline_package, install_result,
    is_offline_asset_name, offline_assets_info, pick_offline_asset, restore_failure,
    restore_invocation,
};

#[test]
fn default_settings() {
    let s = AppSettings::default();
    assert_eq!(s.theme, "system");
    assert_eq!(s.language, "zh");
    assert_eq!(s.default_output_dir, "");
    assert_eq!(s.default_lang_in, "en");
    assert_eq!(s.default_lang_out, "zh");
    assert_eq!(s.default_provider_id, "");
    assert_eq!(s.log_retention_days, 7);
    assert_eq!(s.cache_dir, "");
    assert_eq!(default_theme(), "system");
    assert_eq!(default_language(), "zh");
    assert_eq!(default_lang_in(), "en");
    assert_eq!(default_lang_out(), "zh");
    assert_eq!(default_log_retention(), 7);
}

#[test]
fn secret_storage_keys() {
    assert_eq!(storage_key("key_1"), "secret:api-key:key_1");
    assert_ne!(storage_key("key_1"), storage_key("key_2"));
}

#[test]
fn cache_counts_as_installed_from_fifty_mebibytes() {
    let below = offline_assets_info("C:/cache".into(), 50 * 1024 * 1024 - 1);
    assert!(!below.installed);
    assert_eq!(below.message, "未检测到完整离线资源缓存");
    let at = offline_assets_info("C:/cache".into(), 50 * 1024 * 1024);
    assert!(at.installed);
    assert_eq!(at.message, "已检测到 BabelDOC 离线资源缓存");
    assert_eq!(at.cache_dir, "C:/cache");
    assert_eq!(at.size_bytes, 52428800);
}

#[test]
fn offline_asset_names() {
    assert!(is_offline_asset_name("offline_assets_v1.zip"));
    assert!(is_offline_asset_name("offline_assets_.zip"));
    assert!(!is_offline_asset_name("Offline_assets_v1.zip"));
    assert!(!is_offline_asset_name("offline_assets_v1.tar.gz"));
    let names = vec!["PageWeave.msi".to_string(), "offline_assets_2.zip".into(), "offline_assets_3.zip".into()];
    assert_eq!(pick_offline_asset(&names).unwrap(), 1);
    match pick_offline_asset(&vec!["a.zip".to_string()]) {
        Err(AppError::NotFound(m)) => assert_eq!(m, "最新 Release 中未找到 offline_assets_*.zip"),
        other => panic!("unexpected {:?}", other),
    }
}

#[test]
fn install_answers() {
    let done = offline_assets_info("C:/cache".into(), 60 * 1024 * 1024);
    let r = already_installed(&done, false).unwrap();
    assert!(r.ok);
    assert_eq!(r.message, "离线资源已安装，无需重复恢复");
    assert!(r.asset_name.is_none());
    assert_eq!(already_installed(&done, true).unwrap().message, "离线资源已安装，无需重复下载");
    let missing = offline_assets_info("C:/cache".into(), 0);
    assert!(already_installed(&missing, true).is_none());

    let r = install_result(&done, Some("offline_assets_1.zip".into()), true);
    assert!(r.ok);
    assert_eq!(r.message, "离线资源安装完成");
    assert_eq!(r.asset_name.as_deref(), Some("offline_assets_1.zip"));
    assert_eq!(install_result(&missing, None, true).message, "已下载并执行安装，但尚未检测到完整缓存");
    assert_eq!(install_result(&missing, None, false).message, "已执行安装，但尚未检测到完整缓存");
}

#[test]
fn package_checks() {
    assert_eq!(
        check_offline_package(r"D:\dl\offline_assets_v2.zip", true, true).unwrap(),
        "offline_assets_v2.zip"
    );
    match check_offline_package("D:/dl/offline_assets_v2.zip", false, false) {
        Err(AppError::NotFound(m)) => assert_eq!(m, "离线资源包不存在"),
        other => panic!("unexpected {:?}", other),
    }
    match check_offline_package("D:/dl", true, false) {
        Err(AppError::InvalidInput(m)) => assert_eq!(m, "请选择 offline_assets_*.zip 文件"),
        other => panic!("unexpected {:?}", other),
    }
    match check_offline_package("D:/dl/assets.zip", true, true) {
        Err(AppError::InvalidInput(m)) => assert_eq!(m, "离线资源包文件名应为 offline_assets_*.zip"),
        other => panic!("unexpected {:?}", other),
    }
}

#[test]
fn restore_command_lines() {
    assert_eq!(
        restore_invocation(Some("C:/app/babeldoc-sidecar.exe".into()), true, "D:/dl"),
        vec!["C:/app/babeldoc-sidecar.exe".to_string(), "--restore-offline-assets".into(), "D:/dl".into()]
    );
    assert_eq!(
        restore_invocation(None, true, "D:/dl"),
        vec!["babeldoc".to_string(), "--restore-offline-assets".into(), "D:/dl".into()]
    );
    assert_eq!(
        restore_invocation(None, false, "D:/dl"),
        vec![
            "python".to_string(),
            "-m".into(),
            "babeldoc".into(),
            "--restore-offline-assets".into(),
            "D:/dl".into()
        ]
    );
}

#[test]
fn restore_failure_messages() {
    match restore_failure(b"out text\n", b"  boom  \n") {
        AppError::Translate(m) => assert_eq!(m, "恢复离线资源失败: boom"),
        other => panic!("unexpected {:?}", other),
    }
    match restore_failure(b" out text \n", b"   ") {
        AppError::Translate(m) => assert_eq!(m, "恢复离线资源失败: out text"),
        other => panic!("unexpected {:?}", other),
    }
    match restore_failure(b"", b"") {
        AppError::Translate(m) => assert_eq!(m, "恢复离线资源失败: 未知错误"),
        other => panic!("unexpected {:?}", other),
    }
    match restore_failure(b"", &[0xff, b'x']) {
        AppError::Translate(m) => assert_eq!(m, "恢复离线资源失败: \u{fffd}x"),
        other => panic!("unexpected {:?}", other),
    }
}

#[test]
fn cache_directory_choice() {
    assert_eq!(
        cache_dir_parts(Some("E:/bd".into()), Some("E:/xdg".into()), Some("C:/Users/me".into())),
        vec!["E:/bd".to_string()]
    );
    assert_eq!(
        cache_dir_parts(None, Some("E:/xdg".into()), Some("C:/Users/me".into())),
        vec!["E:/xdg".to_string(), "babeldoc".into()]
    );
    assert_eq!(
        cache_dir_parts(None, None, Some("C:/Users/me".into())),
        vec!["C:/Users/me".to_string(), ".cache".into(), "babeldoc".into()]
    );
    assert_eq!(cache_dir_parts(None, None, None), vec![".cache".to_string(), "babeldoc".into()]);
}
