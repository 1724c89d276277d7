//! BabelDOC's offline assets: whether the cache holds them, which package restores them, how
//! the restore is invoked, and what the user is told.
use vstd::prelude::*;

use crate::deps::{utf8_lossy, utf8_lossy_decode};
use crate::error::{AppError, AppResult, ErrorView};
use crate::order::texts;
use crate::paths::file_name;
use crate::text::{
    chars_of, has_prefix, has_suffix, str_ends_with, str_starts_with, trim, trim_str,
};

verus! {

/// The GitHub API address of PageWeave's latest release.
pub const REPO_API_LATEST_RELEASE: &'static str =
    "https://api.github.com/repos/jhxxr/PageWeave/releases/latest";

/// The size from which the cache counts as holding the offline assets (50 MiB).
pub const MIN_READY_CACHE_BYTES: u64 = 52428800;

/// The state of BabelDOC's offline-assets cache.
#[derive(Debug, Clone)]
pub struct OfflineAssetsInfo {
    pub installed: bool,
    pub cache_dir: String,
    pub size_bytes: u64,
    pub message: String,
}

/// What an install attempt of the offline assets achieved.
#[derive(Debug, Clone)]
pub struct OfflineAssetsInstallResult {
    pub ok: bool,
    pub cache_dir: String,
    pub asset_name: Option<String>,
    pub message: String,
}

/// The cache state of `cache_dir`, whose files take `size_bytes` in all: installed from
/// 50 MiB on.
pub fn offline_assets_info(cache_dir: String, size_bytes: u64) -> (r: OfflineAssetsInfo)
    ensures
        r.installed == (size_bytes >= 52428800),
        r.cache_dir@ == cache_dir@,
        r.size_bytes == size_bytes,
        r.message@ == if r.installed {
            "已检测到 BabelDOC 离线资源缓存"@
        } else {
            "未检测到完整离线资源缓存"@
        },
{
    let installed = size_bytes >= MIN_READY_CACHE_BYTES;
    OfflineAssetsInfo {
        installed,
        cache_dir,
        size_bytes,
        message: if installed {
            "已检测到 BabelDOC 离线资源缓存".to_string()
        } else {
            "未检测到完整离线资源缓存".to_string()
        },
    }
}

/// The name of an offline-assets package: `offline_assets_*.zip`.
pub open spec fn offline_asset_name(name: Seq<char>) -> bool {
    has_prefix(name, "offline_assets_"@) && has_suffix(name, ".zip"@)
}

/// Whether `name` names an offline-assets package.
pub fn is_offline_asset_name(name: &str) -> (r: bool)
    ensures
        r == offline_asset_name(name@),
{
    str_starts_with(name, "offline_assets_") && str_ends_with(name, ".zip")
}

/// The answer to an install request when the assets are already there: success, with
/// nothing installed. `from_release` tells a download from a restore from a file.
pub fn already_installed(existing: &OfflineAssetsInfo, from_release: bool) -> (r: Option<
    OfflineAssetsInstallResult,
>)
    ensures
        r is Some == existing.installed,
        r matches Some(x) ==> x.ok && x.cache_dir@ == existing.cache_dir@ && x.asset_name is None
            && x.message@ == if from_release {
            "离线资源已安装，无需重复下载"@
        } else {
            "离线资源已安装，无需重复恢复"@
        },
{
    if !existing.installed {
        return None;
    }
    Some(
        OfflineAssetsInstallResult {
            ok: true,
            cache_dir: existing.cache_dir.clone(),
            asset_name: None,
            message: if from_release {
                "离线资源已安装，无需重复下载".to_string()
            } else {
                "离线资源已安装，无需重复恢复".to_string()
            },
        },
    )
}

/// Why a package file cannot be restored from, checked in this order: it does not exist,
/// it is not a file, or its name is not `offline_assets_*.zip`.
pub open spec fn package_refusal(path: Seq<char>, exists: bool, is_file: bool) -> Option<ErrorView> {
    if !exists {
        Some(ErrorView::NotFound("离线资源包不存在"@))
    } else if !is_file {
        Some(ErrorView::InvalidInput("请选择 offline_assets_*.zip 文件"@))
    } else if !(file_name(path) matches Some(n) && offline_asset_name(n)) {
        Some(ErrorView::InvalidInput("离线资源包文件名应为 offline_assets_*.zip"@))
    } else {
        None
    }
}

/// Check the package the user picked; on success, its file name.
pub fn check_offline_package(path: &str, exists: bool, is_file: bool) -> (r: AppResult<String>)
    ensures
        match package_refusal(path@, exists, is_file) {
            Some(v) => r matches Err(e) && e@ == v,
            None => r matches Ok(n) && file_name(path@) == Some(n@),
        },
{
    if !exists {
        return Err(AppError::NotFound("离线资源包不存在".to_string()));
    }
    if !is_file {
        return Err(AppError::InvalidInput("请选择 offline_assets_*.zip 文件".to_string()));
    }
    let v = chars_of(path);
    match crate::paths::file_name_bounds(&v) {
        Some((lo, hi)) => {
            let name = path.substring_char(lo, hi).to_owned();
            if is_offline_asset_name(name.as_str()) {
                Ok(name)
            } else {
                Err(AppError::InvalidInput("离线资源包文件名应为 offline_assets_*.zip".to_string()))
            }
        },
        None => Err(AppError::InvalidInput("离线资源包文件名应为 offline_assets_*.zip".to_string())),
    }
}

/// The outcome of an install that ran the restore: done when the cache now holds the assets,
/// otherwise that it ran but the cache is still incomplete.
pub fn install_result(info: &OfflineAssetsInfo, asset_name: Option<String>, from_release: bool) -> (r:
    OfflineAssetsInstallResult)
    ensures
        r.ok == info.installed,
        r.cache_dir@ == info.cache_dir@,
        crate::text::opt_text(r.asset_name) == crate::text::opt_text(asset_name),
        r.message@ == if info.installed {
            "离线资源安装完成"@
        } else if from_release {
            "已下载并执行安装，但尚未检测到完整缓存"@
        } else {
            "已执行安装，但尚未检测到完整缓存"@
        },
{
    OfflineAssetsInstallResult {
        ok: info.installed,
        cache_dir: info.cache_dir.clone(),
        asset_name,
        message: if info.installed {
            "离线资源安装完成".to_string()
        } else if from_release {
            "已下载并执行安装，但尚未检测到完整缓存".to_string()
        } else {
            "已执行安装，但尚未检测到完整缓存".to_string()
        },
    }
}

/// The first asset of a release named `offline_assets_*.zip`.
pub open spec fn first_offline_asset(names: Seq<Seq<char>>) -> Option<int>
    decreases names.len(),
{
    if names.len() == 0 {
        None
    } else if offline_asset_name(names[0]) {
        Some(0)
    } else {
        match first_offline_asset(names.drop_first()) {
            Some(i) => Some(i + 1),
            None => None,
        }
    }
}

/// The package picked from a release is its first asset named `offline_assets_*.zip`:
/// that one is such a name and none before it is; nothing is picked only when no asset has
/// such a name.
pub proof fn law_first_package_asset_is_picked(names: Seq<Seq<char>>)
    ensures
        first_offline_asset(names) matches Some(i) ==> 0 <= i < names.len() && has_prefix(
            names[i],
            "offline_assets_"@,
        ) && has_suffix(names[i], ".zip"@) && forall|j: int|
            0 <= j < i ==> !(has_prefix(#[trigger] names[j], "offline_assets_"@) && has_suffix(
                names[j],
                ".zip"@,
            )),
        first_offline_asset(names) is None ==> forall|j: int|
            0 <= j < names.len() ==> !(has_prefix(#[trigger] names[j], "offline_assets_"@)
                && has_suffix(names[j], ".zip"@)),
    decreases names.len(),
{
    if names.len() > 0 && !offline_asset_name(names[0]) {
        law_first_package_asset_is_picked(names.drop_first());
        assert forall|j: int| 1 <= j < names.len() implies names.drop_first()[j - 1] == names[j] by {}
        match first_offline_asset(names.drop_first()) {
            Some(i) => {
                assert forall|j: int| 0 <= j < i + 1 implies !(has_prefix(
                    #[trigger] names[j],
                    "offline_assets_"@,
                ) && has_suffix(names[j], ".zip"@)) by {
                    if j > 0 {
                        assert(names.drop_first()[j - 1] == names[j]);
                    }
                }
            },
            None => {
                assert forall|j: int| 0 <= j < names.len() implies !(has_prefix(
                    #[trigger] names[j],
                    "offline_assets_"@,
                ) && has_suffix(names[j], ".zip"@)) by {
                    if j > 0 {
                        assert(names.drop_first()[j - 1] == names[j]);
                    }
                }
            },
        }
    }
}

/// A package file is accepted exactly when it exists, is a file, and its file name starts
/// with `offline_assets_` and ends with `.zip`.
pub proof fn law_package_accepted_by_name(path: Seq<char>, exists: bool, is_file: bool)
    ensures
        package_refusal(path, exists, is_file) is None <==> exists && is_file && (file_name(
            path,
        ) matches Some(n) && has_prefix(n, "offline_assets_"@) && has_suffix(n, ".zip"@)),
{
}

/// The restore always ends with `--restore-offline-assets` and the package directory, run by
/// the bundled sidecar when there is one, else by `babeldoc` on the `PATH`, else by
/// `python -m babeldoc`.
pub proof fn law_restore_command(sidecar: Option<Seq<char>>, babeldoc_on_path: bool, asset_dir: Seq<char>)
    ensures
        ({
            let argv = restore_argv(sidecar, babeldoc_on_path, asset_dir);
            &&& argv.len() >= 3
            &&& argv[argv.len() - 2] == "--restore-offline-assets"@
            &&& argv[argv.len() - 1] == asset_dir
            &&& sidecar matches Some(p) ==> argv.len() == 3 && argv[0] == p
            &&& sidecar is None && babeldoc_on_path ==> argv.len() == 3 && argv[0] == "babeldoc"@
            &&& sidecar is None && !babeldoc_on_path ==> argv.take(3) == seq![
                "python"@,
                "-m"@,
                "babeldoc"@,
            ] && argv.len() == 5
        }),
{
    let argv = restore_argv(sidecar, babeldoc_on_path, asset_dir);
    if sidecar is None && !babeldoc_on_path {
        assert(argv.take(3) =~= seq!["python"@, "-m"@, "babeldoc"@]);
    }
}

/// Pick the offline-assets package among a release's asset names.
pub fn pick_offline_asset(names: &Vec<String>) -> (r: AppResult<usize>)
    ensures
        match first_offline_asset(texts(names@)) {
            Some(i) => r matches Ok(k) && k == i,
            None => r matches Err(e) && e@ == ErrorView::NotFound(
                "最新 Release 中未找到 offline_assets_*.zip"@,
            ),
        },
{
    let ghost all = texts(names@);
    let mut i: usize = 0;
    assert(all.skip(0) =~= all);
    while i < names.len()
        invariant
            i <= names@.len(),
            all == texts(names@),
            first_offline_asset(all) == match first_offline_asset(all.skip(i as int)) {
                Some(k) => Some(k + i),
                None => None,
            },
        decreases names.len() - i,
    {
        proof {
            assert(all.skip(i as int).drop_first() =~= all.skip(i + 1));
            assert(all.skip(i as int)[0] == names@[i as int]@);
        }
        if is_offline_asset_name(names[i].as_str()) {
            return Ok(i);
        }
        i = i + 1;
    }
    Err(AppError::NotFound("最新 Release 中未找到 offline_assets_*.zip".to_string()))
}

/// The command line that restores the assets from the packages in `asset_dir`: the bundled
/// sidecar when there is one, else `babeldoc` when it is on the `PATH`, else
/// `python -m babeldoc`; each followed by `--restore-offline-assets` and the directory.
pub open spec fn restore_argv(sidecar: Option<Seq<char>>, babeldoc_on_path: bool, asset_dir: Seq<char>) -> Seq<
    Seq<char>,
> {
    match sidecar {
        Some(p) => seq![p, "--restore-offline-assets"@, asset_dir],
        None => if babeldoc_on_path {
            seq!["babeldoc"@, "--restore-offline-assets"@, asset_dir]
        } else {
            seq!["python"@, "-m"@, "babeldoc"@, "--restore-offline-assets"@, asset_dir]
        },
    }
}

/// The program and arguments of the restore.
pub fn restore_invocation(sidecar: Option<String>, babeldoc_on_path: bool, asset_dir: &str) -> (r: Vec<
    String,
>)
    ensures
        texts(r@) == restore_argv(crate::text::opt_text(sidecar), babeldoc_on_path, asset_dir@),
{
    let mut v: Vec<String> = Vec::new();
    match sidecar {
        Some(p) => {
            v.push(p);
        },
        None => {
            if babeldoc_on_path {
                v.push("babeldoc".to_string());
            } else {
                v.push("python".to_string());
                v.push("-m".to_string());
                v.push("babeldoc".to_string());
            }
        },
    }
    v.push("--restore-offline-assets".to_string());
    v.push(asset_dir.to_string());
    assert(texts(v@) =~= restore_argv(crate::text::opt_text(sidecar), babeldoc_on_path, asset_dir@));
    v
}

/// The error of a failed restore: the trimmed stderr, or the trimmed stdout when stderr is
/// blank, or "未知错误" when both are (both read as lossy UTF-8).
pub open spec fn restore_failure_text(stdout: Seq<u8>, stderr: Seq<u8>) -> Seq<char> {
    let err = trim(utf8_lossy_decode(stderr));
    let out = trim(utf8_lossy_decode(stdout));
    let detail = if err.len() == 0 {
        out
    } else {
        err
    };
    "恢复离线资源失败: "@ + if detail.len() == 0 {
        "未知错误"@
    } else {
        detail
    }
}

/// The error of a failed restore, from what the process printed.
pub fn restore_failure(stdout: &[u8], stderr: &[u8]) -> (r: AppError)
    ensures
        r@ == ErrorView::Translate(restore_failure_text(stdout@, stderr@)),
{
    let err_text = utf8_lossy(stderr);
    let err = trim_str(err_text.as_str());
    let out_text = utf8_lossy(stdout);
    let out = trim_str(out_text.as_str());
    let detail = if err.as_str().is_empty() {
        out
    } else {
        err
    };
    let mut m = "恢复离线资源失败: ".to_string();
    if detail.as_str().is_empty() {
        m.append("未知错误");
    } else {
        m.append(detail.as_str());
    }
    AppError::Translate(m)
}

/// Where BabelDOC keeps its cache, as path components to join: `BABELDOC_CACHE_DIR` itself;
/// else `babeldoc` under `XDG_CACHE_HOME`; else `.cache/babeldoc` under the home directory;
/// else `.cache/babeldoc` relative to the working directory.
pub open spec fn cache_dir_spec(
    babeldoc_cache_dir: Option<Seq<char>>,
    xdg_cache_home: Option<Seq<char>>,
    home: Option<Seq<char>>,
) -> Seq<Seq<char>> {
    match babeldoc_cache_dir {
        Some(d) => seq![d],
        None => match xdg_cache_home {
            Some(x) => seq![x, "babeldoc"@],
            None => match home {
                Some(h) => seq![h, ".cache"@, "babeldoc"@],
                None => seq![".cache"@, "babeldoc"@],
            },
        },
    }
}

/// The components of BabelDOC's cache directory, from the environment variables that
/// choose it (`home` is `USERPROFILE`, or `HOME` without it).
pub fn cache_dir_parts(
    babeldoc_cache_dir: Option<String>,
    xdg_cache_home: Option<String>,
    home: Option<String>,
) -> (r: Vec<String>)
    ensures
        texts(r@) == cache_dir_spec(
            crate::text::opt_text(babeldoc_cache_dir),
            crate::text::opt_text(xdg_cache_home),
            crate::text::opt_text(home),
        ),
{
    let mut v: Vec<String> = Vec::new();
    match babeldoc_cache_dir {
        Some(d) => {
            v.push(d);
        },
        None => match xdg_cache_home {
            Some(x) => {
                v.push(x);
                v.push("babeldoc".to_string());
            },
            None => {
                match home {
                    Some(h) => {
                        v.push(h);
                    },
                    None => {},
                }
                v.push(".cache".to_string());
                v.push("babeldoc".to_string());
            },
        },
    }
    assert(texts(v@) =~= cache_dir_spec(
        crate::text::opt_text(babeldoc_cache_dir),
        crate::text::opt_text(xdg_cache_home),
        crate::text::opt_text(home),
    ));
    v
}

} // verus!
