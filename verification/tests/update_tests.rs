use tapd_cli::update::{check_download_size, download_url, release_asset_for, UpdateError};

#[test]
fn assets_per_platform() {
    assert_eq!(release_asset_for("macos").ok(), Some("tapd-macos".to_string()));
    assert_eq!(release_asset_for("linux").ok(), Some("tapd-linux".to_string()));
    match release_asset_for("windows") {
        Err(e @ UpdateError::UnsupportedPlatform { .. }) => {
            assert_eq!(e.message(), "不支持的平台: windows，仅支持 macOS 和 Linux")
        }
        _ => panic!("expected an unsupported platform"),
    }
}

#[test]
fn download_location() {
    assert_eq!(
        download_url("tapd-linux"),
        "https://github.com/nightlysnow/tapd-cli/releases/latest/download/tapd-linux"
    );
}

#[test]
fn size_check() {
    assert!(check_download_size(1_000_000).is_ok());
    match check_download_size(999_999) {
        Err(e @ UpdateError::TooSmall { .. }) => {
            assert_eq!(e.message(), "下载的文件过小 (999999 bytes)，可能不是有效的二进制文件")
        }
        _ => panic!("expected too small"),
    }
    assert!(check_download_size(0).is_err());
}
