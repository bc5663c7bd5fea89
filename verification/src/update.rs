//! The decisions of the self-update command: which release asset fits the
//! platform, where it is downloaded from, and whether a download is large
//! enough to be the program.

use vstd::prelude::*;

use crate::text::{decimal, str_eq, u64_to_string};

verus! {

/// Why an update was refused.
pub enum UpdateError {
    /// No release is built for this operating system.
    UnsupportedPlatform { os: String },
    /// The download is too small to be the program.
    TooSmall { len: usize },
}

/// The smallest download accepted as the program, in bytes.
pub const MIN_BINARY_LEN: usize = 1000000usize;

/// The release asset for an operating system (as `std::env::consts::OS`
/// names it).
pub open spec fn release_asset(os: Seq<char>) -> Option<Seq<char>> {
    if os == "macos"@ {
        Some("tapd-macos"@)
    } else if os == "linux"@ {
        Some("tapd-linux"@)
    } else {
        None
    }
}

/// Where the latest release of an asset is downloaded from.
pub open spec fn asset_url(asset: Seq<char>) -> Seq<char> {
    "https://github.com/nightlysnow/tapd-cli/releases/latest/download/"@ + asset
}

impl UpdateError {
    /// The message shown for this error.
    pub fn message(&self) -> (r: String)
        ensures
            match self {
                UpdateError::UnsupportedPlatform { os } => r@ == "不支持的平台: "@ + os@
                    + "，仅支持 macOS 和 Linux"@,
                UpdateError::TooSmall { len } => r@ == "下载的文件过小 ("@ + decimal(*len as nat)
                    + " bytes)，可能不是有效的二进制文件"@,
            },
    {
        match self {
            UpdateError::UnsupportedPlatform { os } => {
                let mut r = String::from_str("不支持的平台: ");
                r.append(os.as_str());
                r.append("，仅支持 macOS 和 Linux");
                r
            },
            UpdateError::TooSmall { len } => {
                let mut r = String::from_str("下载的文件过小 (");
                let n = u64_to_string(*len as u64);
                r.append(n.as_str());
                r.append(" bytes)，可能不是有效的二进制文件");
                r
            },
        }
    }
}

/// The release asset for `os`; only macOS and Linux have one.
pub fn release_asset_for(os: &str) -> (r: Result<String, UpdateError>)
    ensures
        match (r, release_asset(os@)) {
            (Ok(a), Some(b)) => a@ == b,
            (Err(UpdateError::UnsupportedPlatform { os: o }), None) => o@ == os@,
            _ => false,
        },
{
    if str_eq(os, "macos") {
        Ok(String::from_str("tapd-macos"))
    } else if str_eq(os, "linux") {
        Ok(String::from_str("tapd-linux"))
    } else {
        Err(UpdateError::UnsupportedPlatform { os: String::from_str(os) })
    }
}

/// The download URL of the latest release of `asset`.
pub fn download_url(asset: &str) -> (r: String)
    ensures
        r@ == asset_url(asset@),
{
    let mut r = String::from_str("https://github.com/nightlysnow/tapd-cli/releases/latest/download/");
    r.append(asset);
    r
}

/// Accepts a download of `len` bytes as the program only from
/// `MIN_BINARY_LEN` bytes on.
pub fn check_download_size(len: usize) -> (r: Result<(), UpdateError>)
    ensures
        len < MIN_BINARY_LEN ==> (r matches Err(UpdateError::TooSmall { len: l }) && l == len),
        len >= MIN_BINARY_LEN ==> r is Ok,
{
    if len < MIN_BINARY_LEN {
        Err(UpdateError::TooSmall { len })
    } else {
        Ok(())
    }
}

} // verus!
