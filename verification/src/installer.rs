//! The installer collaborator: deployment URL derivation, the version
//! record built from the version endpoint's reply, and the check that a
//! directory holds a playable installation. Fetching the reply and probing
//! the directory are the boundary layer's work.

use crate::models::VersionInfo;
use crate::text::str_eq;
use vstd::prelude::*;

verus! {

/// The installer and the deployment host it downloads from.
pub struct RobloxInstaller {
    pub download_url: String,
}

impl RobloxInstaller {
    /// The fixed deployment host.
    pub fn new() -> (r: RobloxInstaller)
        ensures
            r.download_url@ == "https://setup.rbxcdn.com"@,
    {
        RobloxInstaller { download_url: "https://setup.rbxcdn.com".to_owned() }
    }

    /// The fixed client-version endpoint the version record is read from.
    pub fn version_info_url(&self) -> (r: String)
        ensures
            r@ == "https://clientsettingscdn.roblox.com/v2/client-version/WindowsPlayer"@,
    {
        "https://clientsettingscdn.roblox.com/v2/client-version/WindowsPlayer".to_owned()
    }

    /// The bootstrapper's download URL under the deployment host.
    pub fn bootstrapper_url(&self) -> (r: String)
        ensures
            r@ == self.download_url@ + "/RobloxPlayerLauncher.exe"@,
    {
        let mut s = self.download_url.clone();
        s.append("/RobloxPlayerLauncher.exe");
        s
    }

    /// The version record built from the version endpoint's reply: the
    /// client-version-upload field, or `unknown` when the reply lacks it,
    /// and the deployment URL with its trailing slash.
    pub fn version_info_from(&self, client_version_upload: Option<String>) -> (r: VersionInfo)
        ensures
            match client_version_upload {
                Some(v) => r.version@ == v@,
                None => r.version@ == "unknown"@,
            },
            r.deployment_url@ == self.download_url@ + "/"@,
    {
        let version = match client_version_upload {
            Some(v) => v,
            None => "unknown".to_owned(),
        };
        let mut deployment_url = self.download_url.clone();
        deployment_url.append("/");
        VersionInfo { version, deployment_url }
    }

    /// Whether a directory holds a playable installation: the root must
    /// exist and its listing must hold the player binary.
    pub fn verify_installation(&self, root_exists: bool, entries: &Vec<String>) -> (r: bool)
        ensures
            r == (root_exists && (exists|i: int|
                0 <= i < entries@.len() && #[trigger] entries@[i]@ == "RobloxPlayerBeta.exe"@)),
    {
        if !root_exists {
            return false;
        }
        let mut i: usize = 0;
        while i < entries.len()
            invariant
                root_exists,
                i <= entries@.len(),
                forall|j: int| 0 <= j < i ==> #[trigger] entries@[j]@ != "RobloxPlayerBeta.exe"@,
            decreases entries@.len() - i,
        {
            if str_eq(entries[i].as_str(), "RobloxPlayerBeta.exe") {
                proof {
                    assert(0 <= i < entries@.len() && entries@[i as int]@
                        == "RobloxPlayerBeta.exe"@);
                }
                return true;
            }
            i += 1;
        }
        false
    }
}

} // verus!
