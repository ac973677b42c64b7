//! The lines the relay logs when it starts.
use vstd::prelude::*;
use crate::ids::AppId;
use crate::text::{concat, decimal_string, u64_to_string};

verus! {

/// What the build recorded about itself.
#[derive(Debug)]
pub struct BuildInfo {
    pub pkg_name: String,
    pub pkg_version: String,
    pub build_date: String,
    pub build_time: String,
    /// `"false"` for a build from a clean checkout.
    pub git_dirty: String,
    pub git_commit_short: String,
}

/// The version named in the banner: the commit for a clean build, else
/// `SNAPSHOT`.
pub open spec fn banner_commit(b: BuildInfo) -> Seq<char> {
    if b.git_dirty@ == "false"@ {
        b.git_commit_short@
    } else {
        "SNAPSHOT"@
    }
}

/// The start-up banner.
pub open spec fn banner_spec(b: BuildInfo) -> Seq<char> {
    "🌈 Samply.Connect ("@ + b.pkg_name@ + ") v"@ + b.pkg_version@ + " (built "@ + b.build_date@
        + " "@ + b.build_time@ + ", "@ + banner_commit(b) + ") starting up ..."@
}

/// The start-up banner (see [`banner_spec`]).
pub fn print_banner(build: &BuildInfo) -> (r: String)
    ensures
        r@ == banner_spec(*build),
{
    let dirty_false = "false".to_owned();
    let commit: String = if build.git_dirty == dirty_false {
        build.git_commit_short.clone()
    } else {
        "SNAPSHOT".to_owned()
    };
    let mut s = concat("🌈 Samply.Connect (", build.pkg_name.as_str());
    s.append(") v");
    s.append(build.pkg_version.as_str());
    s.append(" (built ");
    s.append(build.build_date.as_str());
    s.append(" ");
    s.append(build.build_time.as_str());
    s.append(", ");
    s.append(commit.as_str());
    s.append(") starting up ...");
    s
}

/// The line that sums up the configuration at start-up.
pub fn print_startup_app_config(proxy_url: &str, my_app_id: &AppId, local_entries: u64, central_entries: u64) -> (r: String)
    ensures
        r@ == "Communicating with Proxy "@ + proxy_url@ + " using AppId "@ + my_app_id@
            + ". There are "@ + decimal_string(local_entries as nat) + " entries in the local and "@
            + decimal_string(central_entries as nat) + " entries in the central target configuration."@,
{
    let mut s = concat("Communicating with Proxy ", proxy_url);
    s.append(" using AppId ");
    s.append(my_app_id.as_str());
    s.append(". There are ");
    let a = u64_to_string(local_entries);
    s.append(a.as_str());
    s.append(" entries in the local and ");
    let b = u64_to_string(central_entries);
    s.append(b.as_str());
    s.append(" entries in the central target configuration.");
    s
}

} // verus!
