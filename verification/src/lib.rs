//! Verified core of a single-host telemetry server: the parsing and
//! formatting layer that turns raw operating-system state (byte counts,
//! sensor listings, key-value release files, filesystem statistics) into
//! the plain-text strings served to a monitoring widget.
use vstd::prelude::*;
use vstd::string::StringExecFns;

pub mod apt;
pub mod bytesize;
pub mod disk;
pub mod osrelease;
pub mod sensors;
pub mod temp;
pub mod text;
pub mod unameinfo;
pub mod uptime;

verus! {

/// Reachability verdict for a TCP port: `"Up"` when some candidate address
/// accepted a connection, `"Down"` when none did.
pub fn port(found: bool) -> (r: String)
    ensures
        found ==> r@ == "Up"@,
        !found ==> r@ == "Down"@,
{
    if found {
        String::from_str("Up")
    } else {
        String::from_str("Down")
    }
}

/// Reboot advice: the marker string when the reboot-required marker file
/// exists, the empty string otherwise.
pub fn reboot(marker_exists: bool) -> (r: String)
    ensures
        marker_exists ==> r@ == "REBOOT REQUIRED"@,
        !marker_exists ==> r@ == ""@,
{
    if marker_exists {
        String::from_str("REBOOT REQUIRED")
    } else {
        String::from_str("")
    }
}

/// Liveness string with the embedded server version.
pub fn status() -> (r: String)
    ensures
        r@ == "Status - Running - 0.2"@,
{
    String::from_str("Status - Running - 0.2")
}

/// Fixed body text for requests whose path matches no route.
pub fn not_found() -> (r: String)
    ensures
        r@ == "404 - Sorry, I can't do that Dave."@,
{
    String::from_str("404 - Sorry, I can't do that Dave.")
}

} // verus!
