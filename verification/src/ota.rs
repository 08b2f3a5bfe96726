//! Firmware update decisions: following a download redirect, and the
//! summary of the running firmware.

use vstd::prelude::*;

verus! {

/// HTTP statuses that redirect a firmware download: 301, 302, 303, 307
/// and 308.
pub open spec fn redirect_status(status: u16) -> bool {
    status == 301 || status == 302 || status == 303 || status == 307 || status == 308
}

/// Only 3xx statuses redirect, and of them neither 300 (a choice among
/// several resources), 304 (not modified) nor 305 and 306 (proxy
/// statuses no longer in use) does.
pub proof fn redirects_are_3xx(status: u16)
    ensures
        redirect_status(status) ==> 300 <= status < 400,
        redirect_status(status) <==> (301 <= status <= 308 && status != 304 && status != 305
            && status != 306),
{
}

/// Whether a reply with this status redirects the download to its
/// `Location` header.
pub fn is_redirect(status: u16) -> (r: bool)
    ensures
        r == redirect_status(status),
{
    status == 301 || status == 302 || status == 303 || status == 307 || status == 308
}

/// Summary of the running firmware: `partition=LABEL, firmware=VERSION`,
/// with `unknown` when the partition carries no firmware description.
pub fn partition_summary(label: &str, version: Option<&str>) -> (r: String)
    ensures
        r@ == "partition="@ + label@ + ", firmware="@ + match version {
            Some(v) => v@,
            None => "unknown"@,
        },
{
    let mut r = String::from_str("partition=");
    r.append(label);
    r.append(", firmware=");
    match version {
        Some(v) => r.append(v),
        None => r.append("unknown"),
    }
    r
}

} // verus!
