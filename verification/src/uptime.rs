//! The service status line.
//!
//! The monotonic clock and the process-wide request counter live with the
//! caller; this renders the two numbers into the reported text.

use crate::text::{dec_chars, fmt_u64};
use vstd::prelude::*;

verus! {

/// The status text for an uptime and a request count.
pub open spec fn stats_chars(uptime_secs: u64, requests: u64) -> Seq<char> {
    "Uptime: "@ + dec_chars(uptime_secs as nat) + " seconds, Requests: "@ + dec_chars(
        requests as nat,
    )
}

/// Render the status line for an uptime and a request count.
pub fn stats_text(uptime_secs: u64, requests: u64) -> (r: String)
    ensures
        r@ == stats_chars(uptime_secs, requests),
{
    proof {
        reveal_strlit("Uptime: ");
        reveal_strlit(" seconds, Requests: ");
    }
    let mut out = "Uptime: ".to_owned();
    let up = fmt_u64(uptime_secs);
    out.append(up.as_str());
    out.append(" seconds, Requests: ");
    let reqs = fmt_u64(requests);
    out.append(reqs.as_str());
    proof {
        assert(out@ =~= stats_chars(uptime_secs, requests));
    }
    out
}

} // verus!
