//! The action gateway: terminate a listener's process, or open its port in
//! a browser.
//!
//! Termination demands re-validation: the caller captures a fresh listener
//! table, and any process identifier not in it is refused, even one that a
//! stale table still showed. Opening a port refuses privileged ports
//! silently and otherwise builds a loopback HTTP URL.

use crate::scanner;
use crate::tables;
use crate::text;
use vstd::prelude::*;

verus! {

/// The process identifier currently holds some listening port.
pub open spec fn spec_kill_allowed(listening: Seq<(u32, Seq<u16>)>, pid: u32) -> bool {
    exists|i: int| 0 <= i < listening.len() && (#[trigger] listening[i]).0 == pid
}

/// Re-validation check for termination: `true` exactly when `pid` is present
/// in the freshly captured listener table handed in. A `false` answer means
/// the action is refused and reports failure; no staler evidence counts.
pub fn kill_server_allowed(listening: &scanner::PortTable, pid: u32) -> (r: bool)
    ensures
        r == spec_kill_allowed(listening.deep_view(), pid),
{
    let ghost lv = listening.deep_view();
    proof {
        assert forall|j: int| 0 <= j < listening@.len() implies (#[trigger] lv[j]).0
            == listening@[j].0 by {}
    }
    match tables::find_key(listening, pid) {
        Some(i) => {
            proof {
                assert(lv[i as int].0 == pid);
            }
            true
        },
        None => {
            proof {
                assert forall|j: int| 0 <= j < lv.len() implies (#[trigger] lv[j]).0 != pid by {}
            }
            false
        },
    }
}

/// The URL the open action hands to the system's default handler: nothing
/// for a privileged port, otherwise the loopback HTTP URL of the port.
pub open spec fn spec_browser_url(port: u16) -> Option<Seq<char>> {
    if port < 1024 {
        None
    } else {
        Some("http://localhost:"@ + text::spec_dec_str(port as int))
    }
}

/// Executable counterpart of [`spec_browser_url`].
pub fn browser_url(port: u16) -> (r: Option<String>)
    ensures
        port < 1024 ==> r is None,
        port >= 1024 ==> ({
            &&& r matches Some(u) && u@ == "http://localhost:"@ + text::spec_dec_str(port as int)
        }),
{
    if port < 1024 {
        return None;
    }
    let mut u = "http://localhost:".to_owned();
    let digits = text::u16_to_string(port);
    u.append(digits.as_str());
    Some(u)
}

} // verus!
