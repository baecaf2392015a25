//! The service-manager handshake, as far as it is a decision: the client
//! starts the daemon's unit only when its reported state says it is not
//! already running or coming up.

use vstd::prelude::*;

verus! {

/// Name of the daemon's unit at the session service manager.
pub const SERVICE_NAME: &'static str = "gaimoded.service";

/// Whether a unit in state `state` must be started: only "active" and
/// "activating" mean the daemon is already there.
pub fn daemon_needs_start(state: &String) -> (r: bool)
    ensures
        r == (state@ != "active"@ && state@ != "activating"@),
{
    let active: String = "active".to_owned();
    let activating: String = "activating".to_owned();
    !(state.eq(&active) || state.eq(&activating))
}

} // verus!
