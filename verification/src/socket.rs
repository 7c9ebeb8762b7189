//! The socket path convention: where the player's socket lives, given the
//! platform directories that the caller resolved.

use vstd::prelude::*;
use vstd::string::StringExecFns;

verus! {

/// The socket path: `cmus-socket` under the runtime directory when there
/// is one, else `.config/cmus/socket` under the home directory, else
/// nothing.
pub fn socket_path_from(runtime_dir: Option<String>, home_dir: Option<String>) -> (r: Option<
    String,
>)
    ensures
        runtime_dir matches Some(d) ==> (r matches Some(p) && p@ == d@ + "/cmus-socket"@),
        runtime_dir is None ==> (home_dir matches Some(h) ==> (r matches Some(p) && p@ == h@
            + "/.config/cmus/socket"@)),
        runtime_dir is None && home_dir is None ==> r is None,
{
    match runtime_dir {
        Some(d) => Some(d.concat("/cmus-socket")),
        None => match home_dir {
            Some(h) => Some(h.concat("/.config/cmus/socket")),
            None => None,
        },
    }
}

} // verus!
