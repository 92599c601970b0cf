//! Scratch-file naming: the one decision the scratch-file manager makes.
//!
//! Creating, rewinding, re-reading and deleting the scratch file are
//! filesystem work and live with the surrounding process; what the
//! library decides is the suffix the unique name carries, so that the
//! editor can recognize the file's kind.

use vstd::prelude::*;
use vstd::string::StringExecFns;

verus! {

/// The suffix for the scratch file's name: `.` followed by the extension
/// hint, or nothing when there is no hint.
pub fn scratch_suffix(hint: &Option<String>) -> (r: Option<String>)
    ensures
        match hint {
            Some(h) => (r matches Some(s) && s@ == seq!['.'] + h@),
            None => r is None,
        },
{
    match hint {
        Some(h) => {
            let mut s = String::from_str(".");
            proof {
                reveal_strlit(".");
                assert("."@ =~= seq!['.']);
            }
            s.append(h.as_str());
            Some(s)
        },
        None => None,
    }
}

} // verus!
