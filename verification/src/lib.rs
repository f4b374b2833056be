//! Calendar export library: recurrence materialization and RFC 5545 content
//! encoding (text escaping, byte-limited UTF-8-safe line folding), with the
//! document serializers built on them.
use vstd::prelude::*;

pub mod collect;
pub mod date;
pub mod encode;
pub mod garbage;
pub mod ical;
pub mod postgang;
pub mod serialize;
pub mod store;
pub mod uid;

verus! {

use vstd::string::StringExecFns;

/// Join an error text and the path it concerns, as failure reports render
/// them: the error, a colon and a space, the path.
pub fn io_error_to_string(err: &str, path: &str) -> (r: String)
    ensures
        r@ == err@ + ": "@ + path@,
{
    let mut s = String::from_str(err);
    s.append(": ");
    s.append(path);
    proof {
        assert(s@ =~= err@ + ": "@ + path@);
    }
    s
}

} // verus!
