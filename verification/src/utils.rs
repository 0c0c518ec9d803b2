//! Names of the files that a run leaves behind.

use crate::text::{append_decimal, decimal, lemma_decimal_injective};
use vstd::prelude::*;
use vstd::string::StringExecFns;

verus! {

/// The name of the file that keeps a rejected reply: `dump_`, the time in
/// seconds, `.log`.
pub open spec fn dump_name(timestamp: nat) -> Seq<char> {
    "dump_"@ + decimal(timestamp) + ".log"@
}

/// Rejections at different times are kept in different files.
pub proof fn lemma_dump_names_differ(a: nat, b: nat)
    requires
        dump_name(a) == dump_name(b),
    ensures
        a == b,
{
    reveal_strlit("dump_");
    reveal_strlit(".log");
    let na = dump_name(a);
    let nb = dump_name(b);
    assert(decimal(a).len() == decimal(b).len()) by {
        assert(na.len() == 5 + decimal(a).len() + 4);
        assert(nb.len() == 5 + decimal(b).len() + 4);
    }
    assert(na.subrange(5, 5 + decimal(a).len() as int) =~= decimal(a));
    assert(nb.subrange(5, 5 + decimal(b).len() as int) =~= decimal(b));
    lemma_decimal_injective(a, b);
}

/// The name of the file that keeps the raw reply of the run that was
/// rejected at `timestamp`, in seconds since the epoch.
pub fn dump_file_name(timestamp: u64) -> (name: String)
    ensures
        name@ == dump_name(timestamp as nat),
{
    let mut name = String::from_str("dump_");
    append_decimal(&mut name, timestamp);
    name.append(".log");
    name
}

/// The identifier to try after `taken`, where a file of that identifier is
/// there already: the next one. None where there is none.
pub fn next_dump_id(taken: u64) -> (next: Option<u64>)
    ensures
        next == if taken < u64::MAX {
            Some((taken + 1) as u64)
        } else {
            None
        },
{
    if taken < u64::MAX {
        Some(taken + 1)
    } else {
        None
    }
}

/// The message after a raw reply could not be kept.
pub fn dump_failure(cause: &str) -> (message: String)
    ensures
        message@ == "Failed to save dump log: "@ + cause@,
{
    let mut message = String::from_str("Failed to save dump log: ");
    message.append(cause);
    message
}

} // verus!
