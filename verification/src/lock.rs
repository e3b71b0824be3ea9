//! Single-instance guard for the two daemons on a shared database: the lock
//! is `.<name>.lock` in the database directory (the locking is done by the daemon).
use vstd::prelude::*;

verus! {

/// Returned when another process already holds the lock.
#[derive(Debug)]
pub struct LockDenied {
    pub path: String,
    pub name: String,
}

/// The explanation given to the operator.
pub open spec fn denial_text(name: Seq<char>, path: Seq<char>) -> Seq<char> {
    "another '"@ + name + "' is already running against this database (lock: "@ + path
        + "). Exactly one collector and one server may be running per database at a time, but any number of frontend browser tabs may connect to the server. Kill the existing one (e.g. `pkill -x spark-collect` or `pkill -x spark-serve`, whichever holds the '"@
        + name + "' lock) and try again."@
}

impl LockDenied {
    /// Human-readable explanation for the operator, written to stderr.
    pub fn describe(&self) -> (s: String)
        ensures
            s@ == denial_text(self.name@, self.path@),
    {
        let mut s = String::from_str("another '");
        s.append(self.name.as_str());
        s.append("' is already running against this database (lock: ");
        s.append(self.path.as_str());
        s.append(
            "). Exactly one collector and one server may be running per database at a time, but any number of frontend browser tabs may connect to the server. Kill the existing one (e.g. `pkill -x spark-collect` or `pkill -x spark-serve`, whichever holds the '",
        );
        s.append(self.name.as_str());
        s.append("' lock) and try again.");
        s
    }
}

/// The lock file's name for daemon `name`: `.<name>.lock`.
pub fn lock_file_name(name: &str) -> (s: String)
    ensures
        s@ == "."@ + name@ + ".lock"@,
{
    let mut s = String::from_str(".");
    s.append(name);
    s.append(".lock");
    s
}

} // verus!
