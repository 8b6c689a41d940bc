//! The supervisor's bookkeeping: one record per managed sandbox process,
//! invalidated when the configuration file changed under it.

use vstd::prelude::*;

use crate::strutil::str_eq;

verus! {

/// What a supervisor persists about its sandbox: the process id, the
/// configuration file it was launched from, and that file's modification
/// time at launch.
pub struct SupervisorRecord {
    /// Process id of the supervisor.
    pub pid: u32,
    /// Path of the configuration file the sandbox was launched from.
    pub config_path: String,
    /// Modification time of that file at launch, in seconds.
    pub config_mtime: u64,
}

/// Whether a record is still current: the configuration file has the same
/// modification time as at launch.
pub open spec fn record_current(rec_mtime: u64, observed_mtime: u64) -> bool {
    rec_mtime == observed_mtime
}

impl SupervisorRecord {
    /// Whether this record is still current for the observed modification
    /// time of its configuration file.
    pub fn is_current(&self, observed_mtime: u64) -> (r: bool)
        ensures
            r == record_current(self.config_mtime, observed_mtime),
    {
        self.config_mtime == observed_mtime
    }
}

/// Whether a record survives an invalidation pass against `path` observed
/// at `mtime`: records of other files are untouched; a record of `path`
/// survives only when its launch-time mtime still matches.
pub open spec fn record_survives(rec: SupervisorRecord, path: Seq<char>, mtime: u64) -> bool {
    rec.config_path@ != path || rec.config_mtime == mtime
}

/// Drops every record whose configuration file is `path` but whose
/// launch-time modification time no longer matches `mtime`: a changed
/// configuration invalidates the sandboxes recorded under it.
pub fn invalidate_stale(
    records: Vec<SupervisorRecord>,
    path: &str,
    mtime: u64,
) -> (r: Vec<SupervisorRecord>)
    ensures
        r@ == records@.filter(|rec: SupervisorRecord| record_survives(rec, path@, mtime)),
{
    let mut out: Vec<SupervisorRecord> = Vec::new();
    let n = records.len();
    let mut i: usize = 0;
    proof {
        reveal_with_fuel(Seq::filter, 2);
        assert(records@.subrange(0, 0) =~= Seq::<SupervisorRecord>::empty());
    }
    while i < n
        invariant
            i <= n,
            n == records@.len(),
            out@ == records@.subrange(0, i as int).filter(
                |rec: SupervisorRecord| record_survives(rec, path@, mtime),
            ),
        decreases n - i,
    {
        proof {
            reveal_with_fuel(Seq::filter, 2);
            assert(records@.subrange(0, i + 1).drop_last() =~= records@.subrange(0, i as int));
        }
        let keep = if str_eq(records[i].config_path.as_str(), path) {
            records[i].config_mtime == mtime
        } else {
            true
        };
        if keep {
            let rec = SupervisorRecord {
                pid: records[i].pid,
                config_path: records[i].config_path.clone(),
                config_mtime: records[i].config_mtime,
            };
            proof {
                assert(rec.config_path@ == records@[i as int].config_path@);
            }
            out.push(rec);
            proof {
                assert(out@.last() == rec);
            }
        }
        i = i + 1;
    }
    proof {
        assert(records@.subrange(0, n as int) =~= records@);
    }
    out
}

} // verus!
