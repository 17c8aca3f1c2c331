//! File names in the capsule store and beside the configuration directory.

use crate::stamp::{capsule_stamp, capsule_stamp_text, compact_stamp, compact_stamp_text, local_now, Stamp};
use vstd::prelude::*;
use vstd::string::StringExecFns;

verus! {

/// `emacs_capsule_<stamp>.zip`.
pub open spec fn capsule_file_text(s: Stamp) -> Seq<char> {
    "emacs_capsule_"@ + capsule_stamp_text(s) + ".zip"@
}

/// `.spacemacs_backup_<stamp>`.
pub open spec fn spacemacs_backup_text(s: Stamp) -> Seq<char> {
    ".spacemacs_backup_"@ + capsule_stamp_text(s)
}

/// `.emacs.backup_<YYYYMMDDHHMMSS>`.
pub open spec fn config_backup_text(s: Stamp) -> Seq<char> {
    ".emacs.backup_"@ + compact_stamp_text(s)
}

/// The name of the capsule archive made at `s`.
pub fn capsule_file_name(s: &Stamp) -> (r: String)
    requires
        s.wf(),
    ensures
        r@ == capsule_file_text(*s),
{
    let mut r = String::from_str("emacs_capsule_");
    r.append(capsule_stamp(s).as_str());
    r.append(".zip");
    r
}

/// The name of the copy of `.spacemacs` made at `s`.
pub fn spacemacs_backup_name(s: &Stamp) -> (r: String)
    requires
        s.wf(),
    ensures
        r@ == spacemacs_backup_text(*s),
{
    let mut r = String::from_str(".spacemacs_backup_");
    r.append(capsule_stamp(s).as_str());
    r
}

/// The name that the configuration directory is moved to at `s` before a
/// restore.
pub fn config_backup_name(s: &Stamp) -> (r: String)
    requires
        s.wf(),
    ensures
        r@ == config_backup_text(*s),
{
    let mut r = String::from_str(".emacs.backup_");
    r.append(compact_stamp(s).as_str());
    r
}

/// The names of the files one capsule creation writes into the store.
pub struct CapsuleNames {
    /// The archive.
    pub capsule: String,
    /// The copy of `.spacemacs`.
    pub spacemacs_backup: String,
}

/// Names for a capsule made now; both carry the same timestamp.
pub fn capsule_names_now() -> (r: CapsuleNames)
    ensures
        exists|s: Stamp|
            s.wf() && r.capsule@ == capsule_file_text(s) && r.spacemacs_backup@
                == spacemacs_backup_text(s),
{
    let s = local_now();
    CapsuleNames { capsule: capsule_file_name(&s), spacemacs_backup: spacemacs_backup_name(&s) }
}

/// The name to move the configuration directory to, stamped now.
pub fn config_backup_name_now() -> (r: String)
    ensures
        exists|s: Stamp| s.wf() && r@ == config_backup_text(s),
{
    let s = local_now();
    config_backup_name(&s)
}

} // verus!
