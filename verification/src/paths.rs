//! Path resolution: maps a device root to the fixed location of the
//! library database file.

use vstd::prelude::*;
use vstd::string::StringExecFns;

verus! {

/// The fixed relative location of the library database under a device root.
pub open spec fn db_suffix() -> Seq<char> {
    "/.kobo/KoboReader.sqlite"@
}

/// Resolves a device root to the on-disk location of the library database.
/// A pure mapping: no input is rejected and no I/O is performed.
pub fn get_kobo_db_path(device_path: &str) -> (r: String)
    ensures
        r@ == device_path@ + db_suffix(),
{
    String::from_str(device_path).concat("/.kobo/KoboReader.sqlite")
}

} // verus!
