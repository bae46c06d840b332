use vstd::prelude::*;

verus! {

/// The run configuration, fixed once at startup and never mutated.
pub struct Opt {
    /// Source text of the regular expression records are matched against.
    pub regex: String,
    /// When set, the record at index 0 is matched like any other record
    /// instead of always passing.
    pub no_header: bool,
    /// Path of the input file; the caller reads standard input when absent.
    pub file: Option<String>,
}

} // verus!
