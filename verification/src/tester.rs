use vstd::prelude::*;
use crate::pattern::Pattern;
use crate::pattern::re_match;

verus! {

/// Whether the record at `index`, with reconstructed line `line`,
/// passes the filter: the record at index 0 always passes when
/// `print_header` is set; otherwise the pattern must match somewhere
/// within the line.
pub open spec fn passes(print_header: bool, pat: Seq<char>, index: int, line: Seq<char>) -> bool {
    (index == 0 && print_header) || re_match(pat, line)
}

/// Decides pass/fail for one record, given its index and reconstructed
/// line. Built once from two immutable values: the header-exemption
/// flag and a compiled pattern.
pub struct CsvRecordTester {
    print_header: bool,
    re: Pattern,
}

impl CsvRecordTester {
    /// Whether the record at index 0 always passes.
    pub closed spec fn print_header(&self) -> bool {
        self.print_header
    }

    /// The source text of the pattern records are matched against.
    pub closed spec fn pattern_text(&self) -> Seq<char> {
        self.re@
    }

    pub fn new(print_header: bool, re: Pattern) -> (r: Self)
        ensures
            r.print_header() == print_header,
            r.pattern_text() == re@,
    {
        CsvRecordTester { print_header, re }
    }

    /// Pure pass/fail decision for the record at index `i` with
    /// reconstructed line `r`.
    pub fn test(&self, i: usize, r: &str) -> (pass: bool)
        ensures
            pass == passes(self.print_header(), self.pattern_text(), i as int, r@),
    {
        (i == 0 && self.print_header) || self.re.is_match(r)
    }
}

} // verus!
