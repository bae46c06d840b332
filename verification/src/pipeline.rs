use vstd::prelude::*;
use crate::config::Opt;
use crate::pattern::Pattern;
use crate::pattern::regex_valid;
use crate::record::csv_rows;
use crate::record::join_fields;
use crate::record::joined;
use crate::record::parse_records;
use crate::tester::CsvRecordTester;
use crate::tester::passes;

verus! {

/// The reconstructed lines of the records that pass, in input order:
/// what a run over `rows` emits.
pub open spec fn filtered_lines(
    rows: Seq<Seq<Seq<char>>>,
    print_header: bool,
    pat: Seq<char>,
) -> Seq<Seq<char>>
    decreases rows.len(),
{
    if rows.len() == 0 {
        Seq::empty()
    } else {
        let prefix = filtered_lines(rows.drop_last(), print_header, pat);
        let i = rows.len() - 1;
        if passes(print_header, pat, i, joined(rows[i])) {
            prefix.push(joined(rows[i]))
        } else {
            prefix
        }
    }
}

/// The indices of the records that pass, in the order their lines are
/// emitted.
pub open spec fn kept_indices(
    rows: Seq<Seq<Seq<char>>>,
    print_header: bool,
    pat: Seq<char>,
) -> Seq<int>
    decreases rows.len(),
{
    if rows.len() == 0 {
        Seq::empty()
    } else {
        let prefix = kept_indices(rows.drop_last(), print_header, pat);
        let i = rows.len() - 1;
        if passes(print_header, pat, i, joined(rows[i])) {
            prefix.push(i)
        } else {
            prefix
        }
    }
}

/// Order preservation: the emitted lines are exactly the reconstructed
/// lines of the passing records, one per passing record, in strictly
/// increasing index order — no reordering and no duplication.
pub proof fn lemma_order_preservation(rows: Seq<Seq<Seq<char>>>, print_header: bool, pat: Seq<char>)
    ensures
        filtered_lines(rows, print_header, pat).len() == kept_indices(
            rows,
            print_header,
            pat,
        ).len(),
        forall|k: int| 0 <= k < kept_indices(rows, print_header, pat).len() ==> 0 <= #[trigger] kept_indices(
            rows,
            print_header,
            pat,
        )[k] < rows.len(),
        forall|k: int| 0 <= k < kept_indices(rows, print_header, pat).len() ==> #[trigger] filtered_lines(
            rows,
            print_header,
            pat,
        )[k] == joined(rows[kept_indices(rows, print_header, pat)[k]]),
        forall|a: int, b: int| 0 <= a < b < kept_indices(rows, print_header, pat).len()
            ==> #[trigger] kept_indices(rows, print_header, pat)[a] < #[trigger] kept_indices(
            rows,
            print_header,
            pat,
        )[b],
    decreases rows.len(),
{
    if rows.len() > 0 {
        lemma_order_preservation(rows.drop_last(), print_header, pat);
        assert forall|k: int| 0 <= k < rows.len() - 1 implies #[trigger] rows.drop_last()[k]
            == rows[k] by {}
    }
}

/// Every passing record is emitted and every emitted record passes:
/// the kept indices are exactly those whose reconstructed line the
/// tester accepts.
pub proof fn lemma_kept_complete(rows: Seq<Seq<Seq<char>>>, print_header: bool, pat: Seq<char>)
    ensures
        forall|i: int| 0 <= i < rows.len() ==> (kept_indices(rows, print_header, pat).contains(i)
            <==> passes(print_header, pat, i, #[trigger] joined(rows[i]))),
    decreases rows.len(),
{
    if rows.len() > 0 {
        let sub = rows.drop_last();
        let prefix = kept_indices(sub, print_header, pat);
        let kept = kept_indices(rows, print_header, pat);
        let last = rows.len() - 1;
        lemma_kept_complete(sub, print_header, pat);
        lemma_order_preservation(sub, print_header, pat);
        assert forall|k: int| 0 <= k < rows.len() - 1 implies #[trigger] sub[k] == rows[k] by {}
        assert forall|i: int| 0 <= i < rows.len() && kept.contains(i) implies passes(
            print_header,
            pat,
            i,
            joined(rows[i]),
        ) by {
            let k = choose|k: int| 0 <= k < kept.len() && kept[k] == i;
            if k < prefix.len() {
                assert(prefix[k] == i);
                assert(prefix.contains(i));
                assert(0 <= i < sub.len());
                assert(joined(sub[i]) == joined(rows[i]));
            } else {
                assert(i == last);
            }
        }
        assert forall|i: int| 0 <= i < rows.len() && passes(
            print_header,
            pat,
            i,
            joined(rows[i]),
        ) implies kept.contains(i) by {
            if i < last {
                assert(joined(sub[i]) == joined(rows[i]));
                assert(prefix.contains(i));
                let k = choose|k: int| 0 <= k < prefix.len() && prefix[k] == i;
                assert(kept[k] == i);
            } else {
                assert(kept.last() == i);
            }
        }
    }
}

/// Header exemption: for any non-empty input, when header exemption is
/// enabled the record at index 0 is always emitted, and emitted first,
/// whatever the pattern.
pub proof fn lemma_header_exemption(rows: Seq<Seq<Seq<char>>>, pat: Seq<char>)
    requires
        rows.len() > 0,
    ensures
        filtered_lines(rows, true, pat).len() > 0,
        filtered_lines(rows, true, pat)[0] == joined(rows[0]),
        kept_indices(rows, true, pat)[0] == 0,
    decreases rows.len(),
{
    if rows.len() == 1 {
        assert(passes(true, pat, 0, joined(rows[0])));
    } else {
        lemma_header_exemption(rows.drop_last(), pat);
        lemma_order_preservation(rows.drop_last(), true, pat);
        assert(rows.drop_last()[0] == rows[0]);
    }
}

/// Header suppression: when header exemption is disabled, the record at
/// index 0 is emitted if and only if the pattern matches within its
/// reconstructed line — identical treatment to every other index.
pub proof fn lemma_header_suppression(rows: Seq<Seq<Seq<char>>>, pat: Seq<char>)
    ensures
        forall|i: int| 0 <= i < rows.len() ==> (kept_indices(rows, false, pat).contains(i)
            <==> crate::pattern::re_match(pat, #[trigger] joined(rows[i]))),
{
    lemma_kept_complete(rows, false, pat);
}

/// Streaming: what is emitted for the first `n` records does not depend
/// on the records that follow — the output for a prefix of the input is
/// a prefix of the output for the whole input, so each passing line can
/// be emitted as soon as its record arrives.
pub proof fn lemma_streaming_prefix(
    rows: Seq<Seq<Seq<char>>>,
    n: int,
    print_header: bool,
    pat: Seq<char>,
)
    requires
        0 <= n <= rows.len(),
    ensures
        filtered_lines(rows.subrange(0, n), print_header, pat).len() <= filtered_lines(
            rows,
            print_header,
            pat,
        ).len(),
        forall|k: int| 0 <= k < filtered_lines(rows.subrange(0, n), print_header, pat).len()
            ==> #[trigger] filtered_lines(rows, print_header, pat)[k] == filtered_lines(
            rows.subrange(0, n),
            print_header,
            pat,
        )[k],
    decreases rows.len(),
{
    if n == rows.len() {
        assert(rows.subrange(0, n) =~= rows);
    } else {
        let sub = rows.drop_last();
        lemma_streaming_prefix(sub, n, print_header, pat);
        assert(rows.subrange(0, n) =~= sub.subrange(0, n));
    }
}

/// Substring match semantics: a record is emitted whenever the pattern
/// matches anywhere within its reconstructed line, whatever its index
/// and whether or not header exemption is enabled.
pub proof fn lemma_match_emits(rows: Seq<Seq<Seq<char>>>, print_header: bool, pat: Seq<char>)
    ensures
        forall|i: int|
            0 <= i < rows.len() && crate::pattern::re_match(pat, #[trigger] joined(rows[i]))
                ==> kept_indices(rows, print_header, pat).contains(i),
{
    lemma_kept_complete(rows, print_header, pat);
}

/// Applies the tester to each record of `rows` in order and collects
/// the reconstructed lines of those that pass.
pub fn filter(rows: &Vec<Vec<String>>, tester: &CsvRecordTester) -> (r: Vec<String>)
    ensures
        r.deep_view() == filtered_lines(
            rows.deep_view(),
            tester.print_header(),
            tester.pattern_text(),
        ),
{
    let ghost ph = tester.print_header();
    let ghost pat = tester.pattern_text();
    let mut out: Vec<String> = Vec::new();
    let mut i: usize = 0;
    while i < rows.len()
        invariant
            i <= rows.len(),
            out.deep_view() == filtered_lines(rows.deep_view().subrange(0, i as int), ph, pat),
            ph == tester.print_header(),
            pat == tester.pattern_text(),
        decreases rows.len() - i,
    {
        let line = join_fields(&rows[i]);
        proof {
            let all = rows.deep_view();
            let cur = all.subrange(0, i as int + 1);
            assert(cur.drop_last() =~= all.subrange(0, i as int));
            assert(cur.last() == all[i as int]);
            assert(all[i as int] == rows[i as int].deep_view());
        }
        if tester.test(i, line.as_str()) {
            out.push(line);
        }
        proof {
            assert(out.deep_view() =~= filtered_lines(
                rows.deep_view().subrange(0, i as int + 1),
                ph,
                pat,
            ));
        }
        i = i + 1;
    }
    proof {
        assert(rows.deep_view().subrange(0, rows.len() as int) =~= rows.deep_view());
    }
    out
}

/// How a run ended when it did not complete cleanly.
pub enum RunError {
    /// The pattern text is not valid pattern syntax; holds a
    /// descriptive message. The run emits nothing.
    Pattern(String),
    /// A row failed to parse mid-stream; holds a descriptive message.
    /// Lines emitted for earlier records remain valid, but no later
    /// record contributes a line.
    Parse(String),
}

impl RunError {
    /// The human-readable description of the failure.
    pub fn message(self) -> (r: String)
        ensures
            self matches RunError::Pattern(m) ==> r == m,
            self matches RunError::Parse(m) ==> r == m,
    {
        match self {
            RunError::Pattern(m) => m,
            RunError::Parse(m) => m,
        }
    }
}

/// Runs the whole pipeline over an in-memory input: compiles the
/// pattern, parses the records, filters them, and returns the
/// reconstructed lines of the passing records in input order together
/// with how the run ended (`None` means clean completion).
///
/// A mid-stream parse failure does not invalidate the lines of the
/// records parsed before it: they are still returned, and the run as a
/// whole is reported failed.
pub fn go(opt: &Opt, input: &[u8]) -> (r: (Vec<String>, Option<RunError>))
    ensures
        !regex_valid(opt.regex@) ==> r.0@.len() == 0 && (r.1 matches Some(e) && e is Pattern),
        regex_valid(opt.regex@) ==> {
            &&& r.0.deep_view() == filtered_lines(csv_rows(input@).0, !opt.no_header, opt.regex@)
            &&& (r.1 is None <==> csv_rows(input@).1)
            &&& (r.1 matches Some(e) ==> e is Parse)
        },
{
    let p = match Pattern::new(opt.regex.as_str()) {
        Ok(p) => p,
        Err(m) => {
            return (Vec::new(), Some(RunError::Pattern(m)));
        },
    };
    let tester = CsvRecordTester::new(!opt.no_header, p);
    let (rows, parse_err) = parse_records(input);
    let lines = filter(&rows, &tester);
    match parse_err {
        None => (lines, None),
        Some(m) => (lines, Some(RunError::Parse(m))),
    }
}

/// Streams records one at a time: assigns each successfully parsed
/// record the next index and decides whether its reconstructed line is
/// emitted. The decision for a record depends only on the record and
/// its index, never on later input, so a caller feeding records
/// incrementally can emit each passing line as soon as the record
/// arrives.
pub struct Driver {
    tester: CsvRecordTester,
    next_index: usize,
}

impl Driver {
    /// Whether the record at index 0 always passes.
    pub closed spec fn print_header(&self) -> bool {
        self.tester.print_header()
    }

    /// The source text of the pattern records are matched against.
    pub closed spec fn pattern_text(&self) -> Seq<char> {
        self.tester.pattern_text()
    }

    /// The index the next record will be assigned.
    pub closed spec fn next_index(&self) -> int {
        self.next_index as int
    }

    pub fn new(tester: CsvRecordTester) -> (r: Self)
        ensures
            r.next_index() == 0,
            r.print_header() == tester.print_header(),
            r.pattern_text() == tester.pattern_text(),
    {
        Driver { tester, next_index: 0 }
    }

    /// Takes the next successfully parsed record; returns its
    /// reconstructed line exactly when the record passes.
    pub fn on_record(&mut self, fields: &Vec<String>) -> (r: Option<String>)
        requires
            old(self).next_index() < usize::MAX as int,
        ensures
            final(self).next_index() == old(self).next_index() + 1,
            final(self).print_header() == old(self).print_header(),
            final(self).pattern_text() == old(self).pattern_text(),
            r matches Some(l) ==> l@ == joined(fields.deep_view()),
            r is Some <==> passes(
                old(self).print_header(),
                old(self).pattern_text(),
                old(self).next_index(),
                joined(fields.deep_view()),
            ),
    {
        let line = join_fields(fields);
        let pass = self.tester.test(self.next_index, line.as_str());
        self.next_index = self.next_index + 1;
        if pass {
            Some(line)
        } else {
            None
        }
    }
}

} // verus!
