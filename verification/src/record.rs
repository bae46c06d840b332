use vstd::prelude::*;
use vstd::string::StringExecFns;

verus! {

/// What parsing `input` as tolerant comma-delimited text yields: the
/// records successfully parsed before any failure, in input order,
/// each a row of fields (rows may have differing field counts), and
/// whether the whole input parsed cleanly. Parsing in-memory bytes is
/// deterministic, so the outcome is a function of the bytes alone.
pub uninterp spec fn csv_rows(input: Seq<u8>) -> (Seq<Seq<Seq<char>>>, bool);

/// Relies on csv::ReaderBuilder and csv::Reader: configured with
/// flexible rows and no header handling, parsing in-memory bytes
/// yields a deterministic sequence of records, stopping at the first
/// row that fails to parse; that failure carries a descriptive
/// message.
#[verifier::external_body]
pub(crate) fn parse_records(input: &[u8]) -> (r: (Vec<Vec<String>>, Option<String>))
    ensures
        r.0.deep_view() == csv_rows(input@).0,
        r.1 is None <==> csv_rows(input@).1,
{
    let rdr = csv::ReaderBuilder::new().flexible(true).has_headers(false).from_reader(input);
    let mut rows: Vec<Vec<String>> = Vec::new();
    for rec in rdr.into_records() {
        match rec {
            Ok(rec) => rows.push(rec.iter().map(String::from).collect()),
            Err(e) => return (rows, Some(format!("{}", e))),
        }
    }
    (rows, None)
}

/// The reconstructed line of a record: its fields joined with `,`.
/// A record with no fields reconstructs to the empty line.
pub open spec fn joined(fields: Seq<Seq<char>>) -> Seq<char>
    decreases fields.len(),
{
    if fields.len() == 0 {
        Seq::empty()
    } else if fields.len() == 1 {
        fields[0]
    } else {
        joined(fields.drop_last()) + seq![','] + fields.last()
    }
}

/// Joins a record's fields with `,` into its reconstructed line.
pub fn join_fields(fields: &Vec<String>) -> (r: String)
    ensures
        r@ == joined(fields.deep_view()),
{
    let mut out = String::new();
    let mut i: usize = 0;
    while i < fields.len()
        invariant
            i <= fields.len(),
            out@ == joined(fields.deep_view().subrange(0, i as int)),
        decreases fields.len() - i,
    {
        if i > 0 {
            out.append(",");
        }
        out.append(fields[i].as_str());
        proof {
            reveal_strlit(",");
            let all = fields.deep_view();
            let cur = all.subrange(0, i as int + 1);
            assert(cur.drop_last() =~= all.subrange(0, i as int));
            assert(cur.last() == all[i as int]);
            assert(","@ =~= seq![',']);
            assert(out@ =~= joined(cur));
        }
        i = i + 1;
    }
    proof {
        assert(fields.deep_view().subrange(0, fields.len() as int) =~= fields.deep_view());
    }
    out
}

} // verus!
