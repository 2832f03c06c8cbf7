//! The whole extraction: segment the document, parse the units in parallel,
//! and gather the records that survive, in document order.
use rayon::iter::{IntoParallelRefIterator, ParallelIterator};
use vstd::prelude::*;
use vstd::string::StringSliceAdditionalSpecFns;
use crate::recency::YearMonth;
use crate::record::{filter_view, HealthRecord, RecordView};
use crate::segment::{segment, unit_ranges, unit_text, UnitSpan};
use crate::unit::{option_record_view, parse_unit, unit_record};

verus! {

/// The present values of a sequence of options, in order.
pub open spec fn present<T>(s: Seq<Option<T>>) -> Seq<T>
    decreases s.len(),
{
    if s.len() == 0 {
        Seq::empty()
    } else {
        let p = present(s.drop_last());
        match s.last() {
            Some(x) => p.push(x),
            None => p,
        }
    }
}

pub open spec fn records_view(rs: Seq<HealthRecord>) -> Seq<RecordView> {
    rs.map_values(|r: HealthRecord| r@)
}

/// What each unit of the document yields, in document order.
pub open spec fn unit_results(doc: Seq<u8>, filter: Seq<Seq<char>>, cutoff: YearMonth) -> Seq<Option<RecordView>> {
    let u = unit_ranges(doc);
    Seq::new(u.len(), |k: int| unit_record(doc.subrange(u[k].0, u[k].1), filter, cutoff))
}

/// The records of a document: those of its units that yield one, in order.
pub open spec fn document_records(doc: Seq<u8>, filter: Seq<Seq<char>>, cutoff: YearMonth) -> Seq<RecordView> {
    present(unit_results(doc, filter, cutoff))
}

/// Keeps the records that are present, in their order.
pub fn collect_present(results: Vec<Option<HealthRecord>>) -> (r: Vec<HealthRecord>)
    ensures
        records_view(r@) == present(results@.map_values(|o: Option<HealthRecord>| option_record_view(o))),
{
    let ghost rs = results@.map_values(|o: Option<HealthRecord>| option_record_view(o));
    let ghost n = results@.len();
    let mut out: Vec<HealthRecord> = Vec::new();
    for item in it: results
        invariant
            it.seq().map_values(|o: Option<HealthRecord>| option_record_view(o)) == rs,
            rs.len() == n,
            records_view(out@) == present(rs.take(it.index() as int)),
    {
        proof {
            assert(rs.take(it.index() + 1).drop_last() =~= rs.take(it.index() as int));
        }
        match item {
            Some(rec) => {
                let ghost before = out@;
                out.push(rec);
                assert(records_view(out@) =~= records_view(before).push(rec@));
            },
            None => {},
        }
    }
    assert(rs.take(n as int) =~= rs);
    out
}

/// Parses the unit that a span of the document marks.
pub fn parse_span(doc: &str, span: UnitSpan, filter: &Vec<String>, cutoff: YearMonth) -> (r: Option<HealthRecord>)
    requires
        span.within(doc.spec_bytes()),
    ensures
        option_record_view(r) == unit_record(
            doc.spec_bytes().subrange(span.start as int, span.end as int),
            filter_view(filter@),
            cutoff,
        ),
{
    parse_unit(unit_text(doc, span), filter, cutoff)
}

/// Relies on rayon's `par_iter` over a `Vec`, `map` and `collect` into a `Vec`: an
/// indexed parallel iterator collects its results in the order of its input.
/// Each unit is parsed by `parse_span`, whose precondition `requires` states.
#[verifier::external_body]
fn parse_spans_in_parallel(doc: &str, spans: &Vec<UnitSpan>, filter: &Vec<String>, cutoff: YearMonth) -> (r: Vec<Option<HealthRecord>>)
    requires
        forall|k: int| 0 <= k < spans@.len() ==> (#[trigger] spans@[k]).within(doc.spec_bytes()),
    ensures
        r@.len() == spans@.len(),
        forall|k: int| 0 <= k < r@.len() ==> option_record_view(#[trigger] r@[k]) == unit_record(
            doc.spec_bytes().subrange(spans@[k].start as int, spans@[k].end as int),
            filter_view(filter@),
            cutoff,
        ),
{
    spans.par_iter().map(|s| parse_span(doc, *s, filter, cutoff)).collect()
}

/// Extracts the records of a document: every unit is parsed in parallel against
/// the type filter (empty: all types) and the recency cutoff, and the records
/// that survive are returned in document order.
pub fn parse_records(doc: &str, filter: &Vec<String>, cutoff: YearMonth) -> (r: Vec<HealthRecord>)
    ensures
        records_view(r@) == document_records(doc.spec_bytes(), filter_view(filter@), cutoff),
{
    let spans = segment(doc);
    let results = parse_spans_in_parallel(doc, &spans, filter, cutoff);
    let ghost d = doc.spec_bytes();
    let ghost f = filter_view(filter@);
    assert(results@.map_values(|o: Option<HealthRecord>| option_record_view(o)) =~= unit_results(d, f, cutoff)) by {
        assert forall|k: int| 0 <= k < results@.len() implies
            #[trigger] option_record_view(results@[k]) == unit_results(d, f, cutoff)[k] by {
            assert(spans@.map_values(|s: UnitSpan| s.range())[k] == spans@[k].range());
        }
    }
    collect_present(results)
}

/// `ix` lists, in increasing order, exactly the positions of `s` that hold a
/// value, and `present(s)` holds those values in that order.
pub open spec fn enumerates_present<T>(s: Seq<Option<T>>, ix: Seq<int>) -> bool {
    &&& ix.len() == present(s).len()
    &&& forall|j: int| 0 <= j < ix.len() ==> 0 <= #[trigger] ix[j] < s.len() && s[ix[j]] == Some(present(s)[j])
    &&& forall|j: int, l: int| 0 <= j < l < ix.len() ==> ix[j] < ix[l]
    &&& forall|k: int| 0 <= k < s.len() && (#[trigger] s[k]) is Some ==> exists|j: int| 0 <= j < ix.len() && ix[j] == k
}

proof fn lemma_present_positions<T>(s: Seq<Option<T>>) -> (ix: Seq<int>)
    ensures
        enumerates_present(s, ix),
    decreases s.len(),
{
    if s.len() == 0 {
        Seq::empty()
    } else {
        let p = lemma_present_positions(s.drop_last());
        let last = s.len() - 1;
        let ix = if s.last() is Some { p.push(last) } else { p };
        assert forall|k: int| 0 <= k < s.len() && (#[trigger] s[k]) is Some implies exists|j: int| 0 <= j < ix.len() && ix[j] == k by {
            if k < last {
                assert(s.drop_last()[k] == s[k]);
                let j = choose|j: int| 0 <= j < p.len() && p[j] == k;
                assert(ix[j] == k);
            } else {
                assert(ix[ix.len() - 1] == k);
            }
        }
        assert forall|j: int| 0 <= j < ix.len() implies 0 <= #[trigger] ix[j] < s.len() && s[ix[j]] == Some(present(s)[j]) by {
            if j < p.len() {
                assert(s.drop_last()[p[j]] == s[p[j]]);
            }
        }
        ix
    }
}

/// The output never holds more records than the document has units, and it keeps
/// the surviving units in document order: the k-th record comes from the k-th
/// unit that yields one.
pub proof fn lemma_output_bounded_and_ordered(doc: Seq<u8>, filter: Seq<Seq<char>>, cutoff: YearMonth)
    ensures
        document_records(doc, filter, cutoff).len() <= unit_ranges(doc).len(),
        exists|ix: Seq<int>| enumerates_present(unit_results(doc, filter, cutoff), ix),
{
    let s = unit_results(doc, filter, cutoff);
    let ix = lemma_present_positions(s);
    lemma_present_len(s);
}

proof fn lemma_present_len<T>(s: Seq<Option<T>>)
    ensures
        present(s).len() <= s.len(),
    decreases s.len(),
{
    if s.len() > 0 {
        lemma_present_len(s.drop_last());
    }
}

/// Every record of the output has an admitted type (or the filter is empty) and
/// a start date inside the recency window.
pub proof fn lemma_output_admitted(doc: Seq<u8>, filter: Seq<Seq<char>>, cutoff: YearMonth)
    ensures
        forall|j: int| 0 <= j < document_records(doc, filter, cutoff).len()
            ==> crate::unit::admitted(#[trigger] document_records(doc, filter, cutoff)[j], filter, cutoff),
{
    let s = unit_results(doc, filter, cutoff);
    let ix = lemma_present_positions(s);
    let u = unit_ranges(doc);
    assert forall|j: int| 0 <= j < document_records(doc, filter, cutoff).len()
        implies crate::unit::admitted(#[trigger] document_records(doc, filter, cutoff)[j], filter, cutoff) by {
        let k = ix[j];
        crate::unit::lemma_unit_record_admitted(crate::xml::xml_tags(doc.subrange(u[k].0, u[k].1)), filter, cutoff);
    }
}

/// Byte-identical archives get the same cache key, and byte-identical documents
/// give the same records.
pub proof fn lemma_runs_agree(
    archive1: Seq<u8>,
    archive2: Seq<u8>,
    doc1: Seq<u8>,
    doc2: Seq<u8>,
    filter: Seq<Seq<char>>,
    cutoff: YearMonth,
)
    requires
        archive1 == archive2,
        doc1 == doc2,
    ensures
        crate::cache::blake3_hex(archive1) == crate::cache::blake3_hex(archive2),
        document_records(doc1, filter, cutoff) == document_records(doc2, filter, cutoff),
{
}

} // verus!
