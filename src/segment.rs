//! Cutting the document into record units on the literal record-opening marker.
//!
//! The exporter never writes the marker inside an attribute value, so every
//! occurrence of the marker opens a record and each unit, from one marker up to
//! the next, is independently parseable.
use vstd::prelude::*;
use vstd::string::StringSliceAdditionalSpecFns;

verus! {

/// The bytes of `<Record `, the start of a record element.
pub open spec fn record_marker() -> Seq<u8> {
    seq![60u8, 82u8, 101u8, 99u8, 111u8, 114u8, 100u8, 32u8]
}

/// The marker starts at byte `i` of the document.
pub open spec fn marker_at(doc: Seq<u8>, i: int) -> bool {
    0 <= i && i + 8 <= doc.len() && doc.subrange(i, i + 8) == record_marker()
}

/// The positions of the marker among the first `n` bytes, in increasing order.
pub open spec fn markers_before(doc: Seq<u8>, n: nat) -> Seq<int>
    decreases n,
{
    if n == 0 {
        Seq::empty()
    } else {
        let p = markers_before(doc, (n - 1) as nat);
        if marker_at(doc, n - 1) {
            p.push(n - 1)
        } else {
            p
        }
    }
}

/// Every position at which the marker starts, in increasing order.
pub open spec fn marker_positions(doc: Seq<u8>) -> Seq<int> {
    markers_before(doc, doc.len())
}

/// The record units of a document, as byte ranges: each runs from an occurrence
/// of the marker to the next one, the last to the end of the document. What
/// precedes the first marker belongs to no unit.
pub open spec fn unit_ranges(doc: Seq<u8>) -> Seq<(int, int)> {
    let p = marker_positions(doc);
    Seq::new(
        p.len(),
        |k: int|
            (p[k], if k + 1 < p.len() {
                p[k + 1]
            } else {
                doc.len() as int
            }),
    )
}

/// A record unit: the bytes `start..end` of the document.
#[derive(Clone, Copy, Debug, PartialEq, Eq)]
pub struct UnitSpan {
    pub start: usize,
    pub end: usize,
}

impl UnitSpan {
    pub open spec fn range(self) -> (int, int) {
        (self.start as int, self.end as int)
    }

    /// The span starts at a marker and ends at the next marker or at the end.
    pub open spec fn within(self, doc: Seq<u8>) -> bool {
        &&& self.start < self.end <= doc.len()
        &&& marker_at(doc, self.start as int)
        &&& (self.end == doc.len() || marker_at(doc, self.end as int))
    }
}

pub open spec fn ranges_of(spans: Seq<UnitSpan>) -> Seq<(int, int)> {
    spans.map_values(|s: UnitSpan| s.range())
}

fn marker_at_exec(b: &[u8], i: usize) -> (r: bool)
    ensures
        r == marker_at(b@, i as int),
{
    if i > b.len() || b.len() - i < 8 {
        return false;
    }
    let r = b[i] == 60 && b[i + 1] == 82 && b[i + 2] == 101 && b[i + 3] == 99 && b[i + 4] == 111
        && b[i + 5] == 114 && b[i + 6] == 100 && b[i + 7] == 32;
    assert(r == (b@.subrange(i as int, i + 8) =~= record_marker()));
    r
}

/// Splits the document into its record units.
pub fn segment(doc: &str) -> (r: Vec<UnitSpan>)
    ensures
        ranges_of(r@) == unit_ranges(doc.spec_bytes()),
        forall|k: int| 0 <= k < r@.len() ==> (#[trigger] r@[k]).within(doc.spec_bytes()),
{
    let b = doc.as_bytes();
    let ghost d = b@;
    let mut pos: Vec<usize> = Vec::new();
    let mut i: usize = 0;
    while i < b.len()
        invariant
            d == b@,
            d == doc.spec_bytes(),
            i <= d.len(),
            pos@.map_values(|p: usize| p as int) == markers_before(d, i as nat),
            forall|k: int| 0 <= k < pos@.len() ==> marker_at(d, #[trigger] pos@[k] as int),
            forall|k: int| 0 <= k < pos@.len() ==> #[trigger] pos@[k] < i,
            forall|k: int, l: int| 0 <= k < l < pos@.len() ==> pos@[k] < pos@[l],
        decreases d.len() - i,
    {
        let ghost old_pos = pos@;
        if marker_at_exec(b, i) {
            pos.push(i);
            assert(pos@.map_values(|p: usize| p as int) =~= old_pos.map_values(|p: usize| p as int).push(i as int));
        }
        i = i + 1;
    }
    let ghost p = markers_before(d, d.len());
    let mut spans: Vec<UnitSpan> = Vec::new();
    let mut k: usize = 0;
    while k < pos.len()
        invariant
            d == doc.spec_bytes(),
            d == b@,
            pos@.map_values(|p: usize| p as int) == p,
            p == marker_positions(d),
            forall|j: int| 0 <= j < pos@.len() ==> marker_at(d, #[trigger] pos@[j] as int),
            forall|j: int, l: int| 0 <= j < l < pos@.len() ==> pos@[j] < pos@[l],
            k <= pos@.len(),
            ranges_of(spans@) =~= unit_ranges(d).take(k as int),
            forall|j: int| 0 <= j < spans@.len() ==> (#[trigger] spans@[j]).within(d),
        decreases pos@.len() - k,
    {
        let start = pos[k];
        let end = if k + 1 < pos.len() { pos[k + 1] } else { b.len() };
        let s = UnitSpan { start, end };
        assert(p.len() == pos@.len());
        assert(p[k as int] == pos@[k as int] as int);
        if k + 1 < pos.len() {
            assert(p[k + 1] == pos@[k + 1] as int);
        }
        assert(unit_ranges(d)[k as int] == s.range());
        assert(s.within(d));
        let ghost old_spans = spans@;
        spans.push(s);
        assert(ranges_of(spans@) =~= ranges_of(old_spans).push(s.range()));
        k = k + 1;
    }
    spans
}

/// The text of a record unit, borrowed from the document.
pub fn unit_text<'a>(doc: &'a str, span: UnitSpan) -> (r: &'a str)
    requires
        span.within(doc.spec_bytes()),
    ensures
        r.spec_bytes() == doc.spec_bytes().subrange(span.start as int, span.end as int),
{
    let ghost d = doc.spec_bytes();
    proof {
        vstd::utf8::encode_utf8_valid_utf8(doc@);
        assert(d[span.start as int] == d.subrange(span.start as int, span.start + 8)[0]);
        vstd::utf8::is_char_boundary_iff_not_is_continuation_byte(d, span.start as int);
    }
    let (_, rest) = doc.split_at(span.start);
    let len = span.end - span.start;
    proof {
        let rb = rest.spec_bytes();
        vstd::utf8::encode_utf8_valid_utf8(rest@);
        if span.end < d.len() {
            assert(rb[len as int] == d.subrange(span.end as int, span.end + 8)[0]);
            vstd::utf8::is_char_boundary_iff_not_is_continuation_byte(rb, len as int);
        } else {
            vstd::utf8::is_char_boundary_start_end_of_seq(rb);
        }
    }
    let (unit, _) = rest.split_at(len);
    assert(unit.spec_bytes() =~= d.subrange(span.start as int, span.end as int));
    unit
}

} // verus!
