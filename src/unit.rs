//! The unit parser: a scan over the tag stream of one record unit.
use vstd::prelude::*;
use vstd::string::StringSliceAdditionalSpecFns;
use crate::recency::YearMonth;
use crate::record::{
    apply_entry, apply_metadata_entry, filter_view, record_from_attributes,
    record_of_attributes, HealthRecord, RecordView,
};
use crate::text::text_eq;
use crate::xml::{
    next_tag, open_reader, pending_tags, tags_view, xml_attributes, xml_tags, TagView,
    XmlTag,
};

verus! {

/// Where the scan of a unit stands.
pub enum ScanState {
    /// No record tag seen yet.
    Seeking,
    /// The unit yields no record; nothing further is read.
    Dropped,
    /// Inside an accepted record, collecting its metadata entries.
    Open(RecordView),
    /// The accepted record has been closed.
    Closed(RecordView),
}

/// Reading the tag of a record: its attributes decide whether the unit is kept.
pub open spec fn enter_record(attributes: Seq<char>, filter: Seq<Seq<char>>, cutoff: YearMonth, closed: bool) -> ScanState {
    match record_of_attributes(xml_attributes(attributes), filter, cutoff) {
        Some(r) => if closed {
            ScanState::Closed(r)
        } else {
            ScanState::Open(r)
        },
        None => ScanState::Dropped,
    }
}

/// Reading a metadata entry inside an accepted record: a malformed attribute
/// drops the unit.
pub open spec fn enter_entry(r: RecordView, attributes: Seq<char>) -> ScanState {
    match apply_entry(r.metadata, xml_attributes(attributes)) {
        Some(m) => ScanState::Open(RecordView { metadata: m, ..r }),
        None => ScanState::Dropped,
    }
}

/// One step of the scan. Only the first record tag is read; metadata entries
/// are read only inside an accepted record; a closing record tag ends the scan.
pub open spec fn step(s: ScanState, tag: TagView, filter: Seq<Seq<char>>, cutoff: YearMonth) -> ScanState {
    match s {
        ScanState::Seeking => match tag {
            TagView::Start(n, a) => if n == "Record"@ {
                enter_record(a, filter, cutoff, false)
            } else {
                s
            },
            TagView::Empty(n, a) => if n == "Record"@ {
                enter_record(a, filter, cutoff, true)
            } else {
                s
            },
            TagView::End(n) => if n == "Record"@ {
                ScanState::Dropped
            } else {
                s
            },
            TagView::Other => s,
        },
        ScanState::Open(r) => match tag {
            TagView::Start(n, a) => if n == "MetadataEntry"@ {
                enter_entry(r, a)
            } else {
                s
            },
            TagView::Empty(n, a) => if n == "MetadataEntry"@ {
                enter_entry(r, a)
            } else {
                s
            },
            TagView::End(n) => if n == "Record"@ {
                ScanState::Closed(r)
            } else {
                s
            },
            TagView::Other => s,
        },
        _ => s,
    }
}

/// The state after scanning a sequence of tags from the start.
pub open spec fn scan(tags: Seq<TagView>, filter: Seq<Seq<char>>, cutoff: YearMonth) -> ScanState
    decreases tags.len(),
{
    if tags.len() == 0 {
        ScanState::Seeking
    } else {
        step(scan(tags.drop_last(), filter, cutoff), tags.last(), filter, cutoff)
    }
}

/// The record that a tag stream yields: only a record that was accepted and
/// closed is produced; an unterminated one is not.
pub open spec fn tags_record(tags: Seq<TagView>, filter: Seq<Seq<char>>, cutoff: YearMonth) -> Option<RecordView> {
    settled_record(scan(tags, filter, cutoff))
}

/// The record of a scan state: only a closed record counts.
pub open spec fn settled_record(s: ScanState) -> Option<RecordView> {
    match s {
        ScanState::Closed(r) => Some(r),
        _ => None,
    }
}

/// The record that a unit's text yields.
pub open spec fn unit_record(unit: Seq<u8>, filter: Seq<Seq<char>>, cutoff: YearMonth) -> Option<RecordView> {
    tags_record(xml_tags(unit), filter, cutoff)
}

pub open spec fn final_state(s: ScanState) -> bool {
    s is Dropped || s is Closed
}

proof fn lemma_scan_settled(tags: Seq<TagView>, filter: Seq<Seq<char>>, cutoff: YearMonth, i: int)
    requires
        0 <= i <= tags.len(),
        final_state(scan(tags.take(i), filter, cutoff)),
    ensures
        scan(tags, filter, cutoff) == scan(tags.take(i), filter, cutoff),
    decreases tags.len(),
{
    if i < tags.len() {
        assert(tags.drop_last().take(i) =~= tags.take(i));
        lemma_scan_settled(tags.drop_last(), filter, cutoff, i);
    } else {
        assert(tags.take(i) =~= tags);
    }
}

pub open spec fn option_record_view(r: Option<HealthRecord>) -> Option<RecordView> {
    match r {
        Some(rec) => Some(rec@),
        None => None,
    }
}

/// The scan state while no outcome is settled: seeking, or inside a record.
pub open spec fn state_of(cur: Option<HealthRecord>) -> ScanState {
    match cur {
        Some(r) => ScanState::Open(r@),
        None => ScanState::Seeking,
    }
}

/// The outcome of one scan step.
pub enum Progress {
    /// The scan goes on, seeking or inside a record.
    Continue(Option<HealthRecord>),
    /// The unit's outcome is settled; no further tag is read.
    Done(Option<HealthRecord>),
}

/// One step of the scan over a tag. The attributes of a record tag are read only
/// while seeking, and those of a metadata entry only inside an accepted record.
pub fn scan_step(cur: Option<HealthRecord>, tag: &XmlTag, filter: &Vec<String>, cutoff: YearMonth) -> (r: Progress)
    ensures
        match r {
            Progress::Continue(c) => step(state_of(cur), tag@, filter_view(filter@), cutoff) == state_of(c),
            Progress::Done(o) => final_state(step(state_of(cur), tag@, filter_view(filter@), cutoff))
                && settled_record(step(state_of(cur), tag@, filter_view(filter@), cutoff)) == option_record_view(o),
        },
{
    match tag {
        XmlTag::Start(t) => {
            if cur.is_none() && text_eq(t.name.as_str(), "Record") {
                match record_from_attributes(t.attributes.as_str(), filter, cutoff) {
                    Some(rec) => Progress::Continue(Some(rec)),
                    None => Progress::Done(None),
                }
            } else if cur.is_some() && text_eq(t.name.as_str(), "MetadataEntry") {
                match cur {
                    Some(mut rec) => {
                        if apply_metadata_entry(&mut rec.metadata, t.attributes.as_str()) {
                            Progress::Continue(Some(rec))
                        } else {
                            Progress::Done(None)
                        }
                    },
                    None => Progress::Continue(None),
                }
            } else {
                Progress::Continue(cur)
            }
        },
        XmlTag::Empty(t) => {
            if cur.is_none() && text_eq(t.name.as_str(), "Record") {
                Progress::Done(record_from_attributes(t.attributes.as_str(), filter, cutoff))
            } else if cur.is_some() && text_eq(t.name.as_str(), "MetadataEntry") {
                match cur {
                    Some(mut rec) => {
                        if apply_metadata_entry(&mut rec.metadata, t.attributes.as_str()) {
                            Progress::Continue(Some(rec))
                        } else {
                            Progress::Done(None)
                        }
                    },
                    None => Progress::Continue(None),
                }
            } else {
                Progress::Continue(cur)
            }
        },
        XmlTag::End(n) => {
            if text_eq(n.as_str(), "Record") {
                Progress::Done(cur)
            } else {
                Progress::Continue(cur)
            }
        },
        XmlTag::Other => Progress::Continue(cur),
    }
}

/// Builds the record of a unit from its tag stream.
pub fn record_from_tags(tags: &Vec<XmlTag>, filter: &Vec<String>, cutoff: YearMonth) -> (r: Option<HealthRecord>)
    ensures
        option_record_view(r) == tags_record(tags_view(tags@), filter_view(filter@), cutoff),
{
    let ghost tv = tags_view(tags@);
    let ghost f = filter_view(filter@);
    let mut cur: Option<HealthRecord> = None;
    let mut i: usize = 0;
    while i < tags.len()
        invariant
            tv == tags_view(tags@),
            f == filter_view(filter@),
            i <= tags@.len(),
            scan(tv.take(i as int), f, cutoff) == state_of(cur),
        decreases tags@.len() - i,
    {
        assert(tv.take(i + 1).drop_last() =~= tv.take(i as int));
        assert(tv.take(i + 1).last() == tags@[i as int]@);
        match scan_step(cur, &tags[i], filter, cutoff) {
            Progress::Continue(c) => {
                cur = c;
            },
            Progress::Done(o) => {
                proof {
                    lemma_scan_settled(tv, f, cutoff, i + 1);
                }
                return o;
            },
        }
        i = i + 1;
    }
    assert(tv.take(i as int) =~= tv);
    None
}

/// Parses one record unit, reading its tags only until the outcome is settled:
/// `Some` exactly when its record tag carries an admitted type and a recent
/// start date and the record is closed.
pub fn parse_unit(unit: &str, filter: &Vec<String>, cutoff: YearMonth) -> (r: Option<HealthRecord>)
    ensures
        option_record_view(r) == unit_record(unit.spec_bytes(), filter_view(filter@), cutoff),
{
    let ghost all = xml_tags(unit.spec_bytes());
    let ghost f = filter_view(filter@);
    let ghost mut n: int = 0;
    let mut reader = open_reader(unit);
    let mut cur: Option<HealthRecord> = None;
    loop
        invariant
            all == xml_tags(unit.spec_bytes()),
            f == filter_view(filter@),
            0 <= n <= all.len(),
            pending_tags(reader) == all.skip(n),
            scan(all.take(n), f, cutoff) == state_of(cur),
        decreases pending_tags(reader).len(),
    {
        match next_tag(&mut reader) {
            None => {
                assert(all.take(n) =~= all);
                return None;
            },
            Some(tag) => {
                assert(all.take(n + 1).drop_last() =~= all.take(n));
                assert(all.take(n + 1).last() == all[n]);
                match scan_step(cur, &tag, filter, cutoff) {
                    Progress::Continue(c) => {
                        cur = c;
                        proof {
                            assert(all.skip(n).drop_first() =~= all.skip(n + 1));
                            n = n + 1;
                        }
                    },
                    Progress::Done(o) => {
                        proof {
                            lemma_scan_settled(all, f, cutoff, n + 1);
                        }
                        return o;
                    },
                }
            },
        }
    }
}

/// A tag that ends an open record: its closing tag, or a metadata entry with a
/// malformed attribute.
pub open spec fn ends_record(tag: TagView) -> bool {
    match tag {
        TagView::Start(n, a) => n == "MetadataEntry"@ && !crate::record::well_formed(xml_attributes(a)),
        TagView::Empty(n, a) => n == "MetadataEntry"@ && !crate::record::well_formed(xml_attributes(a)),
        TagView::End(n) => n == "Record"@,
        TagView::Other => false,
    }
}

proof fn lemma_open_persists(tags: Seq<TagView>, filter: Seq<Seq<char>>, cutoff: YearMonth, e: int, j: int)
    requires
        1 <= j <= e < tags.len(),
        scan(tags.take(1), filter, cutoff) is Open,
        forall|i: int| 0 < i < e ==> !ends_record(#[trigger] tags[i]),
    ensures
        scan(tags.take(j), filter, cutoff) is Open,
    decreases j,
{
    if j > 1 {
        lemma_open_persists(tags, filter, cutoff, e, j - 1);
        assert(tags.take(j).drop_last() =~= tags.take(j - 1));
        assert(tags.take(j).last() == tags[j - 1]);
    }
}

/// A unit whose tag stream opens with a record tag and later closes it, with no
/// malformed metadata entry in between, yields a record exactly when the
/// attributes of that tag are accepted: an admitted type, no malformed
/// attribute, and a start date inside the recency window.
pub proof fn lemma_record_kept_iff_accepted(
    tags: Seq<TagView>,
    filter: Seq<Seq<char>>,
    cutoff: YearMonth,
    attributes: Seq<char>,
    e: int,
)
    requires
        tags.len() > 0,
        tags[0] == TagView::Start("Record"@, attributes),
        0 < e < tags.len(),
        tags[e] == TagView::End("Record"@),
        forall|i: int| 0 < i < e ==> !ends_record(#[trigger] tags[i]),
    ensures
        tags_record(tags, filter, cutoff) is Some <==> record_of_attributes(xml_attributes(attributes), filter, cutoff) is Some,
{
    assert(tags.take(1).drop_last() =~= Seq::<TagView>::empty());
    assert(tags.take(1).last() == tags[0]);
    assert(scan(tags.take(1).drop_last(), filter, cutoff) == ScanState::Seeking);
    assert(scan(tags.take(1), filter, cutoff) == step(ScanState::Seeking, tags[0], filter, cutoff));
    if record_of_attributes(xml_attributes(attributes), filter, cutoff) is Some {
        lemma_open_persists(tags, filter, cutoff, e, e);
        assert(tags.take(e + 1).drop_last() =~= tags.take(e));
        assert(tags.take(e + 1).last() == tags[e]);
        lemma_scan_settled(tags, filter, cutoff, e + 1);
    } else {
        lemma_scan_settled(tags, filter, cutoff, 1);
    }
}

/// A unit whose record tag carries a type that the filter excludes yields no
/// record, whatever metadata entries follow: they are neither translated nor kept.
pub proof fn lemma_excluded_type_yields_nothing(
    tags: Seq<TagView>,
    filter: Seq<Seq<char>>,
    cutoff: YearMonth,
    attributes: Seq<char>,
    t: Seq<char>,
)
    requires
        tags.len() > 0,
        tags[0] == TagView::Start("Record"@, attributes) || tags[0] == TagView::Empty("Record"@, attributes),
        crate::record::lookup(xml_attributes(attributes), "type"@) == Some(t),
        !crate::record::type_allowed(filter, t),
    ensures
        tags_record(tags, filter, cutoff) is None,
{
    assert(tags.take(1).drop_last() =~= Seq::<TagView>::empty());
    assert(tags.take(1).last() == tags[0]);
    assert(scan(tags.take(1).drop_last(), filter, cutoff) == ScanState::Seeking);
    assert(scan(tags.take(1), filter, cutoff) == step(ScanState::Seeking, tags[0], filter, cutoff));
    lemma_scan_settled(tags, filter, cutoff, 1);
}

proof fn lemma_scan_admitted(tags: Seq<TagView>, filter: Seq<Seq<char>>, cutoff: YearMonth)
    ensures
        scan(tags, filter, cutoff) matches ScanState::Open(r) ==> admitted(r, filter, cutoff),
        scan(tags, filter, cutoff) matches ScanState::Closed(r) ==> admitted(r, filter, cutoff),
    decreases tags.len(),
{
    if tags.len() > 0 {
        lemma_scan_admitted(tags.drop_last(), filter, cutoff);
    }
}

/// A record passes both gates: its type is admitted and its start date is recent.
pub open spec fn admitted(r: RecordView, filter: Seq<Seq<char>>, cutoff: YearMonth) -> bool {
    crate::record::type_allowed(filter, r.record_type) && crate::recency::recent(vstd::utf8::encode_utf8(r.start_date), cutoff)
}

/// Every record that a unit yields has an admitted type and a recent start date.
pub proof fn lemma_unit_record_admitted(tags: Seq<TagView>, filter: Seq<Seq<char>>, cutoff: YearMonth)
    ensures
        tags_record(tags, filter, cutoff) matches Some(r) ==> admitted(r, filter, cutoff),
{
    lemma_scan_admitted(tags, filter, cutoff);
}

} // verus!
