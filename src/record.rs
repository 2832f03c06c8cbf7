//! The health record and the attribute-level rules that build one from a unit.
use vstd::prelude::*;
use vstd::string::{StringExecFns, StringSliceAdditionalSpecFns};
use crate::activity::{activity_name, decimal_text, translate};
use crate::recency::{is_recent, recent, YearMonth};
use crate::text::{all_digits, decimal_in, decimal_u32, decimal_value, text_eq};
use crate::xml::{next_attribute, open_attributes, pending_attributes, xml_attributes, AttrItem};

verus! {

/// The metadata kept with a record. Only two keys are retained: the workout
/// activity type (translated to its name when it is a numeric code) and the
/// physical-effort estimation type.
#[derive(Clone, Debug)]
pub struct RecordMetadata {
    pub activity_type: Option<String>,
    pub physical_effort_estimation_type: Option<String>,
}

/// An extracted measurement. The value is kept as the text the export holds,
/// so that non-numeric values (such as sleep stages) are preserved.
#[derive(Clone, Debug)]
pub struct HealthRecord {
    pub record_type: String,
    pub value: Option<String>,
    pub unit: Option<String>,
    pub start_date: String,
    pub end_date: Option<String>,
    pub metadata: RecordMetadata,
}

pub struct MetadataView {
    pub activity_type: Option<Seq<char>>,
    pub physical_effort_estimation_type: Option<Seq<char>>,
}

pub struct RecordView {
    pub record_type: Seq<char>,
    pub value: Option<Seq<char>>,
    pub unit: Option<Seq<char>>,
    pub start_date: Seq<char>,
    pub end_date: Option<Seq<char>>,
    pub metadata: MetadataView,
}

pub open spec fn opt_view(o: Option<String>) -> Option<Seq<char>> {
    match o {
        Some(s) => Some(s@),
        None => None,
    }
}

impl View for RecordMetadata {
    type V = MetadataView;

    open spec fn view(&self) -> MetadataView {
        MetadataView {
            activity_type: opt_view(self.activity_type),
            physical_effort_estimation_type: opt_view(self.physical_effort_estimation_type),
        }
    }
}

impl View for HealthRecord {
    type V = RecordView;

    open spec fn view(&self) -> RecordView {
        RecordView {
            record_type: self.record_type@,
            value: opt_view(self.value),
            unit: opt_view(self.unit),
            start_date: self.start_date@,
            end_date: opt_view(self.end_date),
            metadata: self.metadata@,
        }
    }
}

pub open spec fn no_metadata() -> MetadataView {
    MetadataView { activity_type: None, physical_effort_estimation_type: None }
}

/// The items of an attribute text: `Some` for a well-formed pair, `None` for
/// a malformed or repeated attribute.
pub type Attrs = Seq<Option<(Seq<char>, Seq<char>)>>;

/// The value of the first well-formed attribute named `key`.
pub open spec fn lookup(attrs: Attrs, key: Seq<char>) -> Option<Seq<char>>
    decreases attrs.len(),
{
    if attrs.len() == 0 {
        None
    } else {
        match lookup(attrs.drop_last(), key) {
            Some(v) => Some(v),
            None => match attrs.last() {
                Some((k, v)) => if k == key {
                    Some(v)
                } else {
                    None
                },
                None => None,
            },
        }
    }
}

/// No attribute of the text is malformed.
pub open spec fn well_formed(attrs: Attrs) -> bool {
    forall|i: int| 0 <= i < attrs.len() ==> (#[trigger] attrs[i]) is Some
}

/// The type filter: an empty filter admits every type.
pub open spec fn type_allowed(filter: Seq<Seq<char>>, t: Seq<char>) -> bool {
    filter.len() == 0 || filter.contains(t)
}

pub open spec fn filter_view(filter: Seq<String>) -> Seq<Seq<char>> {
    filter.map_values(|s: String| s@)
}

/// The record described by the attributes of a record tag, without metadata;
/// `None` where the type is missing or filtered out, where an attribute is
/// malformed, or where the start date is missing or outside the recency window.
pub open spec fn record_of_attributes(attrs: Attrs, filter: Seq<Seq<char>>, cutoff: YearMonth) -> Option<RecordView> {
    match lookup(attrs, "type"@) {
        None => None,
        Some(t) => if !type_allowed(filter, t) || !well_formed(attrs) {
            None
        } else {
            match lookup(attrs, "startDate"@) {
                None => None,
                Some(d) => if !recent(vstd::utf8::encode_utf8(d), cutoff) {
                    None
                } else {
                    Some(RecordView {
                        record_type: t,
                        value: lookup(attrs, "value"@),
                        unit: lookup(attrs, "unit"@),
                        start_date: d,
                        end_date: lookup(attrs, "endDate"@),
                        metadata: no_metadata(),
                    })
                },
            }
        },
    }
}

/// The code written by an unsigned decimal text with an optional leading `+`,
/// as `u32` reads it from a string.
pub open spec fn code_value(b: Seq<u8>) -> Option<u32> {
    if b.len() > 0 && b[0] == 43 {
        decimal_u32(b.subrange(1, b.len() as int))
    } else {
        decimal_u32(b)
    }
}

/// An activity-type value: a numeric code becomes its name, other text is kept.
pub open spec fn activity_value(v: Seq<char>) -> Seq<char> {
    match code_value(vstd::utf8::encode_utf8(v)) {
        Some(code) => activity_name(code),
        None => v,
    }
}

/// The metadata after one metadata entry with the given attributes; `None` where
/// an attribute is malformed. Entries without both a key and a value, and keys
/// outside the retained two, change nothing; a later entry replaces an earlier
/// one with the same key.
pub open spec fn apply_entry(m: MetadataView, attrs: Attrs) -> Option<MetadataView> {
    if !well_formed(attrs) {
        None
    } else {
        Some(
            match (lookup(attrs, "key"@), lookup(attrs, "value"@)) {
                (Some(k), Some(v)) => if k == "HKActivityType"@ {
                    MetadataView { activity_type: Some(activity_value(v)), ..m }
                } else if k == "HKPhysicalEffortEstimationType"@ {
                    MetadataView { physical_effort_estimation_type: Some(v), ..m }
                } else {
                    m
                },
                _ => m,
            },
        )
    }
}

proof fn lemma_lookup_prefix(attrs: Attrs, key: Seq<char>, i: int)
    requires
        0 <= i <= attrs.len(),
        lookup(attrs.take(i), key) is Some,
    ensures
        lookup(attrs, key) == lookup(attrs.take(i), key),
    decreases attrs.len(),
{
    if i < attrs.len() {
        assert(attrs.drop_last().take(i) =~= attrs.take(i));
        lemma_lookup_prefix(attrs.drop_last(), key, i);
    } else {
        assert(attrs.take(i) =~= attrs);
    }
}

/// Keeps `v` as the value of `key` unless an earlier attribute already gave one.
fn note_first(slot: &mut Option<String>, k: &String, v: &String, key: &str)
    ensures
        opt_view(*final(slot)) == (match opt_view(*old(slot)) {
            Some(x) => Some(x),
            None => if k@ == key@ {
                Some(v@)
            } else {
                None
            },
        }),
{
    if slot.is_none() && text_eq(k.as_str(), key) {
        *slot = Some(v.clone());
    }
}

/// Whether the filter admits a record type; an empty filter admits all.
pub fn is_type_allowed(filter: &Vec<String>, t: &str) -> (r: bool)
    ensures
        r == type_allowed(filter_view(filter@), t@),
{
    let ghost f = filter_view(filter@);
    if filter.len() == 0 {
        return true;
    }
    let mut i: usize = 0;
    while i < filter.len()
        invariant
            f == filter_view(filter@),
            i <= filter@.len(),
            forall|j: int| 0 <= j < i ==> f[j] != t@,
        decreases filter@.len() - i,
    {
        if text_eq(filter[i].as_str(), t) {
            assert(f[i as int] == t@);
            return true;
        }
        i = i + 1;
    }
    false
}


/// The first pass over a record tag's attributes: reads only up to the first
/// `type` attribute. `None` where there is none, or where a malformed attribute
/// comes before it.
pub fn read_type(raw: &str) -> (r: Option<String>)
    ensures
        r matches Some(t) ==> lookup(xml_attributes(raw@), "type"@) == Some(t@),
        r is None ==> lookup(xml_attributes(raw@), "type"@) is None || !well_formed(xml_attributes(raw@)),
{
    let ghost all = xml_attributes(raw@);
    let ghost mut n: int = 0;
    let mut it = open_attributes(raw);
    loop
        invariant
            all == xml_attributes(raw@),
            0 <= n <= all.len(),
            pending_attributes(it) == all.skip(n),
            lookup(all.take(n), "type"@) is None,
        decreases pending_attributes(it).len(),
    {
        match next_attribute(&mut it) {
            None => {
                assert(all.take(n) =~= all);
                return None;
            },
            Some(AttrItem::Malformed) => {
                assert(all[n] is None);
                return None;
            },
            Some(AttrItem::Pair(k, v)) => {
                assert(all.take(n + 1).drop_last() =~= all.take(n));
                assert(all.take(n + 1).last() == all[n]);
                if text_eq(k.as_str(), "type") {
                    proof {
                        lemma_lookup_prefix(all, "type"@, n + 1);
                    }
                    return Some(v);
                }
                proof {
                    assert(all.skip(n).drop_first() =~= all.skip(n + 1));
                    n = n + 1;
                }
            },
        }
    }
}

/// Reads the attributes of a record tag in two passes. The first reads only up
/// to the type; where the filter rejects it, nothing else is read. The second
/// reads the rest and gives up as soon as the start date is not recent.
pub fn record_from_attributes(raw: &str, filter: &Vec<String>, cutoff: YearMonth) -> (r: Option<HealthRecord>)
    ensures
        match r {
            Some(rec) => record_of_attributes(xml_attributes(raw@), filter_view(filter@), cutoff) == Some(rec@),
            None => record_of_attributes(xml_attributes(raw@), filter_view(filter@), cutoff) is None,
        },
{
    let ghost all = xml_attributes(raw@);
    let t = match read_type(raw) {
        Some(t) => t,
        None => return None,
    };
    if !is_type_allowed(filter, t.as_str()) {
        return None;
    }
    let ghost mut n: int = 0;
    let mut it = open_attributes(raw);
    let mut start: Option<String> = None;
    let mut value: Option<String> = None;
    let mut unit: Option<String> = None;
    let mut end_date: Option<String> = None;
    loop
        invariant_except_break
            pending_attributes(it) == all.skip(n),
        invariant
            all == xml_attributes(raw@),
            lookup(all, "type"@) == Some(t@),
            type_allowed(filter_view(filter@), t@),
            0 <= n <= all.len(),
            well_formed(all.take(n)),
            opt_view(start) == lookup(all.take(n), "startDate"@),
            opt_view(value) == lookup(all.take(n), "value"@),
            opt_view(unit) == lookup(all.take(n), "unit"@),
            opt_view(end_date) == lookup(all.take(n), "endDate"@),
            start matches Some(d) ==> recent(vstd::utf8::encode_utf8(d@), cutoff),
        ensures
            all.take(n) == all,
        decreases pending_attributes(it).len(),
    {
        match next_attribute(&mut it) {
            None => {
                assert(all.take(n) =~= all);
                break;
            },
            Some(AttrItem::Malformed) => {
                assert(all[n] is None);
                return None;
            },
            Some(AttrItem::Pair(k, v)) => {
                assert(all.take(n + 1).drop_last() =~= all.take(n));
                assert(all.take(n + 1).last() == all[n]);
                let first_start = start.is_none() && text_eq(k.as_str(), "startDate");
                note_first(&mut start, &k, &v, "startDate");
                note_first(&mut value, &k, &v, "value");
                note_first(&mut unit, &k, &v, "unit");
                note_first(&mut end_date, &k, &v, "endDate");
                if first_start && !is_recent(v.as_str(), cutoff) {
                    proof {
                        lemma_lookup_prefix(all, "startDate"@, n + 1);
                    }
                    return None;
                }
                proof {
                    assert(all.skip(n).drop_first() =~= all.skip(n + 1));
                    n = n + 1;
                }
            },
        }
    }
    match start {
        Some(d) => Some(HealthRecord {
            record_type: t,
            value,
            unit,
            start_date: d,
            end_date,
            metadata: RecordMetadata { activity_type: None, physical_effort_estimation_type: None },
        }),
        None => None,
    }
}

/// Translates an activity-type value: a numeric code, with or without a
/// leading `+`, becomes its name; any other text is kept as it is.
pub fn activity_text(v: &String) -> (r: String)
    ensures
        r@ == activity_value(v@),
{
    let b = v.as_str().as_bytes();
    assert(b@.subrange(0, b@.len() as int) =~= b@);
    let code = if b.len() > 0 && b[0] == 43 {
        decimal_in(b, 1, b.len())
    } else {
        decimal_in(b, 0, b.len())
    };
    match code {
        Some(code) => translate(code),
        None => v.clone(),
    }
}

/// Applies one metadata entry, given by its attribute text, to the metadata.
/// Returns `false`, leaving the outcome to the caller, where an attribute is
/// malformed.
pub fn apply_metadata_entry(meta: &mut RecordMetadata, raw: &str) -> (ok: bool)
    ensures
        ok == apply_entry(old(meta)@, xml_attributes(raw@)) is Some,
        ok ==> apply_entry(old(meta)@, xml_attributes(raw@)) == Some(final(meta)@),
{
    let ghost all = xml_attributes(raw@);
    let ghost mut n: int = 0;
    let mut it = open_attributes(raw);
    let mut key: Option<String> = None;
    let mut value: Option<String> = None;
    loop
        invariant_except_break
            pending_attributes(it) == all.skip(n),
        invariant
            all == xml_attributes(raw@),
            0 <= n <= all.len(),
            well_formed(all.take(n)),
            opt_view(key) == lookup(all.take(n), "key"@),
            opt_view(value) == lookup(all.take(n), "value"@),
            *meta == *old(meta),
        ensures
            all.take(n) == all,
        decreases pending_attributes(it).len(),
    {
        match next_attribute(&mut it) {
            None => {
                assert(all.take(n) =~= all);
                break;
            },
            Some(AttrItem::Malformed) => {
                assert(all[n] is None);
                return false;
            },
            Some(AttrItem::Pair(k, v)) => {
                assert(all.take(n + 1).drop_last() =~= all.take(n));
                assert(all.take(n + 1).last() == all[n]);
                note_first(&mut key, &k, &v, "key");
                note_first(&mut value, &k, &v, "value");
                proof {
                    assert(all.skip(n).drop_first() =~= all.skip(n + 1));
                    n = n + 1;
                }
            },
        }
    }
    match (key, value) {
        (Some(k), Some(v)) => {
            if text_eq(k.as_str(), "HKActivityType") {
                meta.activity_type = Some(activity_text(&v));
            } else if text_eq(k.as_str(), "HKPhysicalEffortEstimationType") {
                meta.physical_effort_estimation_type = Some(v);
            }
        },
        _ => {},
    }
    true
}

pub open spec fn text_or_empty(o: Option<Seq<char>>) -> Seq<char> {
    match o {
        Some(s) => s,
        None => Seq::empty(),
    }
}

fn owned_or_empty(o: &Option<String>) -> (r: String)
    ensures
        r@ == text_or_empty(opt_view(*o)),
{
    match o {
        Some(s) => s.clone(),
        None => String::new(),
    }
}

impl HealthRecord {
    /// The record's type, value, unit, start date and end date, as the columns
    /// of a table row; an absent field is an empty text.
    pub fn table_fields(&self) -> (r: Vec<String>)
        ensures
            r@.len() == 5,
            r@[0]@ == self.record_type@,
            r@[1]@ == text_or_empty(opt_view(self.value)),
            r@[2]@ == text_or_empty(opt_view(self.unit)),
            r@[3]@ == self.start_date@,
            r@[4]@ == text_or_empty(opt_view(self.end_date)),
    {
        let mut r: Vec<String> = Vec::new();
        r.push(self.record_type.clone());
        r.push(owned_or_empty(&self.value));
        r.push(owned_or_empty(&self.unit));
        r.push(self.start_date.clone());
        r.push(owned_or_empty(&self.end_date));
        r
    }
}

impl RecordMetadata {
    /// The retained metadata as key and value pairs, activity type first.
    pub fn entries(&self) -> (r: Vec<(String, String)>)
        ensures
            r@.len() == (if self.activity_type is Some { 1int } else { 0 }) + (if self.physical_effort_estimation_type is Some { 1int } else { 0 }),
            self.activity_type matches Some(v) ==> r@[0].0@ == "HKActivityType"@ && r@[0].1@ == v@,
            self.physical_effort_estimation_type matches Some(v) ==> r@[r@.len() - 1].0@ == "HKPhysicalEffortEstimationType"@ && r@[r@.len() - 1].1@ == v@,
    {
        let mut r: Vec<(String, String)> = Vec::new();
        match &self.activity_type {
            Some(v) => r.push((String::from_str("HKActivityType"), v.clone())),
            None => {},
        }
        match &self.physical_effort_estimation_type {
            Some(v) => r.push((String::from_str("HKPhysicalEffortEstimationType"), v.clone())),
            None => {},
        }
        r
    }
}

/// The bytes of the decimal text of a number.
pub open spec fn decimal_bytes(m: nat) -> Seq<u8> {
    decimal_text(m).map_values(|c: char| c as u8)
}

proof fn lemma_decimal_text_reads_back(m: nat)
    ensures
        decimal_text(m).len() >= 1,
        forall|i: int| 0 <= i < decimal_text(m).len() ==> '0' <= #[trigger] decimal_text(m)[i] <= '9',
        all_digits(decimal_bytes(m)),
        decimal_value(decimal_bytes(m)) == m,
    decreases m,
{
    if m >= 10 {
        lemma_decimal_text_reads_back(m / 10);
        assert(decimal_bytes(m).drop_last() =~= decimal_bytes(m / 10));
        assert(decimal_bytes(m).last() == 48 + m % 10);
        assert((m / 10) * 10 + m % 10 == m) by (nonlinear_arith);
        assert(decimal_value(decimal_bytes(m)) == decimal_value(decimal_bytes(m / 10)) * 10 + m % 10);
    } else {
        assert(decimal_bytes(m).drop_last() =~= Seq::<u8>::empty());
        assert(decimal_bytes(m).len() == 1);
        assert(decimal_bytes(m).last() == 48 + m);
        assert(decimal_value(Seq::<u8>::empty()) == 0);
        assert(decimal_value(decimal_bytes(m)) == decimal_value(Seq::<u8>::empty()) * 10 + m);
    }
}

/// An activity-type metadata entry whose value is the decimal text of a code
/// keeps that code's name, which is never empty.
pub proof fn lemma_activity_entry_named(m: MetadataView, attrs: Attrs, code: u32)
    requires
        well_formed(attrs),
        lookup(attrs, "key"@) == Some("HKActivityType"@),
        lookup(attrs, "value"@) == Some(decimal_text(code as nat)),
    ensures
        apply_entry(m, attrs) matches Some(m2) && m2.activity_type == Some(activity_name(code)),
        activity_name(code).len() > 0,
{
    let t = decimal_text(code as nat);
    lemma_decimal_text_reads_back(code as nat);
    vstd::utf8::is_ascii_chars_encode_utf8(t);
    assert(vstd::utf8::encode_utf8(t) =~= decimal_bytes(code as nat));
    assert(code_value(vstd::utf8::encode_utf8(t)) == Some(code));
    crate::activity::lemma_translation_total(code);
}

} // verus!
