use health_export::activity::translate;
use health_export::cache::{cache_file_name, cache_key};
use health_export::pipeline::{collect_present, parse_records};
use health_export::recency::{is_recent, recency_cutoff, CivilDate, YearMonth};
use health_export::record::HealthRecord;
use health_export::segment::{segment, unit_text, UnitSpan};
use health_export::text::{decimal_in, text_eq};
use health_export::unit::{parse_unit, record_from_tags};
use health_export::xml::XmlTag;

fn june_2024_cutoff() -> YearMonth {
    recency_cutoff(CivilDate { year: 2024, month: 6, day: 1 }).unwrap()
}

fn filter(types: &[&str]) -> Vec<String> {
    types.iter().map(|t| t.to_string()).collect()
}

fn record_unit(t: &str, start: &str, inner: &str) -> String {
    format!(
        "<Record type=\"{}\" unit=\"count/min\" value=\"72\" startDate=\"{}\" endDate=\"{}\">{}</Record>\n",
        t, start, start, inner
    )
}

fn document(units: &[String]) -> String {
    let mut d = String::from("<?xml version=\"1.0\"?>\n<HealthData locale=\"en\">\n <Me HKCharacteristicTypeIdentifierBiologicalSex=\"x\"/>\n");
    for u in units {
        d.push_str(" ");
        d.push_str(u);
    }
    d.push_str("</HealthData>\n");
    d
}

#[test]
fn cutoff_of_june_2024_is_june_2023() {
    assert_eq!(june_2024_cutoff(), YearMonth { year: 2023, month: 6 });
}

#[test]
fn cutoff_after_a_leap_day_moves_a_day() {
    // 2024-03-31 minus 365 days is 2023-04-01: the window starts in April.
    let c = recency_cutoff(CivilDate { year: 2024, month: 3, day: 31 }).unwrap();
    assert_eq!(c, YearMonth { year: 2023, month: 4 });
}

#[test]
fn cutoff_of_impossible_day_is_none() {
    assert_eq!(recency_cutoff(CivilDate { year: 2023, month: 2, day: 29 }), None);
    assert_eq!(recency_cutoff(CivilDate { year: 2023, month: 13, day: 1 }), None);
}

#[test]
fn recent_dates_against_fixed_anchor() {
    let c = june_2024_cutoff();
    assert!(is_recent("2024-01-15 08:00:00 +0100", c));
    assert!(!is_recent("2020-01-01 08:00:00 +0100", c));
    assert!(!is_recent("202", c));
}

#[test]
fn recency_is_month_granular() {
    let c = YearMonth { year: 2023, month: 6 };
    assert!(is_recent("2023-06-01", c));
    assert!(is_recent("2023-06-30", c));
    assert!(!is_recent("2023-05-31", c));
    assert!(is_recent("2024-01", c));
    assert!(is_recent("2023-12-01", c));
}

#[test]
fn recency_rejects_non_numeric_fields() {
    let c = YearMonth { year: 2023, month: 6 };
    assert!(!is_recent("20x4-01-15", c));
    assert!(!is_recent("2024-0a-15", c));
    assert!(!is_recent("", c));
    assert!(!is_recent("2024-1", c));
}

#[test]
fn translator_is_total_on_small_codes() {
    for code in 0..=200u32 {
        let name = translate(code);
        assert!(!name.is_empty());
    }
}

#[test]
fn translator_known_and_unknown_codes() {
    assert_eq!(translate(37), "Running");
    assert_eq!(translate(52), "Walking");
    assert_eq!(translate(13), "Cycling");
    assert_eq!(translate(3000), "Other");
    assert_eq!(translate(0), "Unknown(0)");
    assert_eq!(translate(81), "Unknown(81)");
    assert_eq!(translate(200), "Unknown(200)");
    assert_eq!(translate(4294967295), "Unknown(4294967295)");
}

#[test]
fn unknown_names_differ_from_known_names() {
    let known: Vec<String> = (0..=3000u32).map(translate).filter(|n| !n.starts_with("Unknown(")).collect();
    for code in [0u32, 81, 85, 200, 2999] {
        let n = translate(code);
        assert!(!known.contains(&n));
    }
}

#[test]
fn cache_key_is_blake3_hex() {
    assert_eq!(
        cache_key(b""),
        "af1349b9f5f9a1a6a0404dea36dcc9499bcb25c9adc112b7cc9a93cae41f3262"
    );
    let k = cache_key(b"abc");
    assert_eq!(k.len(), 64);
    assert_eq!(k, "6437b3ac38465133ffb63b75273a8db548c558465d79db03fd359c6cd5bd9d85");
}

#[test]
fn same_archive_same_key_and_records() {
    let archive = b"PK\x03\x04 some archive bytes".to_vec();
    assert_eq!(cache_key(&archive), cache_key(&archive.clone()));
    let doc = document(&[record_unit("A", "2024-02-01", "")]);
    let f = filter(&["A"]);
    let a = parse_records(&doc, &f, june_2024_cutoff());
    let b = parse_records(&doc.clone(), &f, june_2024_cutoff());
    assert_eq!(format!("{:?}", a), format!("{:?}", b));
    assert_eq!(a.len(), 1);
}

#[test]
fn cache_file_is_named_by_key() {
    assert_eq!(cache_file_name("ab12"), "ab12.xml");
}

#[test]
fn segment_discards_prologue_and_keeps_order() {
    let doc = "<HealthData><Record a=\"1\"/> x <Record b=\"2\"/></HealthData>";
    let spans = segment(doc);
    assert_eq!(spans, vec![UnitSpan { start: 12, end: 30 }, UnitSpan { start: 30, end: doc.len() }]);
    assert_eq!(unit_text(doc, spans[0]), "<Record a=\"1\"/> x ");
    assert_eq!(unit_text(doc, spans[1]), "<Record b=\"2\"/></HealthData>");
}

#[test]
fn segment_without_marker_is_empty() {
    assert!(segment("").is_empty());
    assert!(segment("<HealthData><Recordx/><Record/></HealthData>").is_empty());
}

#[test]
fn marker_inside_attribute_value_splits_unit() {
    // The exporter never writes the marker inside a value; if it did, the value
    // would open a unit of its own.
    let doc = "<Record type=\"A\" note=\"<Record \"/>";
    assert_eq!(segment(doc).len(), 2);
}

#[test]
fn segment_handles_multibyte_text() {
    let doc = "é<Record a=\"ü\"/>ß<Record b=\"2\"/>";
    let spans = segment(doc);
    assert_eq!(spans.len(), 2);
    assert_eq!(unit_text(doc, spans[0]), "<Record a=\"ü\"/>ß");
}

#[test]
fn three_records_one_survives() {
    let units = vec![
        record_unit("A", "2024-03-01 10:00:00 +0000", ""),
        record_unit("B", "2024-03-01 10:00:00 +0000", ""),
        record_unit("C", "2019-03-01 10:00:00 +0000", ""),
    ];
    let doc = document(&units);
    let out = parse_records(&doc, &filter(&["A", "C"]), june_2024_cutoff());
    assert_eq!(out.len(), 1);
    assert_eq!(out[0].record_type, "A");
}

#[test]
fn empty_filter_admits_every_type() {
    let units = vec![
        record_unit("A", "2024-03-01", ""),
        record_unit("B", "2024-04-01", ""),
        record_unit("C", "2019-03-01", ""),
    ];
    let out = parse_records(&document(&units), &Vec::new(), june_2024_cutoff());
    let types: Vec<&str> = out.iter().map(|r| r.record_type.as_str()).collect();
    assert_eq!(types, vec!["A", "B"]);
}

#[test]
fn output_keeps_document_order() {
    let units: Vec<String> = (0..50)
        .map(|i| record_unit(&format!("T{}", i % 7), "2024-05-01", ""))
        .collect();
    let out = parse_records(&document(&units), &filter(&["T1", "T3", "T5"]), june_2024_cutoff());
    let types: Vec<String> = out.iter().map(|r| r.record_type.clone()).collect();
    let expected: Vec<String> = (0..50)
        .map(|i| format!("T{}", i % 7))
        .filter(|t| t == "T1" || t == "T3" || t == "T5")
        .collect();
    assert_eq!(types, expected);
    assert!(out.len() <= units.len());
}

#[test]
fn fields_of_a_kept_record() {
    let unit = "<Record type=\"HKQuantityTypeIdentifierHeartRate\" sourceName=\"Watch\" unit=\"count/min\" creationDate=\"2024-03-02\" startDate=\"2024-03-01 10:00:00 +0100\" endDate=\"2024-03-01 10:01:00 +0100\" value=\"61\"/>\n";
    let r = parse_unit(unit, &Vec::new(), june_2024_cutoff()).unwrap();
    assert_eq!(r.record_type, "HKQuantityTypeIdentifierHeartRate");
    assert_eq!(r.value.as_deref(), Some("61"));
    assert_eq!(r.unit.as_deref(), Some("count/min"));
    assert_eq!(r.start_date, "2024-03-01 10:00:00 +0100");
    assert_eq!(r.end_date.as_deref(), Some("2024-03-01 10:01:00 +0100"));
    assert_eq!(r.metadata.activity_type, None);
    assert_eq!(
        r.table_fields(),
        vec![
            "HKQuantityTypeIdentifierHeartRate".to_string(),
            "61".to_string(),
            "count/min".to_string(),
            "2024-03-01 10:00:00 +0100".to_string(),
            "2024-03-01 10:01:00 +0100".to_string(),
        ]
    );
}

#[test]
fn type_read_wherever_it_stands() {
    let unit = "<Record startDate=\"2024-03-01\" value=\"HKCategoryValueSleepAnalysisAsleepCore\" type=\"S\"/>";
    let r = parse_unit(unit, &filter(&["S"]), june_2024_cutoff()).unwrap();
    assert_eq!(r.record_type, "S");
    assert_eq!(r.value.as_deref(), Some("HKCategoryValueSleepAnalysisAsleepCore"));
    assert_eq!(r.unit, None);
    assert_eq!(r.end_date, None);
}

#[test]
fn missing_type_or_start_date_drops_unit() {
    let c = june_2024_cutoff();
    assert!(parse_unit("<Record startDate=\"2024-03-01\" value=\"1\"/>", &Vec::new(), c).is_none());
    assert!(parse_unit("<Record type=\"A\" value=\"1\"/>", &Vec::new(), c).is_none());
}

#[test]
fn stale_record_dropped() {
    let c = june_2024_cutoff();
    assert!(parse_unit("<Record type=\"A\" startDate=\"2023-05-31\"/>", &Vec::new(), c).is_none());
    assert!(parse_unit("<Record type=\"A\" startDate=\"2023-06-01\"/>", &Vec::new(), c).is_some());
}

#[test]
fn unterminated_or_malformed_unit_yields_nothing() {
    let c = june_2024_cutoff();
    assert!(parse_unit("<Record type=\"A\" startDate=\"2024-03-01\">", &Vec::new(), c).is_none());
    assert!(parse_unit("<Record type=\"A\" startDate=\"2024-03-01\"><MetadataEntry key=\"k\" value=\"v\"/>", &Vec::new(), c).is_none());
    assert!(parse_unit("<Record type=\"A\" startDate=\"2024-03-01\"><Other></Record>", &Vec::new(), c).is_none());
}

#[test]
fn metadata_activity_code_translated() {
    let inner = "<MetadataEntry key=\"HKActivityType\" value=\"37\"/><MetadataEntry key=\"HKPhysicalEffortEstimationType\" value=\"1\"/><MetadataEntry key=\"HKTimeZone\" value=\"Europe/Paris\"/>";
    let unit = record_unit("HKQuantityTypeIdentifierPhysicalEffort", "2024-03-01", inner);
    let r = parse_unit(&unit, &Vec::new(), june_2024_cutoff()).unwrap();
    assert_eq!(r.metadata.activity_type.as_deref(), Some("Running"));
    assert_eq!(r.metadata.physical_effort_estimation_type.as_deref(), Some("1"));
    assert_eq!(
        r.metadata.entries(),
        vec![
            ("HKActivityType".to_string(), "Running".to_string()),
            ("HKPhysicalEffortEstimationType".to_string(), "1".to_string()),
        ]
    );
}

#[test]
fn metadata_non_numeric_activity_kept_and_last_entry_wins() {
    let inner = "<MetadataEntry key=\"HKActivityType\" value=\"37\"/><MetadataEntry key=\"HKActivityType\" value=\"yoga\"/><MetadataEntry value=\"5\"/>";
    let unit = record_unit("A", "2024-03-01", inner);
    let r = parse_unit(&unit, &Vec::new(), june_2024_cutoff()).unwrap();
    assert_eq!(r.metadata.activity_type.as_deref(), Some("yoga"));
    assert_eq!(r.metadata.physical_effort_estimation_type, None);
}

#[test]
fn metadata_unknown_activity_code_uses_placeholder() {
    let inner = "<MetadataEntry key=\"HKActivityType\" value=\"81\"/>";
    let unit = record_unit("A", "2024-03-01", inner);
    let r = parse_unit(&unit, &Vec::new(), june_2024_cutoff()).unwrap();
    assert_eq!(r.metadata.activity_type.as_deref(), Some("Unknown(81)"));
}

#[test]
fn excluded_type_keeps_no_metadata() {
    let inner = "<MetadataEntry key=\"HKActivityType\" value=\"37\"/>";
    let unit = record_unit("B", "2024-03-01", inner);
    let c = june_2024_cutoff();
    assert!(parse_unit(&unit, &filter(&["A"]), c).is_none());
    let doc = document(&[unit.clone()]);
    assert!(parse_records(&doc, &filter(&["A"]), c).is_empty());
    let kept = parse_unit(&unit, &filter(&["B"]), c).unwrap();
    assert_eq!(kept.metadata.activity_type.as_deref(), Some("Running"));
}

#[test]
fn collect_present_keeps_order() {
    let rec = |t: &str| HealthRecord {
        record_type: t.to_string(),
        value: None,
        unit: None,
        start_date: "2024-01-01".to_string(),
        end_date: None,
        metadata: health_export::record::RecordMetadata { activity_type: None, physical_effort_estimation_type: None },
    };
    let out = collect_present(vec![None, Some(rec("x")), None, Some(rec("y")), Some(rec("z"))]);
    let types: Vec<&str> = out.iter().map(|r| r.record_type.as_str()).collect();
    assert_eq!(types, vec!["x", "y", "z"]);
    assert!(collect_present(Vec::new()).is_empty());
}

#[test]
fn decimal_reading() {
    assert_eq!(decimal_in(b"2024-06", 0, 4), Some(2024));
    assert_eq!(decimal_in(b"2024-06", 5, 7), Some(6));
    assert_eq!(decimal_in(b"2024-06", 3, 5), None);
    assert_eq!(decimal_in(b"4294967295", 0, 10), Some(4294967295));
    assert_eq!(decimal_in(b"4294967296", 0, 10), None);
    assert_eq!(decimal_in(b"", 0, 0), None);
}

#[test]
fn text_equality() {
    assert!(text_eq("Record", "Record"));
    assert!(!text_eq("Record", "Records"));
    assert!(!text_eq("é", "e"));
}

fn open(name: &str, attributes: &str) -> health_export::xml::OpenTag {
    health_export::xml::OpenTag { name: name.to_string(), attributes: attributes.to_string() }
}

#[test]
fn record_from_given_tags() {
    let c = june_2024_cutoff();
    let tags = vec![
        XmlTag::Start(open("Record", " type=\"A\" startDate=\"2024-02-01\" value=\"3\"")),
        XmlTag::Other,
        XmlTag::Empty(open("MetadataEntry", " key=\"HKActivityType\" value=\"52\"")),
        XmlTag::End("Record".to_string()),
        XmlTag::Start(open("Record", " type=\"B\" startDate=\"2024-02-01\"")),
    ];
    let r = record_from_tags(&tags, &Vec::new(), c).unwrap();
    assert_eq!(r.record_type, "A");
    assert_eq!(r.value.as_deref(), Some("3"));
    assert_eq!(r.metadata.activity_type.as_deref(), Some("Walking"));
    // Without its closing tag the record is not produced.
    assert!(record_from_tags(&vec![XmlTag::Start(open("Record", " type=\"A\" startDate=\"2024-02-01\"")), XmlTag::Other], &Vec::new(), c).is_none());
    // A closing tag before any record tag settles the unit as empty.
    let early = vec![XmlTag::End("Record".to_string()), XmlTag::Empty(open("Record", " type=\"A\" startDate=\"2024-02-01\""))];
    assert!(record_from_tags(&early, &Vec::new(), c).is_none());
}

#[test]
fn malformed_record_attribute_drops_unit() {
    let c = june_2024_cutoff();
    // An attribute without a value, and a repeated attribute, are malformed.
    assert!(parse_unit("<Record type=\"A\" startDate=\"2024-03-01\" broken/>", &Vec::new(), c).is_none());
    assert!(parse_unit("<Record type=\"A\" startDate=\"2024-03-01\" unit=\"a\" unit=\"b\"/>", &Vec::new(), c).is_none());
    assert!(parse_unit("<Record broken type=\"A\" startDate=\"2024-03-01\"/>", &Vec::new(), c).is_none());
    assert!(parse_unit("<Record type=\"A\" startDate=\"2024-03-01\" unit=\"b\"/>", &Vec::new(), c).is_some());
}

#[test]
fn malformed_metadata_attribute_drops_unit() {
    let c = june_2024_cutoff();
    let unit = record_unit("A", "2024-03-01", "<MetadataEntry key=\"HKActivityType\" value/>");
    assert!(parse_unit(&unit, &Vec::new(), c).is_none());
    let doc = document(&[unit, record_unit("B", "2024-03-01", "")]);
    let out = parse_records(&doc, &Vec::new(), c);
    assert_eq!(out.len(), 1);
    assert_eq!(out[0].record_type, "B");
}

#[test]
fn excluded_type_with_malformed_rest_yields_nothing() {
    let c = june_2024_cutoff();
    let unit = "<Record type=\"B\" broken startDate=\"2024-03-01\"><MetadataEntry key/></Record>";
    assert!(parse_unit(unit, &filter(&["A"]), c).is_none());
}

#[test]
fn activity_code_with_plus_sign_translated() {
    let c = june_2024_cutoff();
    let unit = record_unit("A", "2024-03-01", "<MetadataEntry key=\"HKActivityType\" value=\"+37\"/>");
    let r = parse_unit(&unit, &Vec::new(), c).unwrap();
    assert_eq!(r.metadata.activity_type.as_deref(), Some("Running"));
    for v in ["+", "-37", "++37", "37a", ""] {
        let unit = record_unit("A", "2024-03-01", &format!("<MetadataEntry key=\"HKActivityType\" value=\"{}\"/>", v));
        let r = parse_unit(&unit, &Vec::new(), c).unwrap();
        assert_eq!(r.metadata.activity_type.as_deref(), Some(v));
    }
}

#[test]
fn activity_codes_in_documents_are_named() {
    let c = june_2024_cutoff();
    for n in 0..=200u32 {
        let unit = format!(
            "<Record type='T' startDate='9999-01-01 00:00:00 +0000'><MetadataEntry key='HKActivityType' value='{}'/></Record>",
            n
        );
        let out = parse_records(&unit, &Vec::new(), c);
        assert_eq!(out.len(), 1);
        let s = out[0].metadata.activity_type.clone().unwrap();
        assert_eq!(s, translate(n));
        assert!(!s.is_empty());
    }
}
