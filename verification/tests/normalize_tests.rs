use themestore::normalize::{
    build_details, collect_previews, normalize_downloads, normalize_record, score_frac,
    score_text, score_whole, split_field, strip_markup,
};
use themestore::numtext::{parse_u64_digits, u64_to_string};
use themestore::product::{DownloadDetail, RawRecord, RawValue};

fn text(s: &str) -> RawValue {
    RawValue::Text(String::from(s))
}

fn bare_record(extra: Vec<(String, RawValue)>) -> RawRecord {
    RawRecord {
        details: String::new(),
        id: 0,
        name: String::new(),
        typeid: 0,
        typename: String::new(),
        personid: String::new(),
        created: String::new(),
        changed: String::new(),
        score_raw: 0,
        downloads: String::new(),
        description: String::new(),
        extra,
    }
}

fn entry(key: &str, v: RawValue) -> (String, RawValue) {
    (String::from(key), v)
}

#[test]
fn strip_markup_removes_tags() {
    assert_eq!(strip_markup("<b>Nice</b> theme"), "Nice theme");
}

#[test]
fn strip_markup_is_idempotent_on_samples() {
    for s in ["<b>Nice</b> theme", "a<b", ">x", "plain", "<p>x<br/>y</p>", "<<>>"] {
        let once = strip_markup(s);
        let twice = strip_markup(&once);
        assert_eq!(once, twice);
    }
}

#[test]
fn strip_markup_drops_unclosed_tag_to_end() {
    assert_eq!(strip_markup("a<b unclosed"), "a");
    assert_eq!(strip_markup(">x"), "x");
}

#[test]
fn split_field_takes_trailing_numeral() {
    assert_eq!(split_field("downloadlink12"), Some((String::from("downloadlink"), 12)));
    assert_eq!(split_field("link007"), Some((String::from("link"), 7)));
    assert_eq!(split_field("nodigits"), None);
    assert_eq!(split_field("a1b"), None);
    assert_eq!(split_field("7z"), None);
    assert_eq!(split_field("9"), Some((String::from(""), 9)));
}

#[test]
fn downloads_counter_defaults_to_zero_text() {
    assert_eq!(normalize_downloads(String::new()), "0");
    assert_eq!(normalize_downloads(String::from("1,234")), "1,234");
    assert_eq!(normalize_downloads(String::from("0")), "0");
}

#[test]
fn score_rescales_by_ten() {
    assert_eq!(score_whole(47), 4);
    assert_eq!(score_frac(47), 7);
    assert_eq!(score_text(47), "4.7");
    assert_eq!(score_text(50), "5.0");
    assert_eq!(score_text(0), "0.0");
}

#[test]
fn previews_skip_absent_indices_in_order() {
    let extra = vec![
        entry("previewpic2", text("http://x/b.png")),
        entry("previewpic1", text("http://x/a.png")),
        entry("previewpic4", text("http://x/d.png")),
    ];
    let previews = collect_previews(&extra);
    assert_eq!(previews, vec!["http://x/a.png", "http://x/b.png", "http://x/d.png"]);
}

#[test]
fn preview_without_first_index_still_collected() {
    let extra = vec![entry("previewpic2", text("http://x/only.png"))];
    assert_eq!(collect_previews(&extra), vec!["http://x/only.png"]);
}

#[test]
fn previews_stop_at_index_ten() {
    let mut extra = Vec::new();
    for i in 1..=12u64 {
        extra.push(entry(&format!("previewpic{}", i), text(&format!("u{}", i))));
    }
    let previews = collect_previews(&extra);
    assert_eq!(previews.len(), 10);
    assert_eq!(previews[0], "u1");
    assert_eq!(previews[9], "u10");
}

#[test]
fn non_text_previews_are_skipped() {
    let extra = vec![entry("previewpic1", RawValue::Uint(5))];
    assert_eq!(collect_previews(&extra), Vec::<String>::new());
}

#[test]
fn variants_group_by_index_and_sort_by_name() {
    let extra = vec![
        entry("downloadlink1", text("l1")),
        entry("downloadname1", text("B")),
        entry("downloadlink2", text("l2")),
        entry("downloadname2", text("A")),
        entry("downloadsize2", text("2048")),
    ];
    let details = build_details(&extra);
    assert_eq!(
        details,
        vec![
            DownloadDetail {
                downloadlink: String::from("l2"),
                downloadname: String::from("A"),
                downloadsize: 2048,
            },
            DownloadDetail {
                downloadlink: String::from("l1"),
                downloadname: String::from("B"),
                downloadsize: 0,
            },
        ]
    );
}

#[test]
fn variant_without_link_is_dropped() {
    let extra = vec![
        entry("downloadname1", text("orphan")),
        entry("downloadsize1", text("99")),
        entry("downloadlink2", text("kept")),
    ];
    let details = build_details(&extra);
    assert_eq!(details.len(), 1);
    assert_eq!(details[0].downloadlink, "kept");
}

#[test]
fn variant_link_overwritten_by_later_entry_keeps_one_group() {
    let extra = vec![
        entry("downloadlink1", text("first")),
        entry("downloadlink1", text("second")),
    ];
    let details = build_details(&extra);
    assert_eq!(details.len(), 1);
    assert_eq!(details[0].downloadlink, "second");
}

#[test]
fn variant_sizes_parse_text_and_keep_integers() {
    let extra = vec![
        entry("downloadlink1", text("l1")),
        entry("downloadsize1", text("1024")),
        entry("downloadlink2", text("l2")),
        entry("downloadsize2", RawValue::Uint(77)),
        entry("downloadlink3", text("l3")),
        entry("downloadsize3", text("not a number")),
    ];
    let details = build_details(&extra);
    let sizes: Vec<u64> = details.iter().map(|d| d.downloadsize).collect();
    // all names are empty, so the suffix index orders the variants
    assert_eq!(sizes, vec![1024, 77, 0]);
}

#[test]
fn normalize_record_end_to_end() {
    let rec = RawRecord {
        details: String::from("full"),
        id: 5,
        name: String::from("Foo"),
        typeid: 135,
        typename: String::from("Gtk Themes"),
        personid: String::from("alice"),
        created: String::from("2024-01-02T03:04:05+00:00"),
        changed: String::from("2024-02-03T04:05:06+00:00"),
        score_raw: 47,
        downloads: String::new(),
        description: String::from("<b>Nice</b> theme"),
        extra: vec![
            entry("previewpic1", text("http://x/a.png")),
            entry("downloadlink1", text("http://x/a.tar")),
            entry("downloadname1", text("A")),
            entry("downloadsize1", text("1024")),
        ],
    };
    let p = normalize_record(rec);
    assert_eq!(p.id, 5);
    assert_eq!(p.name, "Foo");
    assert_eq!(p.typeid, 135);
    assert_eq!(p.score_tenths, 47);
    assert_eq!(p.downloads, "0");
    assert_eq!(p.description, "Nice theme");
    assert_eq!(p.previewpics, vec!["http://x/a.png"]);
    assert_eq!(
        p.downloaddetails,
        vec![DownloadDetail {
            downloadlink: String::from("http://x/a.tar"),
            downloadname: String::from("A"),
            downloadsize: 1024,
        }]
    );
}

#[test]
fn normalize_record_empty_bag() {
    let p = normalize_record(bare_record(Vec::new()));
    assert!(p.previewpics.is_empty());
    assert!(p.downloaddetails.is_empty());
    assert_eq!(p.downloads, "0");
}

#[test]
fn decimal_rendering() {
    assert_eq!(u64_to_string(0), "0");
    assert_eq!(u64_to_string(255), "255");
    assert_eq!(u64_to_string(u64::MAX), "18446744073709551615");
}

#[test]
fn decimal_parsing() {
    assert_eq!(parse_u64_digits("1024"), Some(1024));
    assert_eq!(parse_u64_digits("0"), Some(0));
    assert_eq!(parse_u64_digits(""), None);
    assert_eq!(parse_u64_digits("12a"), None);
    assert_eq!(parse_u64_digits("18446744073709551615"), Some(u64::MAX));
    assert_eq!(parse_u64_digits("18446744073709551616"), None);
}
