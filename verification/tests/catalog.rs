use bili_audio::catalog::{
    is_already_downloaded, list_downloaded_audios, parse_catalog, play_audio_by_index,
    save_audio_info, CatalogEntry,
};

fn entry(bvid: &str, title: &str, output_path: &str) -> CatalogEntry {
    CatalogEntry {
        bvid: bvid.to_string(),
        title: title.to_string(),
        output_path: output_path.to_string(),
    }
}

/// The records of a text, computed with std's own splitting.
fn records_by_std(text: &str) -> Vec<CatalogEntry> {
    let mut found = Vec::new();
    for line in text.lines() {
        let parts: Vec<&str> = line.split('|').collect();
        if parts.len() == 3 {
            found.push(entry(parts[0], parts[1], parts[2]));
        }
    }
    found
}

fn recorded_by_std(text: &str, bvid: &str) -> bool {
    text.lines().any(|line| {
        let parts: Vec<&str> = line.split('|').collect();
        parts.len() >= 3 && parts[0] == bvid
    })
}

const SAMPLES: [&str; 24] = [
    "",
    "\n",
    "\n\n",
    "\r\n",
    "\r",
    "a|b|c",
    "a|b|c\n",
    "a|b|c\r\n",
    "a|b|c\r",
    "a|b|c\r\r\n",
    "a|b|c\n\n d|e|f\n",
    "a|b\nc|d|e\n",
    "a|b|c|d\n",
    "||\n",
    "|||\n",
    "|\n",
    "a||c\nx\n\na|b|c",
    "BV1xx|Old|output/BV1xx.mp3\n",
    "BV1xx|音乐|output/BV1xx.mp3\nBV2|标题 with space|output/BV2.mp3\n",
    "BV1|t|p\nBV1|t2|f2.mp3\n",
    "BV1|t|p\r\nBV2|t2|f2.mp3\r\nBV3",
    "no separators at all",
    "a|b|c\n|",
    "\u{2028}a|b|c\u{2028}d|e|f\n",
];

#[test]
fn records_agree_with_std_splitting() {
    for text in SAMPLES {
        assert_eq!(parse_catalog(text), records_by_std(text), "{:?}", text);
    }
}

#[test]
fn duplicate_check_agrees_with_std_splitting() {
    for text in SAMPLES {
        for bvid in ["", "a", "BV1", "BV1xx", "BV2", "BV3", "c", " d", "x", "no separators at all"] {
            assert_eq!(
                is_already_downloaded(text, bvid),
                recorded_by_std(text, bvid),
                "{:?} {:?}",
                text,
                bvid
            );
        }
    }
}

#[test]
fn seeded_catalog_records_its_bvid() {
    let text = "BV1xx|Old|output/BV1xx.mp3\n";
    assert!(is_already_downloaded(text, "BV1xx"));
    assert!(!is_already_downloaded(text, "BV1x"));
    assert!(!is_already_downloaded(text, "BV1xxx"));
    assert!(!is_already_downloaded(text, "bv1xx"));
    assert!(!is_already_downloaded(text, "Old"));
    assert!(!is_already_downloaded(text, "output/BV1xx.mp3"));
    assert!(!is_already_downloaded(text, ""));
}

#[test]
fn empty_catalog_records_nothing() {
    assert!(!is_already_downloaded("", "BV1xx"));
    assert!(!is_already_downloaded("", ""));
    assert!(!is_already_downloaded("\n\n", ""));
}

#[test]
fn cut_line_records_nothing() {
    assert!(!is_already_downloaded("BV1xx", "BV1xx"));
    assert!(!is_already_downloaded("BV1xx|Hel", "BV1xx"));
    assert!(!is_already_downloaded("BV0|a|b\nBV1xx|Hello", "BV1xx"));
    assert!(is_already_downloaded("BV0|a|b\nBV1xx|Hello|", "BV1xx"));
    assert!(is_already_downloaded("BV0|a|b\nBV1xx|Hello|out", "BV1xx"));
}

#[test]
fn line_of_more_fields_still_counts_as_downloaded() {
    let text = "BV1xx|a|b|output/BV1xx.mp3\n";
    assert!(is_already_downloaded(text, "BV1xx"));
    assert!(list_downloaded_audios(text).is_empty());
    assert_eq!(play_audio_by_index(text, 1), None);
}

#[test]
fn empty_first_field_matches_the_empty_bvid() {
    assert!(is_already_downloaded("|t|p\n", ""));
    assert!(!is_already_downloaded("|t\n", ""));
}

#[test]
fn listing_numbers_records_from_one() {
    let text = "BV1|First|output/BV1.mp3\nBV2|Second|output/BV2.mp3\nBV3|Third|output/BV3.mp3\n";
    assert_eq!(list_downloaded_audios(text), vec!["1. First", "2. Second", "3. Third"]);
}

#[test]
fn listing_passes_over_lines_that_are_no_records() {
    let text = "BV1|First|f1.mp3\nbroken line\n\nBV2|Se|cond|f2.mp3\nBV3|Third|f3.mp3\n|\nBV4||f4.mp3";
    assert_eq!(list_downloaded_audios(text), vec!["1. First", "2. Third", "3. "]);
}

#[test]
fn listing_of_nothing_is_empty() {
    assert!(list_downloaded_audios("").is_empty());
    assert!(list_downloaded_audios("\n").is_empty());
    assert!(list_downloaded_audios("a|b\n").is_empty());
}

#[test]
fn listing_reaches_two_digits() {
    let mut text = String::new();
    for i in 0..12 {
        text.push_str(&format!("BV{}|T{}|p{}\n", i, i, i));
    }
    let listing = list_downloaded_audios(&text);
    assert_eq!(listing.len(), 12);
    assert_eq!(listing[8], "9. T8");
    assert_eq!(listing[9], "10. T9");
    assert_eq!(listing[11], "12. T11");
}

#[test]
fn listing_keeps_multibyte_titles() {
    assert_eq!(list_downloaded_audios("BV1xx|音乐|output/BV1xx.mp3\n"), vec!["1. 音乐"]);
}

#[test]
fn play_goes_by_the_numbers_of_the_listing() {
    let text = "BV1|First|f1.mp3\nbroken line\nBV3|Third|f3.mp3\n";
    assert_eq!(play_audio_by_index(text, 0), None);
    assert_eq!(play_audio_by_index(text, 1), Some("f1.mp3".to_string()));
    assert_eq!(play_audio_by_index(text, 2), Some("f3.mp3".to_string()));
    assert_eq!(play_audio_by_index(text, 3), None);
    assert_eq!(play_audio_by_index(text, usize::MAX), None);
    assert_eq!(play_audio_by_index("", 1), None);
}

#[test]
fn play_path_drops_the_carriage_return_of_the_line() {
    assert_eq!(play_audio_by_index("a|b|c\r\n", 1), Some("c".to_string()));
    assert_eq!(play_audio_by_index("a|b|c\r", 1), Some("c\r".to_string()));
}

#[test]
fn written_line_joins_the_fields() {
    assert_eq!(
        save_audio_info("output/BV1xx.mp3", "Hello", "BV1xx"),
        "BV1xx|Hello|output/BV1xx.mp3\n"
    );
    assert_eq!(save_audio_info("", "", ""), "||\n");
    assert_eq!(save_audio_info("p", "a|b\nc", "B"), "B|a|b\nc|p\n");
}

#[test]
fn written_line_has_two_separators_and_a_line_feed() {
    let line = save_audio_info("output/BV1xx.mp3", "音乐 Hello", "BV1xx");
    assert_eq!(line.matches('|').count(), 2);
    assert!(line.ends_with('\n'));
    assert_eq!(line.matches('\n').count(), 1);
}

#[test]
fn appended_line_is_found_and_listed_last() {
    let old = "BV0|Earlier|output/BV0.mp3\n";
    let text = format!("{}{}", old, save_audio_info("output/BV1xx.mp3", "Hello", "BV1xx"));
    assert!(text.starts_with(old));
    assert!(is_already_downloaded(&text, "BV1xx"));
    assert!(is_already_downloaded(&text, "BV0"));
    assert_eq!(
        parse_catalog(&text),
        vec![entry("BV0", "Earlier", "output/BV0.mp3"), entry("BV1xx", "Hello", "output/BV1xx.mp3")]
    );
    assert_eq!(list_downloaded_audios(&text), vec!["1. Earlier", "2. Hello"]);
    assert_eq!(play_audio_by_index(&text, 2), Some("output/BV1xx.mp3".to_string()));
}

#[test]
fn title_with_a_line_feed_breaks_the_record() {
    let text = save_audio_info("output/B.mp3", "two\nlines", "B");
    assert!(!is_already_downloaded(&text, "B"));
    assert!(parse_catalog(&text).is_empty());
}
