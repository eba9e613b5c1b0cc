use zfskit::arc::{parse_arcstats, split_whitespace, ArcStats, ArcStatsError};

#[test]
fn empty_input_errors() {
    let err = parse_arcstats("").unwrap_err();
    assert!(matches!(err, ArcStatsError::Header { got: 0 }));
}

#[test]
fn one_line_input_errors() {
    let err = parse_arcstats("23 1 0x01 ...\n").unwrap_err();
    assert!(matches!(err, ArcStatsError::Header { got: 1 }));
}

#[test]
fn unparseable_rows_are_skipped_not_fatal() {
    let input =
        "header\nname type data\nhits 4 12345\nweird_string_stat 7 abcdef\nmisses 4 678\n";
    let s = parse_arcstats(input).unwrap();
    assert_eq!(s.hits, 12345);
    assert_eq!(s.misses, 678);
    assert!(!s.raw.contains_key("weird_string_stat"));
}

#[test]
fn raw_holds_every_parsed_row() {
    let input = "23 1 0x01 147 39984\nname                            type data\n\
                 hits                            4    241139387\n\
                 deleted                         4    100\n\
                 c_max                           4    8000\n\
                 c                               4    4000\n\
                 short\n\
                 hits                            4    5\n";
    let s = parse_arcstats(input).unwrap();
    assert!(s.raw.contains_key("deleted"));
    assert_eq!(s.raw.get("deleted"), Some(&100));
    // A later row for the same name wins, as in the raw map.
    assert_eq!(s.hits, 5);
    assert_eq!(s.raw.get("hits"), Some(&5));
    assert!(s.c_max >= s.c);
    assert_eq!(s.size, 0);
    assert_eq!(s.raw.len(), 4);
}

#[test]
fn split_whitespace_words() {
    assert_eq!(split_whitespace("  a\tbb  c \n"), vec!["a", "bb", "c"]);
    assert!(split_whitespace("   ").is_empty());
}

fn kernel_text() -> String {
    let rows = [
        ("hits", 241_139_387u64),
        ("misses", 4_168_210),
        ("demand_data_hits", 67_407_277),
        ("demand_data_misses", 1_030_612),
        ("mru_hits", 36_691_253),
        ("mfu_hits", 204_448_134),
        ("deleted", 3_145_728),
        ("evict_skip", 1_204),
        ("size", 4_294_967_296),
        ("c", 6_442_450_944),
        ("c_min", 1_073_741_824),
        ("c_max", 8_589_934_592),
    ];
    let mut text = String::from("13 1 0x01 147 39984 2398412360 8795412459383\nname                            type data\n");
    for (name, value) in rows {
        text.push_str(&format!("{name:<32}4    {value}\n"));
    }
    text
}

#[test]
fn parses_typed_fields_from_real_kernel_output() {
    let s = parse_arcstats(&kernel_text()).unwrap();
    assert_eq!(s.hits, 241_139_387);
    assert_eq!(s.misses, 4_168_210);
    assert_eq!(s.demand_data_hits, 67_407_277);
    assert_eq!(s.mru_hits, 36_691_253);
    assert!(s.c_max >= s.c);
    assert!(s.size > 0);
}

#[test]
fn raw_map_captures_fields_not_in_struct() {
    let s = parse_arcstats(&kernel_text()).unwrap();
    assert!(s.raw.contains_key("deleted"));
    assert!(s.raw.contains_key("evict_skip"));
}

#[test]
fn value_is_the_last_column() {
    let s = parse_arcstats("hdr\nname type data\nhits 4 7 9\n").unwrap();
    assert_eq!(s.hits, 9);
    assert_eq!(s.raw.get("hits"), Some(&9));
}

#[test]
fn rows_with_two_words_are_skipped() {
    let s = parse_arcstats("hdr\nname type data\nhits 4\nmisses 4 3\n").unwrap();
    assert_eq!(s.hits, 0);
    assert_eq!(s.misses, 3);
    assert!(!s.raw.contains_key("hits"));
}

#[test]
fn default_stats_are_zero() {
    let s = ArcStats::default();
    assert_eq!(s.hits, 0);
    assert_eq!(s.size, 0);
    assert_eq!(s.raw.len(), 0);
}

#[test]
fn cloned_stats_keep_raw_pairs() {
    let s = parse_arcstats("hdr\nname type data\nhits 4 12\nzeta 4 1\n").unwrap();
    let t = s.clone();
    assert_eq!(t.hits, 12);
    assert_eq!(t.raw.get("zeta"), Some(&1));
    assert_eq!(t.raw.len(), 2);
}
