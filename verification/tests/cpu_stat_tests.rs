use cgroups_exporter::cpu_stat::parse_v2_stat;

#[test]
fn all_nine_counters_parse() {
    let stat = "usage_usec 100\nuser_usec 60\nsystem_usec 40\nnice_usec 5\nnr_periods 7\nnr_throttled 2\nthrottled_usec 900\nnr_bursts 1\nburst_usec 30\n";
    let parsed = parse_v2_stat(stat);
    assert_eq!(parsed.usage_usec, Some(100));
    assert_eq!(parsed.user_usec, Some(60));
    assert_eq!(parsed.system_usec, Some(40));
    assert_eq!(parsed.nice_usec, Some(5));
    assert_eq!(parsed.nr_periods, Some(7));
    assert_eq!(parsed.nr_throttled, Some(2));
    assert_eq!(parsed.throttled_usec, Some(900));
    assert_eq!(parsed.nr_bursts, Some(1));
    assert_eq!(parsed.burst_usec, Some(30));
}

#[test]
fn empty_blob_leaves_every_counter_absent() {
    let parsed = parse_v2_stat("");
    assert_eq!(parsed.usage_usec, None);
    assert_eq!(parsed.user_usec, None);
    assert_eq!(parsed.system_usec, None);
    assert_eq!(parsed.nice_usec, None);
    assert_eq!(parsed.nr_periods, None);
    assert_eq!(parsed.nr_throttled, None);
    assert_eq!(parsed.throttled_usec, None);
    assert_eq!(parsed.nr_bursts, None);
    assert_eq!(parsed.burst_usec, None);
}

#[test]
fn unknown_keys_are_skipped() {
    let parsed = parse_v2_stat("some_future_counter 9\nusage_usec 3\n");
    assert_eq!(parsed.usage_usec, Some(3));
    assert_eq!(parsed.user_usec, None);
}

#[test]
fn unparsable_value_is_skipped_and_earlier_value_kept() {
    let parsed = parse_v2_stat("usage_usec 5\nusage_usec five\n");
    assert_eq!(parsed.usage_usec, Some(5));
}

#[test]
fn later_well_formed_line_wins() {
    let parsed = parse_v2_stat("usage_usec 5\nusage_usec 7\n");
    assert_eq!(parsed.usage_usec, Some(7));
}

#[test]
fn value_too_large_for_u64_is_skipped() {
    let parsed = parse_v2_stat("usage_usec 99999999999999999999999\n");
    assert_eq!(parsed.usage_usec, None);
}

#[test]
fn plus_sign_and_extra_whitespace_are_accepted() {
    let parsed = parse_v2_stat("  usage_usec \t +42  trailing\r\nuser_usec 1");
    assert_eq!(parsed.usage_usec, Some(42));
    assert_eq!(parsed.user_usec, Some(1));
}

#[test]
fn line_with_a_key_but_no_value_is_skipped() {
    let parsed = parse_v2_stat("usage_usec\nuser_usec 2");
    assert_eq!(parsed.usage_usec, None);
    assert_eq!(parsed.user_usec, Some(2));
}
