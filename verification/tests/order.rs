use runit::order::{get_directories, key, sort, starts_with_digit};

fn names(list: &[&str]) -> Vec<String> {
    list.iter().map(|name| name.to_string()).collect()
}

#[test]
fn batch_ordering() {
    let mut entries = names(&["10_x", "2_y", "1_z", "readme.md"]);
    let ignored = sort(&mut entries);
    assert_eq!(entries, names(&["1_z", "2_y", "10_x"]));
    assert_eq!(ignored, names(&["readme.md"]));
}

#[test]
fn keys_are_the_numbers_the_leading_digits_spell() {
    assert_eq!(key("1_z"), 1);
    assert_eq!(key("10_x"), 10);
    assert_eq!(key("2"), 2);
    assert_eq!(key("0"), 0);
    assert_eq!(key("007_bond"), 7);
    assert_eq!(key("000"), 0);
    assert_eq!(key("12ab34"), 12);
    assert_eq!(key("3.5"), 3);
    assert_eq!(key("42 "), 42);
}

#[test]
fn keys_too_large_are_the_largest_key() {
    assert_eq!(key("4294967294_a"), 4294967294);
    assert_eq!(key("4294967295_a"), u32::MAX);
    assert_eq!(key("4294967296_a"), u32::MAX);
    assert_eq!(key("99999999999999999999999999999999999999999999"), u32::MAX);
    assert_eq!(key("00000000000000000000004294967296"), u32::MAX);
    assert_eq!(key("00000000000000000000000000000012"), 12);
}

#[test]
fn names_without_leading_digits_have_the_largest_key() {
    assert_eq!(key(""), u32::MAX);
    assert_eq!(key("readme.md"), u32::MAX);
    assert_eq!(key("_1"), u32::MAX);
    assert_eq!(key("-1"), u32::MAX);
    assert_eq!(key("+1"), u32::MAX);
}

#[test]
fn only_ascii_digits_count() {
    // ARABIC-INDIC DIGIT TWO and FULLWIDTH DIGIT ONE are digits, but not ASCII.
    assert_eq!(key("1\u{662}_x"), 1);
    assert_eq!(key("\u{ff11}_x"), u32::MAX);
    assert!(!starts_with_digit("\u{ff11}_x"));
    assert!(!starts_with_digit("\u{662}"));
    assert!(starts_with_digit("5\u{e9}"));
}

#[test]
fn entries_start_with_a_digit() {
    assert!(starts_with_digit("1_setup"));
    assert!(starts_with_digit("0"));
    assert!(starts_with_digit("9z"));
    assert!(!starts_with_digit(""));
    assert!(!starts_with_digit("README.md"));
    assert!(!starts_with_digit(" 1"));
    assert!(!starts_with_digit("a1"));
    assert!(!starts_with_digit("/1"));
    assert!(!starts_with_digit(":1"));
}

#[test]
fn equal_keys_keep_the_order_found() {
    let mut entries = names(&["2_b", "1_a", "2_a", "02_c", "1_b", "002"]);
    let ignored = sort(&mut entries);
    assert_eq!(entries, names(&["1_a", "1_b", "2_b", "2_a", "02_c", "002"]));
    assert!(ignored.is_empty());
}

#[test]
fn names_left_out_keep_the_order_found() {
    let mut entries = names(&["zeta", "3", "", "alpha", "1", "Makefile"]);
    let ignored = sort(&mut entries);
    assert_eq!(entries, names(&["1", "3"]));
    assert_eq!(ignored, names(&["zeta", "", "alpha", "Makefile"]));
}

#[test]
fn overflowing_names_sort_last() {
    let mut entries = names(&["99999999999_big", "5_small", "4294967295_max", "7"]);
    sort(&mut entries);
    assert_eq!(entries, names(&["5_small", "7", "99999999999_big", "4294967295_max"]));
}

#[test]
fn sorting_nothing_gives_nothing() {
    let mut entries: Vec<String> = Vec::new();
    let ignored = sort(&mut entries);
    assert!(entries.is_empty());
    assert!(ignored.is_empty());
}

#[test]
fn sorted_input_is_left_as_it_is() {
    let mut entries = names(&["1", "2", "3", "10", "20"]);
    sort(&mut entries);
    assert_eq!(entries, names(&["1", "2", "3", "10", "20"]));
    let mut reversed = names(&["20", "10", "3", "2", "1"]);
    sort(&mut reversed);
    assert_eq!(reversed, names(&["1", "2", "3", "10", "20"]));
}

#[test]
fn sort_agrees_with_a_stable_sort_by_key() {
    let found = names(&[
        "31_a", "4_b", "15_c", "9_d", "26_e", "5_f", "3_g", "5_h", "8_i", "9_j", "7_k", "9_l",
        "x", "3_m", "2_n", "38_o", "4_p", "6_q", "y2", "2_r", "6_s", "4_t", "3_u", "3_v",
    ]);
    let mut expected: Vec<String> =
        found.iter().filter(|name| starts_with_digit(name)).cloned().collect();
    expected.sort_by_key(|name| key(name));
    let mut entries = found;
    sort(&mut entries);
    assert_eq!(entries, expected);
}

#[test]
fn the_directory_itself_is_dropped_from_its_listing() {
    let (order, ignored) = get_directories(names(&[".runs", "2_build", "1_setup", "README.md"]));
    assert_eq!(order, names(&["1_setup", "2_build"]));
    assert_eq!(ignored, names(&["README.md"]));
}

#[test]
fn a_directory_named_like_an_entry_is_dropped_all_the_same() {
    let (order, ignored) = get_directories(names(&["0_runs", "3_test", "1_setup"]));
    assert_eq!(order, names(&["1_setup", "3_test"]));
    assert!(ignored.is_empty());
}

#[test]
fn an_empty_listing_has_no_entries() {
    let (order, ignored) = get_directories(Vec::new());
    assert!(order.is_empty());
    assert!(ignored.is_empty());
    let (order, ignored) = get_directories(names(&["only_the_directory"]));
    assert!(order.is_empty());
    assert!(ignored.is_empty());
}
