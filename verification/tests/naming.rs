use auto_import::naming::{get_filename_by_path, push_stem_char, to_pascal_case};

#[test]
fn hyphenated_stem_becomes_pascal_case() {
    assert_eq!(to_pascal_case("my-utils"), "MyUtils");
}

#[test]
fn underscored_stem_becomes_pascal_case() {
    assert_eq!(to_pascal_case("scan_exports"), "ScanExports");
}

#[test]
fn mixed_separators_are_both_split_on() {
    assert_eq!(to_pascal_case("use-local_storage"), "UseLocalStorage");
}

#[test]
fn single_word_stem_is_unchanged() {
    assert_eq!(to_pascal_case("utils"), "utils");
    assert_eq!(to_pascal_case("Utils"), "Utils");
    assert_eq!(to_pascal_case("camelCase"), "camelCase");
}

#[test]
fn empty_stem_is_unchanged() {
    assert_eq!(to_pascal_case(""), "");
}

#[test]
fn empty_words_are_dropped() {
    assert_eq!(to_pascal_case("__foo--bar_"), "FooBar");
    assert_eq!(to_pascal_case("a--b"), "AB");
}

#[test]
fn separators_alone_give_nothing() {
    assert_eq!(to_pascal_case("-"), "");
    assert_eq!(to_pascal_case("_-_"), "");
}

#[test]
fn only_the_first_character_of_a_word_changes() {
    assert_eq!(to_pascal_case("my-uTILS"), "MyUTILS");
    assert_eq!(to_pascal_case("already-Upper"), "AlreadyUpper");
}

#[test]
fn characters_without_upper_case_stay() {
    assert_eq!(to_pascal_case("1-a"), "1A");
    assert_eq!(to_pascal_case("v2_0"), "V20");
}

#[test]
fn uppercase_mapping_may_be_longer_than_one_character() {
    assert_eq!(to_pascal_case("\u{df}a-b"), "SSaB");
}

#[test]
fn non_ascii_words_are_capitalized() {
    assert_eq!(to_pascal_case("\u{e9}t\u{e9}-\u{f1}u"), "\u{c9}t\u{e9}\u{d1}u");
}

#[test]
fn normalizing_a_single_word_twice_changes_nothing() {
    let once = to_pascal_case("utils");
    let twice = to_pascal_case(&once);
    assert_eq!(once, "utils");
    assert_eq!(twice, once);
}

#[test]
fn normalizing_a_normalized_stem_changes_nothing() {
    let once = to_pascal_case("my-utils");
    assert_eq!(once, "MyUtils");
    assert_eq!(to_pascal_case(&once), "MyUtils");
}

#[test]
fn label_comes_from_the_file_stem() {
    assert_eq!(get_filename_by_path("src/my-utils.ts"), Some("MyUtils".to_string()));
    assert_eq!(get_filename_by_path("utils.ts"), Some("utils".to_string()));
    assert_eq!(get_filename_by_path("a/b/date_time-format.d.ts"), Some("DateTimeFormat.d".to_string()));
}

#[test]
fn label_of_a_path_without_extension() {
    assert_eq!(get_filename_by_path("lib/string-helpers"), Some("StringHelpers".to_string()));
}

#[test]
fn path_without_file_name_has_no_label() {
    assert_eq!(get_filename_by_path(""), None);
    assert_eq!(get_filename_by_path(".."), None);
    assert_eq!(get_filename_by_path("/"), None);
}

#[test]
fn label_ignores_directories_and_extension() {
    assert_eq!(get_filename_by_path("a-b/c_d/plain.ts"), Some("plain".to_string()));
    assert_eq!(get_filename_by_path("src/.env-local"), Some(".envLocal".to_string()));
    assert_eq!(get_filename_by_path("dir-name/"), Some("DirName".to_string()));
}

#[test]
fn separator_adds_nothing_and_opens_a_word() {
    let mut out = "My".to_string();
    assert!(push_stem_char(&mut out, false, '-', "ignored"));
    assert_eq!(out, "My");
    assert!(push_stem_char(&mut out, true, '_', "ignored"));
    assert_eq!(out, "My");
}

#[test]
fn first_character_of_a_word_adds_the_given_upper_case() {
    let mut out = "My".to_string();
    assert!(!push_stem_char(&mut out, true, 'u', "U"));
    assert_eq!(out, "MyU");
    assert!(!push_stem_char(&mut out, true, '\u{df}', "SS"));
    assert_eq!(out, "MyUSS");
}

#[test]
fn later_character_of_a_word_adds_itself() {
    let mut out = "MyU".to_string();
    assert!(!push_stem_char(&mut out, false, 't', "T"));
    assert_eq!(out, "MyUt");
}

#[test]
fn stem_taken_character_by_character() {
    let mut out = String::new();
    let mut at_word_start = true;
    for (c, upper) in [('m', "M"), ('y', "Y"), ('-', "-"), ('u', "U")] {
        at_word_start = push_stem_char(&mut out, at_word_start, c, upper);
    }
    assert_eq!(out, "MyU");
    assert!(!at_word_start);
}
