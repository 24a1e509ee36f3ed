use stock_watch::config::{
    flag_word, parse_flag, parse_interval, parse_priority, same_text, split_list,
};
use stock_watch::notice::{message, title};
use stock_watch::tracker::Transition;

fn change(sku: i64, name: &str, now: bool) -> Transition {
    Transition { sku, name: name.to_string(), was: !now, now }
}

#[test]
fn available_message_and_title() {
    let t = change(6453921, "Graphics Card", true);
    assert_eq!(title(&t), "Product Available");
    assert_eq!(message(&t), "Sku: 6453921 aka \"Graphics Card\" is available");
}

#[test]
fn unavailable_message_and_title() {
    let t = change(42, "Console", false);
    assert_eq!(title(&t), "Product Unavailable");
    assert_eq!(message(&t), "Sku: 42 aka \"Console\" is no longer available");
}

#[test]
fn negative_and_zero_numbers_in_message() {
    assert_eq!(message(&change(-17, "X", true)), "Sku: -17 aka \"X\" is available");
    assert_eq!(message(&change(0, "", false)), "Sku: 0 aka \"\" is no longer available");
}

#[test]
fn flags_in_any_case() {
    for w in ["true", "TRUE", "1", "yes", "Yes", "on", "ON"] {
        assert!(parse_flag(w), "{}", w);
    }
    for w in ["", "false", "0", "no", "off", " true", "y", "onn"] {
        assert!(!parse_flag(w), "{}", w);
    }
}

#[test]
fn flag_word_needs_lower_case() {
    assert!(flag_word("yes"));
    assert!(!flag_word("YES"));
}

#[test]
fn same_text_compares_characters() {
    assert!(same_text("abc", "abc"));
    assert!(same_text("", ""));
    assert!(!same_text("abc", "abd"));
    assert!(!same_text("ab", "abc"));
}

#[test]
fn interval_parsing_and_defaults() {
    assert_eq!(parse_interval("60"), 60);
    assert_eq!(parse_interval("+45"), 45);
    assert_eq!(parse_interval(""), 300);
    assert_eq!(parse_interval("abc"), 300);
    assert_eq!(parse_interval("0"), 300);
    assert_eq!(parse_interval("-5"), 300);
    assert_eq!(parse_interval(" 60"), 300);
    assert_eq!(parse_interval("18446744073709551615"), u64::MAX);
    assert_eq!(parse_interval("18446744073709551616"), 300);
}

#[test]
fn priority_parsing_and_defaults() {
    assert_eq!(parse_priority("8"), 8);
    assert_eq!(parse_priority("0"), 0);
    assert_eq!(parse_priority(""), 0);
    assert_eq!(parse_priority("high"), 0);
    assert_eq!(parse_priority("4294967295"), u32::MAX);
    assert_eq!(parse_priority("4294967296"), 0);
}

#[test]
fn list_is_split_on_commas_and_trimmed() {
    assert_eq!(split_list("6453921, 6439402 ,123"), vec!["6453921", "6439402", "123"]);
    assert_eq!(split_list("  42  "), vec!["42"]);
    assert_eq!(split_list(""), vec![""]);
    assert_eq!(split_list("a,,b,"), vec!["a", "", "b", ""]);
}
