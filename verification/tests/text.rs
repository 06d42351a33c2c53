use cli_api_caller::text::{append_decimal, append_signed_decimal, chars_of, replace_all};

fn decimal(n: u64) -> String {
    let mut out = String::new();
    append_decimal(&mut out, n);
    out
}

fn signed(n: i64) -> String {
    let mut out = String::new();
    append_signed_decimal(&mut out, n);
    out
}

#[test]
fn decimal_of_zero_is_one_digit() {
    assert_eq!(decimal(0), "0");
}

#[test]
fn decimal_of_single_digits() {
    assert_eq!(decimal(1), "1");
    assert_eq!(decimal(7), "7");
    assert_eq!(decimal(9), "9");
}

#[test]
fn decimal_puts_the_most_significant_digit_first() {
    assert_eq!(decimal(10), "10");
    assert_eq!(decimal(12345), "12345");
    assert_eq!(decimal(9007), "9007");
}

#[test]
fn decimal_of_the_largest_number() {
    assert_eq!(decimal(u64::MAX), "18446744073709551615");
}

#[test]
fn decimal_agrees_with_the_standard_notation() {
    let mut n: u64 = 0;
    while n < 3000 {
        assert_eq!(decimal(n), n.to_string());
        n += 1;
    }
    let mut n: u64 = 1;
    while n < u64::MAX / 7 {
        assert_eq!(decimal(n), n.to_string());
        n = n * 7 + 3;
    }
}

#[test]
fn decimal_appends_to_what_is_there() {
    let mut out = String::from("n = ");
    append_decimal(&mut out, 42);
    assert_eq!(out, "n = 42");
}

#[test]
fn signed_decimal_of_negative_numbers() {
    assert_eq!(signed(-1), "-1");
    assert_eq!(signed(-128), "-128");
    assert_eq!(signed(-9000), "-9000");
}

#[test]
fn signed_decimal_of_zero_and_positive_numbers() {
    assert_eq!(signed(0), "0");
    assert_eq!(signed(127), "127");
}

#[test]
fn signed_decimal_of_the_extremes() {
    assert_eq!(signed(i64::MIN), "-9223372036854775808");
    assert_eq!(signed(i64::MAX), "9223372036854775807");
}

#[test]
fn signed_decimal_agrees_for_every_status() {
    let mut n: i64 = -128;
    while n <= 127 {
        assert_eq!(signed(n), (n as i8).to_string());
        n += 1;
    }
}

#[test]
fn chars_of_keeps_every_character() {
    assert_eq!(chars_of("a/é/😀"), vec!['a', '/', 'é', '/', '😀']);
    assert_eq!(chars_of(""), Vec::<char>::new());
}

#[test]
fn replace_all_fills_one_placeholder() {
    assert_eq!(replace_all("https://host/items/{id}/status", "{id}", "42"), "https://host/items/42/status");
}

#[test]
fn replace_all_fills_every_placeholder() {
    assert_eq!(replace_all("{id}/x/{id}", "{id}", "7"), "7/x/7");
    assert_eq!(replace_all("{id}{id}", "{id}", "ab"), "abab");
}

#[test]
fn replace_all_without_a_match_copies() {
    assert_eq!(replace_all("https://host/items", "{id}", "42"), "https://host/items");
    assert_eq!(replace_all("{id", "{id}", "42"), "{id");
    assert_eq!(replace_all("", "{id}", "42"), "");
}

#[test]
fn replace_all_takes_matches_from_the_left() {
    assert_eq!(replace_all("aaa", "aa", "b"), "ba");
    assert_eq!(replace_all("{id{id}}", "{id}", "1"), "{id1}");
}

#[test]
fn replace_all_does_not_rescan_what_it_put_in() {
    assert_eq!(replace_all("x{id}", "{id}", "{id}{id}"), "x{id}{id}");
}

#[test]
fn replace_all_with_an_empty_pattern_copies() {
    assert_eq!(replace_all("abc", "", "-"), "abc");
}

#[test]
fn replace_all_can_delete() {
    assert_eq!(replace_all("a{id}b", "{id}", ""), "ab");
}

#[test]
fn replace_all_counts_characters_not_bytes() {
    assert_eq!(replace_all("é{id}ü{id}", "{id}", "ß"), "éßüß");
    assert_eq!(replace_all("日本語", "本", "-"), "日-語");
}

#[test]
fn replace_all_agrees_with_the_standard_replace() {
    let texts = ["", "{id}", "a{id}", "{id}a", "{{id}}", "{id}{id}{id}", "{i{id}d}", "id", "}{id}{"];
    let values = ["", "1", "{id}", "long-value"];
    for text in texts {
        for value in values {
            assert_eq!(replace_all(text, "{id}", value), text.replace("{id}", value));
        }
    }
}
