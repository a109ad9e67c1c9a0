use soil_extract::extract::extract_json;

#[test]
fn extract_single_fence_returns_interior() {
    let text = "Some prose before.\n```json\n{\"a\": 1}\n```\nSome prose after.";
    assert_eq!(extract_json(text), Some("{\"a\": 1}".to_string()));
}

#[test]
fn extract_trims_surrounding_whitespace() {
    let text = "```json   \n\t {\"a\":1} \r\n  ```";
    assert_eq!(extract_json(text), Some("{\"a\":1}".to_string()));
}

#[test]
fn extract_without_fence_markers_is_none() {
    let text = "The report number is R1 and the date is 2024-01-01.";
    assert_eq!(extract_json(text), None);
}

#[test]
fn extract_plain_fence_without_json_tag_is_none() {
    let text = "```\n{\"a\":1}\n```";
    assert_eq!(extract_json(text), None);
}

#[test]
fn extract_unclosed_fence_is_none() {
    let text = "prose ```json {\"a\":1}";
    assert_eq!(extract_json(text), None);
}

#[test]
fn extract_takes_first_block_of_several() {
    let text = "```json\nfirst\n```\nmiddle\n```json\nsecond\n```";
    assert_eq!(extract_json(text), Some("first".to_string()));
}

#[test]
fn extract_is_non_greedy_up_to_nearest_close() {
    let text = "```json\ninner\n```\ntrailing commentary ```";
    assert_eq!(extract_json(text), Some("inner".to_string()));
}

#[test]
fn extract_empty_interior_is_empty_string() {
    let text = "```json```";
    assert_eq!(extract_json(text), Some(String::new()));
}

#[test]
fn extract_on_empty_text_is_none() {
    assert_eq!(extract_json(""), None);
}

#[test]
fn extract_trims_unicode_whitespace() {
    let text = "```json\u{c}\u{a0} {\"a\":1}\u{b}\u{2028} ```";
    assert_eq!(extract_json(text), Some("{\"a\":1}".to_string()));
}
