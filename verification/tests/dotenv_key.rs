use athenas_pallas::dotenv::alpha_vantage_key_in;

fn key(text: &str) -> Option<String> {
    alpha_vantage_key_in(text)
}

#[test]
fn dotenv_plain_assignment() {
    assert_eq!(key("ALPHA_VANTAGE_API_KEY=abc"), Some("abc".to_string()));
    assert_eq!(key("ALPHA_VANTAGE_API_KEY=a=b\n"), Some("a=b".to_string()));
}

#[test]
fn dotenv_skips_comments_blank_lines_and_other_keys() {
    let text = "# comment\n\nOTHER=1\n  ALPHA_VANTAGE_API_KEY = \"xyz\"  \nALPHA_VANTAGE_API_KEY=later\n";
    assert_eq!(key(text), Some("xyz".to_string()));
    assert_eq!(key("#ALPHA_VANTAGE_API_KEY=x\nALPHA_VANTAGE_API_KEY\n"), None);
    assert_eq!(key(""), None);
    assert_eq!(key("\n\n"), None);
}

#[test]
fn dotenv_empty_value_keeps_looking() {
    assert_eq!(key("ALPHA_VANTAGE_API_KEY=''\nALPHA_VANTAGE_API_KEY='k2'"), Some("k2".to_string()));
    assert_eq!(key("ALPHA_VANTAGE_API_KEY=\"\"\n"), None);
}

#[test]
fn dotenv_strips_double_then_single_quotes_and_crlf() {
    assert_eq!(key("ALPHA_VANTAGE_API_KEY=\"'q'\"\r\n"), Some("q".to_string()));
    assert_eq!(key("ALPHA_VANTAGE_API_KEY='\"q\"'"), Some("\"q\"".to_string()));
    assert_eq!(key("ALPHA_VANTAGE_API_KEY=v\r\n"), Some("v".to_string()));
}
