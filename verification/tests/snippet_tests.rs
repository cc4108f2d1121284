use pipr::command_template::CommandTemplate;
use pipr::snippets::Snippet;

#[test]
fn test_parsing() {
    let parsed = Snippet::parse("ab||c");
    let expected = Snippet::new("abc".into(), 2);
    assert_eq!(parsed.text, expected.text);
    assert_eq!(parsed.cursor_offset, expected.cursor_offset);

    let parsed = Snippet::parse("abc");
    let expected = Snippet::new("abc".into(), 3);
    assert_eq!(parsed.text, expected.text);
    assert_eq!(parsed.cursor_offset, expected.cursor_offset);
}

#[test]
fn test_without_pipe() {
    let snippet = Snippet::new(" | abc".into(), 0);
    assert_eq!(snippet.without_pipe(), "abc");
    let snippet = Snippet::new("abc".into(), 0);
    assert_eq!(snippet.without_pipe(), "abc");
}

#[test]
fn test_display_string_trims() {
    let snippet = Snippet::new("  sed -e x  ".into(), 0);
    assert_eq!(snippet.display_string(), "sed -e x");
}

#[test]
fn test_template_resolve() {
    let template = CommandTemplate::from_string("man ?? | head; echo ??".to_string()).unwrap();
    assert_eq!(template.resolve(&"grep".to_string()), "man grep | head; echo grep");
}

#[test]
fn test_template_rejects_empty() {
    assert!(CommandTemplate::from_string(String::new()).is_err());
}

#[test]
fn test_template_resolve_to_command() {
    let template = CommandTemplate::from_string("man ??".to_string()).unwrap();
    let argv = template.resolve_to_command(&"ls".to_string());
    assert_eq!(argv, vec!["bash", "-c", "man ls"]);
}
