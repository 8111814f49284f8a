use syntaxia::command::{configuration_text, set_command_arguments, yaml_source};

#[test]
fn set_command_is_recognised() {
    assert_eq!(set_command_arguments("~set hello world", "~"), Some("hello world".to_string()));
    assert_eq!(set_command_arguments("~set\nserver: x", "~"), Some("server: x".to_string()));
    assert_eq!(set_command_arguments("~set ", "~"), Some(String::new()));
}

#[test]
fn other_messages_are_not_set_commands() {
    assert_eq!(set_command_arguments("set hello", "~"), None);
    assert_eq!(set_command_arguments("~get hello", "~"), None);
    assert_eq!(set_command_arguments("~set", "~"), None);
    assert_eq!(set_command_arguments("~settle x", "~"), None);
    assert_eq!(set_command_arguments("", "~"), None);
}

#[test]
fn fenced_yaml_is_extracted() {
    let msg = "please\n```yaml\nserver:\n  name: X\n```\nthanks";
    assert_eq!(yaml_source(msg), "server:\n  name: X");
}

#[test]
fn text_without_fence_is_taken_whole() {
    assert_eq!(yaml_source("server:\n  name: X"), "server:\n  name: X");
}

#[test]
fn configuration_text_prefers_the_block() {
    assert_eq!(configuration_text(Some("a: 1".to_string()), "whole"), "a: 1");
    assert_eq!(configuration_text(None, "whole"), "whole");
}
