use syntaxia::command::check_whitespace;
use syntaxia::diff::{category_create, category_edit, channel_create, channel_edit, guild_edit, ChannelEdit};
use syntaxia::error::Error;
use syntaxia::observed::{find_category, find_channel, ObservedGuild, ObservedResource, ResourceKind};
use syntaxia::settings::{CategoryConfig, ChannelConfig, ServerConfig};

fn res(id: u64, kind: ResourceKind, name: &str, parent_id: Option<u64>) -> ObservedResource {
    ObservedResource { id, kind, name: name.to_string(), parent_id }
}

fn sample() -> Vec<ObservedResource> {
    vec![
        res(1, ResourceKind::Text, "A", None),
        res(2, ResourceKind::Category, "a", None),
        res(3, ResourceKind::Category, "A", None),
        res(4, ResourceKind::Category, "A", None),
        res(5, ResourceKind::Text, "chat", Some(4)),
        res(6, ResourceKind::Other, "chat", Some(3)),
        res(7, ResourceKind::Text, "chat", Some(3)),
    ]
}

#[test]
fn category_lookup_is_exact_and_takes_the_first() {
    let rs = sample();
    assert_eq!(find_category(&"A".to_string(), &rs), Some(3));
    assert_eq!(find_category(&"a".to_string(), &rs), Some(2));
    assert_eq!(find_category(&"B".to_string(), &rs), None);
    assert_eq!(find_category(&"A".to_string(), &vec![]), None);
}

#[test]
fn channel_lookup_is_scoped_to_its_category() {
    let rs = sample();
    assert_eq!(find_channel(&"chat".to_string(), 3, &rs), Some(7));
    assert_eq!(find_channel(&"chat".to_string(), 4, &rs), Some(5));
    assert_eq!(find_channel(&"chat".to_string(), 2, &rs), None);
    assert_eq!(find_channel(&"Chat".to_string(), 3, &rs), None);
}

fn channel(name: &str) -> ChannelConfig {
    ChannelConfig { name: name.to_string(), topic: None, nsfw: None, position: None, parent_category: None }
}

#[test]
fn category_update_due_only_with_attributes() {
    let mut c = CategoryConfig { channels: vec![], description: None, nsfw: None };
    assert_eq!(category_edit(&c), None);
    c.description = Some("d".to_string());
    assert_eq!(
        category_edit(&c),
        Some(ChannelEdit { name: None, topic: Some("d".to_string()), nsfw: None, position: None })
    );
    c.description = None;
    c.nsfw = Some(false);
    assert_eq!(category_edit(&c), Some(ChannelEdit { name: None, topic: None, nsfw: Some(false), position: None }));
}

#[test]
fn category_create_carries_key_and_attributes() {
    let c = CategoryConfig { channels: vec![], description: Some("d".to_string()), nsfw: Some(true) };
    let r = category_create(&"Games".to_string(), &c);
    assert_eq!(r.kind, ResourceKind::Category);
    assert_eq!(r.name, "Games");
    assert_eq!(r.parent, None);
    assert_eq!(r.topic, Some("d".to_string()));
    assert_eq!(r.nsfw, Some(true));
}

#[test]
fn channel_update_always_sends_the_name() {
    let e = channel_edit(&channel("chat"));
    assert_eq!(e, ChannelEdit { name: Some("chat".to_string()), topic: None, nsfw: None, position: None });
    let mut c = channel("chat");
    c.position = Some(70000);
    c.nsfw = Some(true);
    c.parent_category = Some("Elsewhere".to_string());
    let e = channel_edit(&c);
    assert_eq!(e.position, Some(4464));
    assert_eq!(e.nsfw, Some(true));
}

#[test]
fn channel_create_is_parented() {
    let mut c = channel("chat");
    c.position = Some(2);
    let r = channel_create(&c, 9);
    assert_eq!(r.kind, ResourceKind::Text);
    assert_eq!(r.name, "chat");
    assert_eq!(r.parent, Some(9));
    assert_eq!(r.position, Some(2));
}

#[test]
fn guild_update_trigger() {
    let mut cfg = ServerConfig { name: "New".to_string(), categories: vec![], description: None, icon_url: None };
    let g = ObservedGuild { name: "Old".to_string(), icon_url: None, resources: vec![] };
    assert_eq!(guild_edit(&g, &cfg).map(|e| e.name), Some("New".to_string()));
    cfg.name = "Old".to_string();
    assert_eq!(guild_edit(&g, &cfg), None);
    cfg.icon_url = Some("i".to_string());
    assert_eq!(guild_edit(&g, &cfg).map(|e| e.name), Some("Old".to_string()));
}

#[test]
fn whitespace_check() {
    assert!(check_whitespace(' '));
    assert!(check_whitespace('\n'));
    assert!(check_whitespace('\t'));
    assert!(check_whitespace('\u{3000}'));
    assert!(!check_whitespace('a'));
    assert!(!check_whitespace('~'));
    assert!(check_whitespace('\u{85}'));
    assert!(check_whitespace('\u{200a}'));
    assert!(!check_whitespace('\u{200b}'));
    assert!(!check_whitespace('\u{180e}'));
}

#[test]
fn error_messages() {
    assert_eq!(Error::GuildNotFound.message(), "PartialGuild not found");
    assert_eq!(Error::CreationFailed("A".to_string()).message(), "Failed to create category or channel: A");
}
