use syntaxia::diff::{ChannelCreate, ChannelEdit, GuildEdit};
use syntaxia::error::Error;
use syntaxia::observed::{ObservedGuild, ObservedResource, ResourceKind};
use syntaxia::reconcile::{Action, Outcome, Reconciler};
use syntaxia::settings::{CategoryConfig, ChannelConfig, ServerConfig};

/// A platform held in memory: it applies each action and answers.
struct Platform {
    guild_name: String,
    resources: Vec<ObservedResource>,
    next_id: u64,
    creates: Vec<ChannelCreate>,
    edits: Vec<(u64, ChannelEdit)>,
    guild_edits: Vec<GuildEdit>,
    fail_create_at: Option<usize>,
}

impl Platform {
    fn new(resources: Vec<ObservedResource>) -> Platform {
        Platform {
            guild_name: "Guild".to_string(),
            resources,
            next_id: 1000,
            creates: Vec::new(),
            edits: Vec::new(),
            guild_edits: Vec::new(),
            fail_create_at: None,
        }
    }

    fn snapshot(&self, icon_url: Option<String>) -> ObservedGuild {
        ObservedGuild { name: self.guild_name.clone(), icon_url, resources: self.resources.clone() }
    }

    fn apply(&mut self, action: Action) -> Result<Outcome, Result<(), Error>> {
        match action {
            Action::EditGuild(e) => {
                self.guild_name = e.name.clone();
                self.guild_edits.push(e);
                Ok(Outcome::Applied)
            }
            Action::Create(c) => {
                if self.fail_create_at == Some(self.creates.len()) {
                    self.creates.push(c);
                    return Ok(Outcome::Failed(Error::SerenityError("rate limited".to_string())));
                }
                let id = self.next_id;
                self.next_id += 1;
                self.resources.push(ObservedResource { id, kind: c.kind, name: c.name.clone(), parent_id: c.parent });
                self.creates.push(c);
                Ok(Outcome::Created(id))
            }
            Action::Edit(id, e) => {
                if let Some(r) = self.resources.iter_mut().find(|r| r.id == id) {
                    if let Some(n) = &e.name {
                        r.name = n.clone();
                    }
                }
                self.edits.push((id, e));
                Ok(Outcome::Applied)
            }
            Action::Complete => Err(Ok(())),
            Action::Abort(e) => Err(Err(e)),
            Action::Halted => panic!("a stopped pass was stepped"),
        }
    }
}

fn reconcile(config: &ServerConfig, platform: &mut Platform, icon_url: Option<String>) -> Result<(), Error> {
    let mut r = Reconciler::new(config.clone(), platform.snapshot(icon_url));
    let mut ev = Outcome::Applied;
    loop {
        let action = r.step(ev);
        match platform.apply(action) {
            Ok(next) => ev = next,
            Err(end) => return end,
        }
    }
}

fn channel(name: &str) -> ChannelConfig {
    ChannelConfig { name: name.to_string(), topic: None, nsfw: None, position: None, parent_category: None }
}

fn category(channels: Vec<ChannelConfig>) -> CategoryConfig {
    CategoryConfig {
        channels: channels.into_iter().map(|c| (c.name.clone(), c)).collect(),
        description: None,
        nsfw: None,
    }
}

fn server(categories: Vec<(&str, CategoryConfig)>) -> ServerConfig {
    ServerConfig {
        name: "Guild".to_string(),
        categories: categories.into_iter().map(|(k, c)| (k.to_string(), c)).collect(),
        description: None,
        icon_url: None,
    }
}

fn res(id: u64, kind: ResourceKind, name: &str, parent_id: Option<u64>) -> ObservedResource {
    ObservedResource { id, kind, name: name.to_string(), parent_id }
}

#[test]
fn convergence_on_empty_guild() {
    let cfg = server(vec![("A", category(vec![channel("x")])), ("B", category(vec![]))]);
    let mut p = Platform::new(vec![]);
    assert_eq!(reconcile(&cfg, &mut p, None), Ok(()));
    let cats: Vec<&ObservedResource> = p.resources.iter().filter(|r| r.kind == ResourceKind::Category).collect();
    assert_eq!(cats.len(), 2);
    assert!(cats.iter().any(|r| r.name == "A"));
    assert!(cats.iter().any(|r| r.name == "B"));
    let a = cats.iter().find(|r| r.name == "A").unwrap().id;
    let texts: Vec<&ObservedResource> = p.resources.iter().filter(|r| r.kind == ResourceKind::Text).collect();
    assert_eq!(texts.len(), 1);
    assert_eq!(texts[0].name, "x");
    assert_eq!(texts[0].parent_id, Some(a));
}

#[test]
fn second_pass_creates_nothing() {
    let mut cfg = server(vec![("A", category(vec![channel("x"), channel("y")])), ("B", category(vec![channel("z")]))]);
    cfg.categories[1].1.description = Some("about B".to_string());
    let mut p = Platform::new(vec![res(1, ResourceKind::Category, "A", None)]);
    assert_eq!(reconcile(&cfg, &mut p, None), Ok(()));
    assert_eq!(p.creates.len(), 4);
    let before = p.resources.len();
    p.creates.clear();
    p.edits.clear();
    assert_eq!(reconcile(&cfg, &mut p, None), Ok(()));
    assert!(p.creates.is_empty());
    assert_eq!(p.resources.len(), before);
    // three channel updates and the update of B, whose description is set
    assert_eq!(p.edits.len(), 4);
}

#[test]
fn matched_category_is_updated_not_created() {
    let mut cat = category(vec![]);
    cat.nsfw = Some(true);
    let cfg = server(vec![("A", cat)]);
    let mut p = Platform::new(vec![res(7, ResourceKind::Category, "A", None)]);
    assert_eq!(reconcile(&cfg, &mut p, None), Ok(()));
    assert!(p.creates.is_empty());
    assert_eq!(p.edits, vec![(7, ChannelEdit { name: None, topic: None, nsfw: Some(true), position: None })]);
}

#[test]
fn matched_category_without_attributes_is_left_alone() {
    let cfg = server(vec![("A", category(vec![]))]);
    let mut p = Platform::new(vec![res(7, ResourceKind::Category, "A", None)]);
    assert_eq!(reconcile(&cfg, &mut p, None), Ok(()));
    assert!(p.creates.is_empty());
    assert!(p.edits.is_empty());
}

#[test]
fn missing_category_is_created_with_its_attributes() {
    let mut cat = category(vec![]);
    cat.description = Some("talk".to_string());
    let cfg = server(vec![("A", cat)]);
    let mut p = Platform::new(vec![res(7, ResourceKind::Text, "A", None)]);
    assert_eq!(reconcile(&cfg, &mut p, None), Ok(()));
    assert!(p.edits.is_empty());
    assert_eq!(
        p.creates,
        vec![ChannelCreate {
            kind: ResourceKind::Category,
            name: "A".to_string(),
            parent: None,
            topic: Some("talk".to_string()),
            nsfw: None,
            position: None
        }]
    );
}

#[test]
fn same_channel_name_in_two_categories_is_scoped() {
    let mut ga = channel("general");
    ga.topic = Some("for A".to_string());
    let mut gb = channel("general");
    gb.nsfw = Some(true);
    let cfg = server(vec![("A", category(vec![ga])), ("B", category(vec![gb]))]);
    let mut p = Platform::new(vec![
        res(1, ResourceKind::Category, "A", None),
        res(2, ResourceKind::Category, "B", None),
        res(11, ResourceKind::Text, "general", Some(2)),
        res(10, ResourceKind::Text, "general", Some(1)),
    ]);
    assert_eq!(reconcile(&cfg, &mut p, None), Ok(()));
    assert!(p.creates.is_empty());
    let on_10: Vec<&ChannelEdit> = p.edits.iter().filter(|(id, _)| *id == 10).map(|(_, e)| e).collect();
    let on_11: Vec<&ChannelEdit> = p.edits.iter().filter(|(id, _)| *id == 11).map(|(_, e)| e).collect();
    assert_eq!(on_10.len(), 1);
    assert_eq!(on_10[0].topic, Some("for A".to_string()));
    assert_eq!(on_10[0].nsfw, None);
    assert_eq!(on_11.len(), 1);
    assert_eq!(on_11[0].topic, None);
    assert_eq!(on_11[0].nsfw, Some(true));
}

#[test]
fn guild_name_change_sends_new_name_once() {
    let mut cfg = server(vec![("A", category(vec![]))]);
    cfg.name = "New".to_string();
    let mut p = Platform::new(vec![]);
    p.guild_name = "Old".to_string();
    assert_eq!(reconcile(&cfg, &mut p, None), Ok(()));
    assert_eq!(p.guild_edits, vec![GuildEdit { name: "New".to_string() }]);
}

#[test]
fn guild_with_same_name_and_icon_is_not_updated() {
    let mut cfg = server(vec![]);
    cfg.name = "Same".to_string();
    cfg.icon_url = Some("https://cdn/icon.png".to_string());
    let mut p = Platform::new(vec![]);
    p.guild_name = "Same".to_string();
    assert_eq!(reconcile(&cfg, &mut p, Some("https://cdn/icon.png".to_string())), Ok(()));
    assert!(p.guild_edits.is_empty());
}

#[test]
fn guild_icon_difference_sends_only_the_name() {
    let mut cfg = server(vec![]);
    cfg.name = "Same".to_string();
    cfg.icon_url = Some("https://cdn/new.png".to_string());
    let mut p = Platform::new(vec![]);
    p.guild_name = "Same".to_string();
    assert_eq!(reconcile(&cfg, &mut p, Some("https://cdn/old.png".to_string())), Ok(()));
    assert_eq!(p.guild_edits, vec![GuildEdit { name: "Same".to_string() }]);
}

#[test]
fn failure_on_second_category_stops_the_pass() {
    let cfg = server(vec![("A", category(vec![])), ("B", category(vec![])), ("C", category(vec![]))]);
    let mut p = Platform::new(vec![]);
    p.fail_create_at = Some(1);
    assert_eq!(reconcile(&cfg, &mut p, None), Err(Error::SerenityError("rate limited".to_string())));
    assert_eq!(p.creates.len(), 2);
    assert_eq!(p.creates[1].name, "B");
    assert!(p.creates.iter().all(|c| c.name != "C"));
}

#[test]
fn stopped_pass_asks_for_nothing_more() {
    let cfg = server(vec![("A", category(vec![]))]);
    let mut r = Reconciler::new(cfg, ObservedGuild { name: "Guild".to_string(), icon_url: None, resources: vec![] });
    assert!(matches!(r.step(Outcome::Applied), Action::Create(_)));
    let e = Error::UpdateFailed("A".to_string());
    assert_eq!(r.step(Outcome::Failed(e.clone())), Action::Abort(e));
    assert_eq!(r.step(Outcome::Created(3)), Action::Halted);
    assert_eq!(r.step(Outcome::Applied), Action::Halted);
}

#[test]
fn create_answered_without_id_fails_the_pass() {
    let cfg = server(vec![("A", category(vec![]))]);
    let mut r = Reconciler::new(cfg, ObservedGuild { name: "Guild".to_string(), icon_url: None, resources: vec![] });
    assert!(matches!(r.step(Outcome::Applied), Action::Create(_)));
    assert_eq!(r.step(Outcome::Applied), Action::Abort(Error::CreationFailed("A".to_string())));
}

#[test]
fn created_channel_goes_under_new_category() {
    let mut x = channel("x");
    x.position = Some(3);
    x.topic = Some("t".to_string());
    let cfg = server(vec![("A", category(vec![x]))]);
    let mut r = Reconciler::new(cfg, ObservedGuild { name: "Guild".to_string(), icon_url: None, resources: vec![] });
    assert!(matches!(r.step(Outcome::Applied), Action::Create(_)));
    assert_eq!(
        r.step(Outcome::Created(55)),
        Action::Create(ChannelCreate {
            kind: ResourceKind::Text,
            name: "x".to_string(),
            parent: Some(55),
            topic: Some("t".to_string()),
            nsfw: None,
            position: Some(3)
        })
    );
    assert_eq!(r.step(Outcome::Created(56)), Action::Complete);
    assert_eq!(r.guild.resources.len(), 2);
    assert_eq!(r.step(Outcome::Applied), Action::Complete);
}

#[test]
fn channel_is_matched_by_its_name_not_its_key() {
    let cfg = ServerConfig {
        name: "Guild".to_string(),
        categories: vec![(
            "A".to_string(),
            CategoryConfig { channels: vec![("key".to_string(), channel("chat"))], description: None, nsfw: None },
        )],
        description: None,
        icon_url: None,
    };
    let mut p = Platform::new(vec![res(1, ResourceKind::Category, "A", None), res(2, ResourceKind::Text, "chat", Some(1))]);
    assert_eq!(reconcile(&cfg, &mut p, None), Ok(()));
    assert!(p.creates.is_empty());
    assert_eq!(p.edits.len(), 1);
    assert_eq!(p.edits[0].0, 2);
    assert_eq!(p.edits[0].1.name, Some("chat".to_string()));
}
