//! The reconciliation pass as a state machine. Each step takes the outcome of
//! the platform call made last and returns the next call to make, so that the
//! decisions are made here and the calls themselves are made by the caller.
use vstd::prelude::*;
use crate::diff::{
    category_create, category_create_spec, category_edit, category_edit_spec, category_update_due,
    channel_create, channel_create_spec, channel_edit, channel_edit_spec, guild_edit,
    guild_update_due, ChannelCreate, ChannelEdit, GuildEdit,
};
use crate::error::Error;
use crate::observed::{
    category_match, channel_match, find_category, find_channel, ObservedGuild, ObservedResource,
    ResourceKind,
};
use crate::settings::ServerConfig;

verus! {

/// Where a pass stands.
#[derive(Clone, Copy, Debug, PartialEq, Eq)]
pub enum Stage {
    /// Nothing has been sent yet.
    Start,
    /// The server's update was sent.
    AwaitGuild,
    /// The create (`matched` is `None`) or the update of category `cat` was sent.
    AwaitCategory { cat: usize, matched: Option<u64> },
    /// The create (`matched` is `None`) or the update of channel `chan` of
    /// category `cat`, which resolved to `parent`, was sent.
    AwaitChannel { cat: usize, chan: usize, parent: u64, matched: Option<u64> },
    /// Every desired resource has been handled.
    Complete,
    /// A call failed and the pass stopped.
    Aborted,
}

/// What the platform answered to the call made last.
#[derive(Clone, Debug, PartialEq, Eq)]
pub enum Outcome {
    /// An update went through.
    Applied,
    /// A create went through and gave the new resource this id.
    Created(u64),
    /// The call failed.
    Failed(Error),
}

/// What the caller is to do next.
#[derive(Clone, Debug, PartialEq, Eq)]
pub enum Action {
    EditGuild(GuildEdit),
    Create(ChannelCreate),
    Edit(u64, ChannelEdit),
    /// The pass has finished successfully.
    Complete,
    /// The pass stops with this error.
    Abort(Error),
    /// The pass had already stopped; nothing more is to be done.
    Halted,
}

/// One reconciliation pass over a desired configuration and an observed server.
pub struct Reconciler {
    pub config: ServerConfig,
    pub guild: ObservedGuild,
    pub stage: Stage,
}

pub open spec fn n_channels(cfg: ServerConfig, cat: int) -> int {
    cfg.categories@[cat].1.channels@.len() as int
}

/// A cursor of the scan: category `cat`, resolved to `parent` when that is
/// given, and its channels from `chan` on.
pub open spec fn cursor_ok(cfg: ServerConfig, cat: int, chan: int, parent: Option<u64>) -> bool {
    &&& 0 <= cat <= cfg.categories@.len()
    &&& 0 <= chan
    &&& parent is Some ==> cat < cfg.categories@.len() && chan <= n_channels(cfg, cat)
}

/// From a cursor, the first thing that calls for the platform, and the stage
/// that waits for it. Matched categories that need no update are passed over.
pub open spec fn scan(
    cfg: ServerConfig,
    rs: Seq<ObservedResource>,
    cat: int,
    chan: int,
    parent: Option<u64>,
) -> (Stage, Action)
    decreases cfg.categories@.len() - cat, (if parent is None { 1int } else { 0int }), n_channels(cfg, cat) - chan,
    when cursor_ok(cfg, cat, chan, parent)
{
    if cat >= cfg.categories@.len() {
        (Stage::Complete, Action::Complete)
    } else {
        let key = cfg.categories@[cat].0;
        let cc = cfg.categories@[cat].1;
        match parent {
            None => match category_match(rs, key@) {
                None => (
                    Stage::AwaitCategory { cat: cat as usize, matched: None },
                    Action::Create(category_create_spec(key, cc)),
                ),
                Some(id) => if category_update_due(cc) {
                    (
                        Stage::AwaitCategory { cat: cat as usize, matched: Some(id) },
                        Action::Edit(id, category_edit_spec(cc)),
                    )
                } else {
                    scan(cfg, rs, cat, 0, Some(id))
                },
            },
            Some(p) => if chan >= cc.channels@.len() {
                scan(cfg, rs, cat + 1, 0, None)
            } else {
                let ch = cc.channels@[chan].1;
                match channel_match(rs, ch.name@, p) {
                    None => (
                        Stage::AwaitChannel { cat: cat as usize, chan: chan as usize, parent: p, matched: None },
                        Action::Create(channel_create_spec(ch, p)),
                    ),
                    Some(id) => (
                        Stage::AwaitChannel { cat: cat as usize, chan: chan as usize, parent: p, matched: Some(id) },
                        Action::Edit(id, channel_edit_spec(ch)),
                    ),
                }
            },
        }
    }
}

/// The resource that a create of category `cat` brings about.
pub open spec fn created_category(cfg: ServerConfig, cat: int, id: u64) -> ObservedResource {
    ObservedResource { id, kind: ResourceKind::Category, name: cfg.categories@[cat].0, parent_id: None }
}

/// The resource that a create of channel `chan` of category `cat` brings about.
pub open spec fn created_channel(cfg: ServerConfig, cat: int, chan: int, parent: u64, id: u64) -> ObservedResource {
    ObservedResource {
        id,
        kind: ResourceKind::Text,
        name: cfg.categories@[cat].1.channels@[chan].1.name,
        parent_id: Some(parent),
    }
}

/// The stage's indices point into the configuration.
pub open spec fn stage_ok(cfg: ServerConfig, stage: Stage) -> bool {
    match stage {
        Stage::AwaitCategory { cat, .. } => cat < cfg.categories@.len(),
        Stage::AwaitChannel { cat, chan, .. } => cat < cfg.categories@.len() && chan < n_channels(cfg, cat as int),
        _ => true,
    }
}

/// One step: the new stage, the observed resources after it, and the action.
pub open spec fn step_spec(
    cfg: ServerConfig,
    guild: ObservedGuild,
    rs: Seq<ObservedResource>,
    stage: Stage,
    ev: Outcome,
) -> (Stage, Seq<ObservedResource>, Action) {
    match stage {
        Stage::Complete => (stage, rs, Action::Complete),
        Stage::Aborted => (stage, rs, Action::Halted),
        Stage::Start => if guild_update_due(guild, cfg) {
            (Stage::AwaitGuild, rs, Action::EditGuild(GuildEdit { name: cfg.name }))
        } else {
            let (st, a) = scan(cfg, rs, 0, 0, None);
            (st, rs, a)
        },
        _ => match ev {
            Outcome::Failed(e) => (Stage::Aborted, rs, Action::Abort(e)),
            _ => match stage {
                Stage::AwaitCategory { cat, matched } => match matched {
                    Some(id) => {
                        let (st, a) = scan(cfg, rs, cat as int, 0, Some(id));
                        (st, rs, a)
                    },
                    None => match ev {
                        Outcome::Created(id) => {
                            let rs2 = rs.push(created_category(cfg, cat as int, id));
                            let (st, a) = scan(cfg, rs2, cat as int, 0, Some(id));
                            (st, rs2, a)
                        },
                        _ => (Stage::Aborted, rs, Action::Abort(Error::CreationFailed(cfg.categories@[cat as int].0))),
                    },
                },
                Stage::AwaitChannel { cat, chan, parent, matched } => match matched {
                    Some(_) => {
                        let (st, a) = scan(cfg, rs, cat as int, chan + 1, Some(parent));
                        (st, rs, a)
                    },
                    None => match ev {
                        Outcome::Created(id) => {
                            let rs2 = rs.push(created_channel(cfg, cat as int, chan as int, parent, id));
                            let (st, a) = scan(cfg, rs2, cat as int, chan + 1, Some(parent));
                            (st, rs2, a)
                        },
                        _ => (
                            Stage::Aborted,
                            rs,
                            Action::Abort(Error::CreationFailed(cfg.categories@[cat as int].1.channels@[chan as int].1.name)),
                        ),
                    },
                },
                _ => {
                    let (st, a) = scan(cfg, rs, 0, 0, None);
                    (st, rs, a)
                },
            },
        },
    }
}

/// The executable scan: the first thing from the cursor on that calls for
/// the platform.
fn scan_from(cfg: &ServerConfig, rs: &Vec<ObservedResource>, cat0: usize, chan0: usize, parent0: Option<u64>) -> (r: (Stage, Action))
    requires
        cursor_ok(*cfg, cat0 as int, chan0 as int, parent0),
    ensures
        r == scan(*cfg, rs@, cat0 as int, chan0 as int, parent0),
        stage_ok(*cfg, r.0),
{
    let mut cat = cat0;
    let mut chan = chan0;
    let mut parent = parent0;
    loop
        invariant
            cursor_ok(*cfg, cat as int, chan as int, parent),
            scan(*cfg, rs@, cat as int, chan as int, parent) == scan(*cfg, rs@, cat0 as int, chan0 as int, parent0),
        decreases cfg.categories@.len() - cat, (if parent is None { 1int } else { 0int }), n_channels(*cfg, cat as int) - chan,
    {
        if cat >= cfg.categories.len() {
            return (Stage::Complete, Action::Complete);
        }
        let key = &cfg.categories[cat].0;
        let cc = &cfg.categories[cat].1;
        match parent {
            None => match find_category(key, rs) {
                None => {
                    return (Stage::AwaitCategory { cat, matched: None }, Action::Create(category_create(key, cc)));
                },
                Some(id) => match category_edit(cc) {
                    Some(edit) => {
                        return (Stage::AwaitCategory { cat, matched: Some(id) }, Action::Edit(id, edit));
                    },
                    None => {
                        chan = 0;
                        parent = Some(id);
                    },
                },
            },
            Some(p) => {
                if chan >= cc.channels.len() {
                    cat = cat + 1;
                    chan = 0;
                    parent = None;
                } else {
                    let ch = &cc.channels[chan].1;
                    match find_channel(&ch.name, p, rs) {
                        None => {
                            return (
                                Stage::AwaitChannel { cat, chan, parent: p, matched: None },
                                Action::Create(channel_create(ch, p)),
                            );
                        },
                        Some(id) => {
                            return (
                                Stage::AwaitChannel { cat, chan, parent: p, matched: Some(id) },
                                Action::Edit(id, channel_edit(ch)),
                            );
                        },
                    }
                }
            },
        }
    }
}

impl Reconciler {
    pub open spec fn wf(&self) -> bool {
        stage_ok(self.config, self.stage)
    }

    /// A pass that has not started.
    pub fn new(config: ServerConfig, guild: ObservedGuild) -> (r: Reconciler)
        ensures
            r.config == config,
            r.guild == guild,
            r.stage == Stage::Start,
            r.wf(),
    {
        Reconciler { config, guild, stage: Stage::Start }
    }

    /// Takes the outcome of the call made last (not consulted on the first
    /// step) and returns what to do next. A failure stops the pass with that
    /// error; a stopped or finished pass asks for nothing more.
    pub fn step(&mut self, ev: Outcome) -> (r: Action)
        requires
            old(self).wf(),
        ensures
            final(self).wf(),
            final(self).config == old(self).config,
            final(self).guild.name == old(self).guild.name,
            final(self).guild.icon_url == old(self).guild.icon_url,
            (final(self).stage, final(self).guild.resources@, r) == step_spec(
                old(self).config,
                old(self).guild,
                old(self).guild.resources@,
                old(self).stage,
                ev,
            ),
    {
        let cfg = &self.config;
        match self.stage {
            Stage::Complete => {
                return Action::Complete;
            },
            Stage::Aborted => {
                return Action::Halted;
            },
            Stage::Start => {
                match guild_edit(&self.guild, cfg) {
                    Some(edit) => {
                        self.stage = Stage::AwaitGuild;
                        return Action::EditGuild(edit);
                    },
                    None => {
                        let (st, a) = scan_from(cfg, &self.guild.resources, 0, 0, None);
                        self.stage = st;
                        return a;
                    },
                }
            },
            _ => {},
        }
        if let Outcome::Failed(e) = ev {
            self.stage = Stage::Aborted;
            return Action::Abort(e);
        }
        match self.stage {
            Stage::AwaitCategory { cat, matched } => self.after_category(cat, matched, ev),
            Stage::AwaitChannel { cat, chan, parent, matched } => self.after_channel(cat, chan, parent, matched, ev),
            _ => {
                let (st, a) = scan_from(cfg, &self.guild.resources, 0, 0, None);
                self.stage = st;
                a
            },
        }
    }

    fn after_category(&mut self, cat: usize, matched: Option<u64>, ev: Outcome) -> (r: Action)
        requires
            old(self).stage == (Stage::AwaitCategory { cat, matched }),
            stage_ok(old(self).config, old(self).stage),
            !(ev is Failed),
        ensures
            final(self).wf(),
            final(self).config == old(self).config,
            final(self).guild.name == old(self).guild.name,
            final(self).guild.icon_url == old(self).guild.icon_url,
            (final(self).stage, final(self).guild.resources@, r) == step_spec(
                old(self).config,
                old(self).guild,
                old(self).guild.resources@,
                old(self).stage,
                ev,
            ),
    {
        let cfg = &self.config;
        if let Some(id) = matched {
            let (st, a) = scan_from(cfg, &self.guild.resources, cat, 0, Some(id));
            self.stage = st;
            return a;
        }
        if let Outcome::Created(id) = ev {
            let r = ObservedResource {
                id,
                kind: ResourceKind::Category,
                name: cfg.categories[cat].0.clone(),
                parent_id: None,
            };
            self.guild.resources.push(r);
            let (st, a) = scan_from(cfg, &self.guild.resources, cat, 0, Some(id));
            self.stage = st;
            a
        } else {
            self.stage = Stage::Aborted;
            Action::Abort(Error::CreationFailed(cfg.categories[cat].0.clone()))
        }
    }

    fn after_channel(&mut self, cat: usize, chan: usize, parent: u64, matched: Option<u64>, ev: Outcome) -> (r: Action)
        requires
            old(self).stage == (Stage::AwaitChannel { cat, chan, parent, matched }),
            stage_ok(old(self).config, old(self).stage),
            !(ev is Failed),
        ensures
            final(self).wf(),
            final(self).config == old(self).config,
            final(self).guild.name == old(self).guild.name,
            final(self).guild.icon_url == old(self).guild.icon_url,
            (final(self).stage, final(self).guild.resources@, r) == step_spec(
                old(self).config,
                old(self).guild,
                old(self).guild.resources@,
                old(self).stage,
                ev,
            ),
    {
        let cfg = &self.config;
        let n = cfg.categories[cat].1.channels.len();
        assert(chan < n);
        if matched.is_some() {
            let (st, a) = scan_from(cfg, &self.guild.resources, cat, chan + 1, Some(parent));
            self.stage = st;
            return a;
        }
        if let Outcome::Created(id) = ev {
            let r = ObservedResource {
                id,
                kind: ResourceKind::Text,
                name: cfg.categories[cat].1.channels[chan].1.name.clone(),
                parent_id: Some(parent),
            };
            self.guild.resources.push(r);
            let (st, a) = scan_from(cfg, &self.guild.resources, cat, chan + 1, Some(parent));
            self.stage = st;
            a
        } else {
            self.stage = Stage::Aborted;
            Action::Abort(Error::CreationFailed(cfg.categories[cat].1.channels[chan].1.name.clone()))
        }
    }
}

} // verus!
