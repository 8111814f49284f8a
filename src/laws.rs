//! What holds of every pass: stated over the step model of `reconcile` and
//! proved from it.
use vstd::prelude::*;
use crate::diff::{category_create_spec, category_edit_spec, channel_create_spec, channel_edit_spec, category_update_due, guild_update_due, GuildEdit};
use crate::error::Error;
use crate::observed::{
    category_match, channel_match, lemma_first_match_answers,
    lemma_first_match_push, ObservedGuild, ObservedResource, ResourceKind,
};
use crate::reconcile::{
    created_category, created_channel, cursor_ok, n_channels, scan, stage_ok, step_spec, Action,
    Outcome, Stage,
};
use crate::settings::ServerConfig;

verus! {

pub open spec fn channel_name(cfg: ServerConfig, k: int, j: int) -> Seq<char> {
    cfg.categories@[k].1.channels@[j].1.name@
}

/// The first `upto` channels of category `k` have a match in category `cid`.
pub open spec fn channels_matched(cfg: ServerConfig, rs: Seq<ObservedResource>, k: int, upto: int, cid: u64) -> bool {
    forall|j: int| 0 <= j < upto ==> (#[trigger] channel_match(rs, channel_name(cfg, k, j), cid)) is Some
}

/// Category `k` and all its channels have a match.
pub open spec fn category_covered(cfg: ServerConfig, rs: Seq<ObservedResource>, k: int) -> bool {
    match category_match(rs, cfg.categories@[k].0@) {
        Some(cid) => channels_matched(cfg, rs, k, n_channels(cfg, k), cid),
        None => false,
    }
}

/// Every desired category and channel has a match in `rs`.
pub open spec fn covered(cfg: ServerConfig, rs: Seq<ObservedResource>) -> bool {
    forall|k: int| 0 <= k < cfg.categories@.len() ==> #[trigger] category_covered(cfg, rs, k)
}

/// Everything before the cursor has a match, and a resolved category is
/// resolved to its match.
pub open spec fn covered_upto(cfg: ServerConfig, rs: Seq<ObservedResource>, cat: int, chan: int, parent: Option<u64>) -> bool {
    &&& forall|k: int| 0 <= k < cat ==> #[trigger] category_covered(cfg, rs, k)
    &&& parent matches Some(p) ==> category_match(rs, cfg.categories@[cat].0@) == Some(p)
        && channels_matched(cfg, rs, cat, chan, p)
}

/// What holds at each stage of a pass.
pub open spec fn stage_inv(cfg: ServerConfig, rs: Seq<ObservedResource>, stage: Stage) -> bool {
    match stage {
        Stage::AwaitCategory { cat, matched } => covered_upto(cfg, rs, cat as int, 0, None)
            && matched == category_match(rs, cfg.categories@[cat as int].0@),
        Stage::AwaitChannel { cat, chan, parent, matched } => covered_upto(cfg, rs, cat as int, chan as int, Some(parent))
            && matched == channel_match(rs, channel_name(cfg, cat as int, chan as int), parent),
        Stage::Complete => covered(cfg, rs),
        _ => true,
    }
}

/// A run of steps over a list of outcomes: the last stage, the resources,
/// and the actions returned.
pub open spec fn run(
    cfg: ServerConfig,
    guild: ObservedGuild,
    rs: Seq<ObservedResource>,
    stage: Stage,
    evs: Seq<Outcome>,
) -> (Stage, Seq<ObservedResource>, Seq<Action>)
    decreases evs.len(),
{
    if evs.len() == 0 {
        (stage, rs, Seq::empty())
    } else {
        let (st, rs2, a) = step_spec(cfg, guild, rs, stage, evs[0]);
        let (st3, rs3, acts) = run(cfg, guild, rs2, st, evs.drop_first());
        (st3, rs3, seq![a] + acts)
    }
}

proof fn lemma_push_category(cfg: ServerConfig, rs: Seq<ObservedResource>, r: ObservedResource, k: int)
    requires
        category_covered(cfg, rs, k),
    ensures
        category_covered(cfg, rs.push(r), k),
{
    let cid = category_match(rs, cfg.categories@[k].0@)->Some_0;
    lemma_first_match_push(rs, r, ResourceKind::Category, cfg.categories@[k].0@, None);
    lemma_push_channels(cfg, rs, r, k, n_channels(cfg, k), cid);
}

proof fn lemma_push_channels(cfg: ServerConfig, rs: Seq<ObservedResource>, r: ObservedResource, k: int, upto: int, cid: u64)
    requires
        channels_matched(cfg, rs, k, upto, cid),
    ensures
        channels_matched(cfg, rs.push(r), k, upto, cid),
{
    assert forall|j: int| 0 <= j < upto implies (#[trigger] channel_match(rs.push(r), channel_name(cfg, k, j), cid)) is Some by {
        assert(channel_match(rs, channel_name(cfg, k, j), cid) is Some);
        lemma_first_match_push(rs, r, ResourceKind::Text, channel_name(cfg, k, j), Some(cid));
    }
}

proof fn lemma_push_covered(cfg: ServerConfig, rs: Seq<ObservedResource>, r: ObservedResource, cat: int, chan: int, parent: Option<u64>)
    requires
        covered_upto(cfg, rs, cat, chan, parent),
    ensures
        covered_upto(cfg, rs.push(r), cat, chan, parent),
{
    assert forall|k: int| 0 <= k < cat implies #[trigger] category_covered(cfg, rs.push(r), k) by {
        lemma_push_category(cfg, rs, r, k);
    }
    if let Some(p) = parent {
        lemma_first_match_push(rs, r, ResourceKind::Category, cfg.categories@[cat].0@, None);
        lemma_push_channels(cfg, rs, r, cat, chan, p);
    }
}

/// The scan from a cursor with everything before it matched stops at a
/// stage where the invariant holds; it never asks for an update of the
/// server, and asks for no create where everything has a match.
proof fn lemma_scan_inv(cfg: ServerConfig, rs: Seq<ObservedResource>, cat: int, chan: int, parent: Option<u64>)
    requires
        cursor_ok(cfg, cat, chan, parent),
        covered_upto(cfg, rs, cat, chan, parent),
    ensures
        stage_inv(cfg, rs, scan(cfg, rs, cat, chan, parent).0),
        stage_ok(cfg, scan(cfg, rs, cat, chan, parent).0),
        !(scan(cfg, rs, cat, chan, parent).1 is EditGuild),
        scan(cfg, rs, cat, chan, parent).0 != Stage::Start,
        covered(cfg, rs) ==> !(scan(cfg, rs, cat, chan, parent).1 is Create),
    decreases cfg.categories@.len() - cat, (if parent is None { 1int } else { 0int }), n_channels(cfg, cat) - chan,
{
    if cat < cfg.categories@.len() {
        let key = cfg.categories@[cat].0;
        let cc = cfg.categories@[cat].1;
        assert(cfg.categories.len() == cfg.categories@.len());
        assert(cc.channels.len() == cc.channels@.len());
        match parent {
            None => {
                if let Some(id) = category_match(rs, key@) {
                    if !category_update_due(cc) {
                        lemma_scan_inv(cfg, rs, cat, 0, Some(id));
                    }
                } else {
                    if covered(cfg, rs) {
                        assert(category_covered(cfg, rs, cat));
                    }
                }
            },
            Some(p) => {
                if chan >= cc.channels@.len() {
                    assert(category_covered(cfg, rs, cat));
                    lemma_scan_inv(cfg, rs, cat + 1, 0, None);
                } else {
                    if covered(cfg, rs) {
                        assert(category_covered(cfg, rs, cat));
                        assert(channel_match(rs, channel_name(cfg, cat, chan), p) is Some);
                    }
                }
            },
        }
    }
}

/// One step keeps the invariant; where everything has a match it asks for
/// no create and leaves the resources as they were.
proof fn lemma_step_inv(cfg: ServerConfig, guild: ObservedGuild, rs: Seq<ObservedResource>, stage: Stage, ev: Outcome)
    requires
        stage_ok(cfg, stage),
        stage_inv(cfg, rs, stage),
    ensures
        stage_ok(cfg, step_spec(cfg, guild, rs, stage, ev).0),
        stage_inv(cfg, step_spec(cfg, guild, rs, stage, ev).1, step_spec(cfg, guild, rs, stage, ev).0),
        covered(cfg, rs) ==> step_spec(cfg, guild, rs, stage, ev).1 == rs && !(step_spec(cfg, guild, rs, stage, ev).2 is Create),
        step_spec(cfg, guild, rs, stage, ev).0 != Stage::Start,
        stage != Stage::Start ==> !(step_spec(cfg, guild, rs, stage, ev).2 is EditGuild),
{
    match stage {
        Stage::Start => {
            lemma_scan_inv(cfg, rs, 0, 0, None);
        },
        Stage::AwaitGuild => {
            lemma_scan_inv(cfg, rs, 0, 0, None);
        },
        Stage::AwaitCategory { cat, matched } => {
            let key = cfg.categories@[cat as int].0;
            if !(ev is Failed) {
                if let Some(id) = matched {
                    lemma_scan_inv(cfg, rs, cat as int, 0, Some(id));
                } else if let Outcome::Created(id) = ev {
                    let r = created_category(cfg, cat as int, id);
                    lemma_first_match_push(rs, r, ResourceKind::Category, key@, None);
                    lemma_push_covered(cfg, rs, r, cat as int, 0, None);
                    lemma_scan_inv(cfg, rs.push(r), cat as int, 0, Some(id));
                    if covered(cfg, rs) {
                        assert(category_covered(cfg, rs, cat as int));
                    }
                }
            }
        },
        Stage::AwaitChannel { cat, chan, parent, matched } => {
            if !(ev is Failed) {
                let name = channel_name(cfg, cat as int, chan as int);
                if let Some(id) = matched {
                    assert(channels_matched(cfg, rs, cat as int, chan + 1, parent)) by {
                        assert forall|j: int| 0 <= j < chan + 1 implies (#[trigger] channel_match(rs, channel_name(cfg, cat as int, j), parent)) is Some by {
                            if j < chan {
                                assert(channels_matched(cfg, rs, cat as int, chan as int, parent));
                            }
                        }
                    }
                    lemma_scan_inv(cfg, rs, cat as int, chan + 1, Some(parent));
                } else if let Outcome::Created(id) = ev {
                    let r = created_channel(cfg, cat as int, chan as int, parent, id);
                    let rs2 = rs.push(r);
                    lemma_first_match_push(rs, r, ResourceKind::Text, name, Some(parent));
                    lemma_push_covered(cfg, rs, r, cat as int, chan as int, Some(parent));
                    assert(channels_matched(cfg, rs2, cat as int, chan + 1, parent)) by {
                        assert forall|j: int| 0 <= j < chan + 1 implies (#[trigger] channel_match(rs2, channel_name(cfg, cat as int, j), parent)) is Some by {
                            if j < chan {
                                assert(channels_matched(cfg, rs2, cat as int, chan as int, parent));
                            }
                        }
                    }
                    lemma_scan_inv(cfg, rs2, cat as int, chan + 1, Some(parent));
                    if covered(cfg, rs) {
                        assert(category_covered(cfg, rs, cat as int));
                    }
                } else {
                    if covered(cfg, rs) {
                        assert(category_covered(cfg, rs, cat as int));
                    }
                }
            }
        },
        _ => {},
    }
}

proof fn lemma_run_inv(cfg: ServerConfig, guild: ObservedGuild, rs: Seq<ObservedResource>, stage: Stage, evs: Seq<Outcome>)
    requires
        stage_ok(cfg, stage),
        stage_inv(cfg, rs, stage),
    ensures
        stage_inv(cfg, run(cfg, guild, rs, stage, evs).1, run(cfg, guild, rs, stage, evs).0),
        covered(cfg, rs) ==> forall|i: int| 0 <= i < run(cfg, guild, rs, stage, evs).2.len() ==> !(#[trigger] run(cfg, guild, rs, stage, evs).2[i] is Create),
        forall|i: int| 0 <= i < run(cfg, guild, rs, stage, evs).2.len() && (i > 0 || stage != Stage::Start) ==> !(#[trigger] run(cfg, guild, rs, stage, evs).2[i] is EditGuild),
        run(cfg, guild, rs, stage, evs).2.len() == evs.len(),
    decreases evs.len(),
{
    if evs.len() > 0 {
        let (st, rs2, a) = step_spec(cfg, guild, rs, stage, evs[0]);
        lemma_step_inv(cfg, guild, rs, stage, evs[0]);
        lemma_run_inv(cfg, guild, rs2, st, evs.drop_first());
        let acts = run(cfg, guild, rs2, st, evs.drop_first()).2;
        assert forall|i: int| 0 <= i < run(cfg, guild, rs, stage, evs).2.len() && (i > 0 || stage != Stage::Start) implies !(#[trigger] run(cfg, guild, rs, stage, evs).2[i] is EditGuild) by {
            if i > 0 {
                assert(run(cfg, guild, rs, stage, evs).2[i] == acts[i - 1]);
            }
        }
        if covered(cfg, rs) {
            assert forall|i: int| 0 <= i < run(cfg, guild, rs, stage, evs).2.len() implies !(#[trigger] run(cfg, guild, rs, stage, evs).2[i] is Create) by {
                if i > 0 {
                    assert(run(cfg, guild, rs, stage, evs).2[i] == acts[i - 1]);
                }
            }
        }
    }
}

/// Idempotence: once a pass has completed, a second pass started from the
/// resources it left behind creates nothing, whatever the platform answers.
pub proof fn lemma_second_pass_creates_nothing(
    cfg: ServerConfig,
    guild: ObservedGuild,
    first: Seq<Outcome>,
    again: ObservedGuild,
    second: Seq<Outcome>,
)
    requires
        run(cfg, guild, guild.resources@, Stage::Start, first).0 == Stage::Complete,
    ensures
        forall|i: int|
            0 <= i < run(cfg, again, run(cfg, guild, guild.resources@, Stage::Start, first).1, Stage::Start, second).2.len()
            ==> !(#[trigger] run(cfg, again, run(cfg, guild, guild.resources@, Stage::Start, first).1, Stage::Start, second).2[i] is Create),
{
    lemma_run_inv(cfg, guild, guild.resources@, Stage::Start, first);
    let rs1 = run(cfg, guild, guild.resources@, Stage::Start, first).1;
    lemma_run_inv(cfg, again, rs1, Stage::Start, second);
}

/// Convergence: a pass that completes leaves every desired category with a
/// match, and every desired channel with a match inside its category's match.
pub proof fn lemma_completed_pass_covers(cfg: ServerConfig, guild: ObservedGuild, evs: Seq<Outcome>)
    requires
        run(cfg, guild, guild.resources@, Stage::Start, evs).0 == Stage::Complete,
    ensures
        covered(cfg, run(cfg, guild, guild.resources@, Stage::Start, evs).1),
{
    lemma_run_inv(cfg, guild, guild.resources@, Stage::Start, evs);
}

/// Create or update, one of them: a desired category is created exactly when
/// it has no match; a matched one is updated when an update is due and is
/// otherwise passed over to its channels. A desired channel of category `p`
/// is created in `p` when it has no match there, and otherwise updated, on
/// its match, which is a text channel of `p`. Once answered, the pass moves
/// past the resource.
pub proof fn lemma_create_or_update(cfg: ServerConfig, rs: Seq<ObservedResource>, cat: int, chan: int, p: u64)
    requires
        0 <= cat < cfg.categories@.len(),
    ensures
        ({
            let key = cfg.categories@[cat].0;
            let cc = cfg.categories@[cat].1;
            match category_match(rs, key@) {
                None => scan(cfg, rs, cat, 0, None) == (
                    Stage::AwaitCategory { cat: cat as usize, matched: None },
                    Action::Create(category_create_spec(key, cc)),
                ),
                Some(id) => if category_update_due(cc) {
                    scan(cfg, rs, cat, 0, None) == (
                        Stage::AwaitCategory { cat: cat as usize, matched: Some(id) },
                        Action::Edit(id, category_edit_spec(cc)),
                    )
                } else {
                    scan(cfg, rs, cat, 0, None) == scan(cfg, rs, cat, 0, Some(id))
                },
            }
        }),
        0 <= chan < n_channels(cfg, cat) ==> ({
            let ch = cfg.categories@[cat].1.channels@[chan].1;
            let r = scan(cfg, rs, cat, chan, Some(p));
            match channel_match(rs, ch.name@, p) {
                None => r == (
                    Stage::AwaitChannel { cat: cat as usize, chan: chan as usize, parent: p, matched: None },
                    Action::Create(channel_create_spec(ch, p)),
                ),
                Some(id) => r == (
                    Stage::AwaitChannel { cat: cat as usize, chan: chan as usize, parent: p, matched: Some(id) },
                    Action::Edit(id, channel_edit_spec(ch)),
                ) && exists|i: int|
                    0 <= i < rs.len() && #[trigger] rs[i].id == id && rs[i].kind == ResourceKind::Text
                        && rs[i].parent_id == Some(p),
            }
        }),
{
    if 0 <= chan < n_channels(cfg, cat) {
        let ch = cfg.categories@[cat].1.channels@[chan].1;
        lemma_first_match_answers(rs, ResourceKind::Text, ch.name@, Some(p));
    }
}

/// Scoped matching: in a server whose resources have distinct ids, the match
/// of a channel in category `a` is a text channel of `a`, and never a resource
/// that sits elsewhere, so reconciling it touches no channel of another
/// category.
pub proof fn lemma_scoped_matching(guild: ObservedGuild, name: Seq<char>, a: u64)
    requires
        guild.wf(),
    ensures
        channel_match(guild.resources@, name, a) matches Some(id) ==> {
            &&& exists|i: int|
                0 <= i < guild.resources@.len() && #[trigger] guild.resources@[i].id == id
                    && guild.resources@[i].kind == ResourceKind::Text && guild.resources@[i].parent_id == Some(a)
            &&& forall|i: int|
                0 <= i < guild.resources@.len() && guild.resources@[i].parent_id != Some(a)
                    ==> #[trigger] guild.resources@[i].id != id
        },
{
    lemma_first_match_answers(guild.resources@, ResourceKind::Text, name, Some(a));
}

/// The server's update: where the observed name differs from the desired
/// one, the first step asks for an update that sends the desired name, and
/// no later step asks for one; where name and icon agree, no step asks for
/// one.
pub proof fn lemma_guild_update(cfg: ServerConfig, guild: ObservedGuild, evs: Seq<Outcome>)
    ensures
        guild.name@ != cfg.name@ && evs.len() > 0 ==> run(cfg, guild, guild.resources@, Stage::Start, evs).2[0]
            == Action::EditGuild(GuildEdit { name: cfg.name }),
        forall|i: int| 0 < i < run(cfg, guild, guild.resources@, Stage::Start, evs).2.len()
            ==> !(#[trigger] run(cfg, guild, guild.resources@, Stage::Start, evs).2[i] is EditGuild),
        guild.name@ == cfg.name@ && guild.icon_url.deep_view() == cfg.icon_url.deep_view() ==> forall|i: int|
            0 <= i < run(cfg, guild, guild.resources@, Stage::Start, evs).2.len()
            ==> !(#[trigger] run(cfg, guild, guild.resources@, Stage::Start, evs).2[i] is EditGuild),
{
    lemma_run_inv(cfg, guild, guild.resources@, Stage::Start, evs);
    if evs.len() > 0 {
        lemma_scan_inv(cfg, guild.resources@, 0, 0, None);
        let acts = run(cfg, guild, guild.resources@, Stage::Start, evs).2;
        assert(acts[0] == step_spec(cfg, guild, guild.resources@, Stage::Start, evs[0]).2);
        assert(!guild_update_due(guild, cfg) ==> !(acts[0] is EditGuild));
    }
}

/// Fail-fast: a failure answered to any call stops the pass with that very
/// error, and a stopped pass asks for nothing more, whatever comes after.
pub proof fn lemma_fail_fast(
    cfg: ServerConfig,
    guild: ObservedGuild,
    rs: Seq<ObservedResource>,
    stage: Stage,
    e: Error,
    later: Seq<Outcome>,
)
    requires
        stage != Stage::Start,
        stage != Stage::Complete,
        stage != Stage::Aborted,
    ensures
        step_spec(cfg, guild, rs, stage, Outcome::Failed(e)) == (Stage::Aborted, rs, Action::Abort(e)),
        run(cfg, guild, rs, Stage::Aborted, later).1 == rs,
        forall|i: int| 0 <= i < run(cfg, guild, rs, Stage::Aborted, later).2.len()
            ==> #[trigger] run(cfg, guild, rs, Stage::Aborted, later).2[i] == Action::Halted,
    decreases later.len(),
{
    if later.len() > 0 {
        lemma_fail_fast(cfg, guild, rs, stage, e, later.drop_first());
        let acts = run(cfg, guild, rs, Stage::Aborted, later).2;
        assert forall|i: int| 0 <= i < acts.len() implies #[trigger] acts[i] == Action::Halted by {
            if i > 0 {
                assert(acts[i] == run(cfg, guild, rs, Stage::Aborted, later.drop_first()).2[i - 1]);
            }
        }
    }
}

/// `r` is a category named by a desired key, or a text channel in some
/// category named as a desired channel.
pub open spec fn desired_resource(cfg: ServerConfig, r: ObservedResource) -> bool {
    ||| r.kind == ResourceKind::Category && r.parent_id is None && exists|k: int|
        0 <= k < cfg.categories@.len() && #[trigger] cfg.categories@[k].0 == r.name
    ||| r.kind == ResourceKind::Text && r.parent_id is Some && exists|k: int, j: int|
        0 <= k < cfg.categories@.len() && 0 <= j < n_channels(cfg, k) && #[trigger] channel_name(cfg, k, j) == r.name@
}

/// `rs` is `rs0` with only desired resources appended.
pub open spec fn only_desired_added(cfg: ServerConfig, rs0: Seq<ObservedResource>, rs: Seq<ObservedResource>) -> bool {
    &&& rs0.len() <= rs.len()
    &&& rs.subrange(0, rs0.len() as int) == rs0
    &&& forall|i: int| rs0.len() <= i < rs.len() ==> desired_resource(cfg, #[trigger] rs[i])
}

proof fn lemma_step_adds_desired(
    cfg: ServerConfig,
    guild: ObservedGuild,
    rs0: Seq<ObservedResource>,
    rs: Seq<ObservedResource>,
    stage: Stage,
    ev: Outcome,
)
    requires
        stage_ok(cfg, stage),
        only_desired_added(cfg, rs0, rs),
    ensures
        only_desired_added(cfg, rs0, step_spec(cfg, guild, rs, stage, ev).1),
{
    let rs2 = step_spec(cfg, guild, rs, stage, ev).1;
    if rs2 != rs {
        match stage {
            Stage::AwaitCategory { cat, matched } => {
                let r = created_category(cfg, cat as int, ev->Created_0);
                assert(rs2 == rs.push(r));
                assert(desired_resource(cfg, r));
            },
            Stage::AwaitChannel { cat, chan, parent, matched } => {
                let r = created_channel(cfg, cat as int, chan as int, parent, ev->Created_0);
                assert(rs2 == rs.push(r));
                assert(channel_name(cfg, cat as int, chan as int) == r.name@);
                assert(desired_resource(cfg, r));
            },
            _ => {},
        }
        assert(rs2.subrange(0, rs0.len() as int) =~= rs.subrange(0, rs0.len() as int));
        assert forall|i: int| rs0.len() <= i < rs2.len() implies desired_resource(cfg, #[trigger] rs2[i]) by {
            if i < rs.len() {
                assert(rs2[i] == rs[i]);
            }
        }
    }
}

proof fn lemma_run_adds_desired(
    cfg: ServerConfig,
    guild: ObservedGuild,
    rs0: Seq<ObservedResource>,
    rs: Seq<ObservedResource>,
    stage: Stage,
    evs: Seq<Outcome>,
)
    requires
        stage_ok(cfg, stage),
        stage_inv(cfg, rs, stage),
        only_desired_added(cfg, rs0, rs),
    ensures
        only_desired_added(cfg, rs0, run(cfg, guild, rs, stage, evs).1),
    decreases evs.len(),
{
    if evs.len() > 0 {
        let (st, rs2, a) = step_spec(cfg, guild, rs, stage, evs[0]);
        lemma_step_inv(cfg, guild, rs, stage, evs[0]);
        lemma_step_adds_desired(cfg, guild, rs0, rs, stage, evs[0]);
        lemma_run_adds_desired(cfg, guild, rs0, rs2, st, evs.drop_first());
    }
}

/// Nothing but what is desired: whatever the platform answers, a pass keeps
/// the resources it started from and appends only categories named by a
/// desired key and text channels named as a desired channel.
pub proof fn lemma_pass_adds_only_desired(cfg: ServerConfig, guild: ObservedGuild, evs: Seq<Outcome>)
    ensures
        only_desired_added(cfg, guild.resources@, run(cfg, guild, guild.resources@, Stage::Start, evs).1),
{
    assert(guild.resources@.subrange(0, guild.resources@.len() as int) =~= guild.resources@);
    lemma_run_adds_desired(cfg, guild, guild.resources@, guild.resources@, Stage::Start, evs);
}

/// Two resources that one search would not tell apart: categories of one
/// name, or text channels of one name in one category.
pub open spec fn same_scope(a: ObservedResource, b: ObservedResource) -> bool {
    &&& a.kind == b.kind
    &&& a.name@ == b.name@
    &&& a.kind == ResourceKind::Text ==> a.parent_id == b.parent_id
}

/// No resource appended after `rs0` is in the scope of one before it.
pub open spec fn no_repeats(rs0: Seq<ObservedResource>, rs: Seq<ObservedResource>) -> bool {
    forall|i: int, j: int| 0 <= i < j < rs.len() && rs0.len() <= j ==> !same_scope(#[trigger] rs[i], #[trigger] rs[j])
}

proof fn lemma_step_no_repeats(
    cfg: ServerConfig,
    guild: ObservedGuild,
    rs0: Seq<ObservedResource>,
    rs: Seq<ObservedResource>,
    stage: Stage,
    ev: Outcome,
)
    requires
        stage_ok(cfg, stage),
        stage_inv(cfg, rs, stage),
        no_repeats(rs0, rs),
    ensures
        no_repeats(rs0, step_spec(cfg, guild, rs, stage, ev).1),
{
    let rs2 = step_spec(cfg, guild, rs, stage, ev).1;
    if rs2 != rs {
        let n = rs.len() as int;
        match stage {
            Stage::AwaitCategory { cat, matched } => {
                let r = created_category(cfg, cat as int, ev->Created_0);
                assert(rs2 == rs.push(r));
                lemma_first_match_answers(rs, ResourceKind::Category, r.name@, None);
                assert forall|i: int, j: int| 0 <= i < j < rs2.len() && rs0.len() <= j implies !same_scope(#[trigger] rs2[i], #[trigger] rs2[j]) by {
                    if j == n {
                        assert(rs2[i] == rs[i]);
                    } else {
                        assert(rs2[i] == rs[i] && rs2[j] == rs[j]);
                    }
                }
            },
            Stage::AwaitChannel { cat, chan, parent, matched } => {
                let r = created_channel(cfg, cat as int, chan as int, parent, ev->Created_0);
                assert(rs2 == rs.push(r));
                lemma_first_match_answers(rs, ResourceKind::Text, r.name@, Some(parent));
                assert forall|i: int, j: int| 0 <= i < j < rs2.len() && rs0.len() <= j implies !same_scope(#[trigger] rs2[i], #[trigger] rs2[j]) by {
                    if j == n {
                        assert(rs2[i] == rs[i]);
                    } else {
                        assert(rs2[i] == rs[i] && rs2[j] == rs[j]);
                    }
                }
            },
            _ => {},
        }
    }
}

proof fn lemma_run_no_repeats(
    cfg: ServerConfig,
    guild: ObservedGuild,
    rs0: Seq<ObservedResource>,
    rs: Seq<ObservedResource>,
    stage: Stage,
    evs: Seq<Outcome>,
)
    requires
        stage_ok(cfg, stage),
        stage_inv(cfg, rs, stage),
        no_repeats(rs0, rs),
    ensures
        no_repeats(rs0, run(cfg, guild, rs, stage, evs).1),
    decreases evs.len(),
{
    if evs.len() > 0 {
        let (st, rs2, a) = step_spec(cfg, guild, rs, stage, evs[0]);
        lemma_step_inv(cfg, guild, rs, stage, evs[0]);
        lemma_step_no_repeats(cfg, guild, rs0, rs, stage, evs[0]);
        lemma_run_no_repeats(cfg, guild, rs0, rs2, st, evs.drop_first());
    }
}

/// Nothing twice: whatever the platform answers, no resource a pass appends
/// shares its name and scope with a resource before it, so from an empty
/// server each desired name gives one category, and each desired channel
/// name one text channel per category.
pub proof fn lemma_pass_creates_once(cfg: ServerConfig, guild: ObservedGuild, evs: Seq<Outcome>)
    ensures
        no_repeats(guild.resources@, run(cfg, guild, guild.resources@, Stage::Start, evs).1),
{
    lemma_run_no_repeats(cfg, guild, guild.resources@, guild.resources@, Stage::Start, evs);
}

/// Convergence: a pass that completes keeps what was there, appends only
/// desired resources, none twice in one scope, and leaves every desired
/// category and channel with a match; from a server with nothing in it, the
/// result holds exactly one category per desired name and one text channel
/// per desired channel name within its category's match.
pub proof fn lemma_convergence(cfg: ServerConfig, guild: ObservedGuild, evs: Seq<Outcome>)
    requires
        run(cfg, guild, guild.resources@, Stage::Start, evs).0 == Stage::Complete,
    ensures
        covered(cfg, run(cfg, guild, guild.resources@, Stage::Start, evs).1),
        only_desired_added(cfg, guild.resources@, run(cfg, guild, guild.resources@, Stage::Start, evs).1),
        no_repeats(guild.resources@, run(cfg, guild, guild.resources@, Stage::Start, evs).1),
{
    lemma_completed_pass_covers(cfg, guild, evs);
    lemma_pass_adds_only_desired(cfg, guild, evs);
    lemma_pass_creates_once(cfg, guild, evs);
}

} // verus!
