//! What to send to the platform for one desired resource: the attributes of a
//! create, or of an update and whether one is due.
use vstd::prelude::*;
use crate::observed::{ObservedGuild, ResourceKind};
use crate::settings::{CategoryConfig, ChannelConfig, ServerConfig};

verus! {

/// An update of the server's own attributes.
#[derive(Clone, Debug, PartialEq, Eq)]
pub struct GuildEdit {
    pub name: String,
}

/// A request to create a category or a channel.
#[derive(Clone, Debug, PartialEq, Eq)]
pub struct ChannelCreate {
    pub kind: ResourceKind,
    pub name: String,
    pub parent: Option<u64>,
    pub topic: Option<String>,
    pub nsfw: Option<bool>,
    pub position: Option<u16>,
}

/// An update of an existing category or channel; absent fields stay as they are.
#[derive(Clone, Debug, PartialEq, Eq)]
pub struct ChannelEdit {
    pub name: Option<String>,
    pub topic: Option<String>,
    pub nsfw: Option<bool>,
    pub position: Option<u16>,
}

/// A position as the platform takes it, a 16-bit value: the configured
/// position is cut to its low sixteen bits, not rejected or clamped, so that
/// 70000 becomes 4464.
pub open spec fn platform_position(p: Option<u32>) -> Option<u16> {
    match p {
        Some(v) => Some(v as u16),
        None => None,
    }
}

/// Whether the server's attributes call for an update.
pub open spec fn guild_update_due(observed: ObservedGuild, desired: ServerConfig) -> bool {
    observed.name@ != desired.name@ || observed.icon_url.deep_view() != desired.icon_url.deep_view()
}

/// Whether a matched category calls for an update: any optional attribute set.
pub open spec fn category_update_due(c: CategoryConfig) -> bool {
    c.description is Some || c.nsfw is Some
}

pub open spec fn category_create_spec(name: String, c: CategoryConfig) -> ChannelCreate {
    ChannelCreate {
        kind: ResourceKind::Category,
        name: name,
        parent: None,
        topic: c.description,
        nsfw: c.nsfw,
        position: None,
    }
}

pub open spec fn category_edit_spec(c: CategoryConfig) -> ChannelEdit {
    ChannelEdit { name: None, topic: c.description, nsfw: c.nsfw, position: None }
}

pub open spec fn channel_create_spec(c: ChannelConfig, parent: u64) -> ChannelCreate {
    ChannelCreate {
        kind: ResourceKind::Text,
        name: c.name,
        parent: Some(parent),
        topic: c.topic,
        nsfw: c.nsfw,
        position: platform_position(c.position),
    }
}

pub open spec fn channel_edit_spec(c: ChannelConfig) -> ChannelEdit {
    ChannelEdit {
        name: Some(c.name),
        topic: c.topic,
        nsfw: c.nsfw,
        position: platform_position(c.position),
    }
}

fn copy_text(t: &Option<String>) -> (r: Option<String>)
    ensures
        r == *t,
{
    match t {
        Some(s) => Some(s.clone()),
        None => None,
    }
}

fn to_platform_position(p: Option<u32>) -> (r: Option<u16>)
    ensures
        r == platform_position(p),
{
    match p {
        Some(v) => Some(v as u16),
        None => None,
    }
}

/// The update of the server's attributes, if the name or the icon differs.
/// Only the name is sent: the icon takes part in the decision alone.
pub fn guild_edit(observed: &ObservedGuild, desired: &ServerConfig) -> (r: Option<GuildEdit>)
    ensures
        r is Some <==> guild_update_due(*observed, *desired),
        r matches Some(e) ==> e.name == desired.name,
{
    if observed.name != desired.name || !opt_text_eq(&observed.icon_url, &desired.icon_url) {
        Some(GuildEdit { name: desired.name.clone() })
    } else {
        None
    }
}

fn opt_text_eq(a: &Option<String>, b: &Option<String>) -> (r: bool)
    ensures
        r == (a.deep_view() == b.deep_view()),
{
    match (a, b) {
        (Some(x), Some(y)) => *x == *y,
        (None, None) => true,
        _ => false,
    }
}

/// The request that creates the category `name`.
pub fn category_create(name: &String, c: &CategoryConfig) -> (r: ChannelCreate)
    ensures
        r == category_create_spec(*name, *c),
{
    ChannelCreate {
        kind: ResourceKind::Category,
        name: name.clone(),
        parent: None,
        topic: copy_text(&c.description),
        nsfw: c.nsfw,
        position: None,
    }
}

/// The update of a matched category: due when a description or an NSFW flag
/// is given, whether or not it differs from what the category has.
pub fn category_edit(c: &CategoryConfig) -> (r: Option<ChannelEdit>)
    ensures
        r is Some <==> category_update_due(*c),
        r matches Some(e) ==> e == category_edit_spec(*c),
{
    if c.description.is_some() || c.nsfw.is_some() {
        Some(ChannelEdit { name: None, topic: copy_text(&c.description), nsfw: c.nsfw, position: None })
    } else {
        None
    }
}

/// The request that creates a text channel in category `parent`.
pub fn channel_create(c: &ChannelConfig, parent: u64) -> (r: ChannelCreate)
    ensures
        r == channel_create_spec(*c, parent),
{
    ChannelCreate {
        kind: ResourceKind::Text,
        name: c.name.clone(),
        parent: Some(parent),
        topic: copy_text(&c.topic),
        nsfw: c.nsfw,
        position: to_platform_position(c.position),
    }
}

/// The update of a matched channel, always due: the name is always sent.
pub fn channel_edit(c: &ChannelConfig) -> (r: ChannelEdit)
    ensures
        r == channel_edit_spec(*c),
{
    ChannelEdit {
        name: Some(c.name.clone()),
        topic: copy_text(&c.topic),
        nsfw: c.nsfw,
        position: to_platform_position(c.position),
    }
}

} // verus!
