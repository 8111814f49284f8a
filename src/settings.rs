//! The desired layout of a server: its name, its categories and their channels.
//! Keyed collections are kept as vectors of `(key, value)` pairs in the order
//! they were read; the keys of one collection are distinct.
use vstd::prelude::*;

verus! {

/// The root of a desired configuration.
#[derive(Clone, Debug, PartialEq, Eq)]
pub struct Config {
    /// Configuration related to the server.
    pub server: ServerConfig,
}

/// Configuration for the server, including its name and categories.
#[derive(Clone, Debug, PartialEq, Eq)]
pub struct ServerConfig {
    /// The name of the server.
    pub name: String,
    /// Category names paired with their configurations.
    pub categories: Vec<(String, CategoryConfig)>,
    /// An optional description of the server.
    pub description: Option<String>,
    /// An optional icon URL for the server.
    pub icon_url: Option<String>,
}

/// Configuration for a category, including its channels.
#[derive(Clone, Debug, PartialEq, Eq)]
pub struct CategoryConfig {
    /// Channel keys paired with their configurations.
    pub channels: Vec<(String, ChannelConfig)>,
    /// An optional description of the category.
    pub description: Option<String>,
    /// Whether the category is marked as NSFW.
    pub nsfw: Option<bool>,
}

/// Configuration for an individual channel.
#[derive(Clone, Debug, PartialEq, Eq)]
pub struct ChannelConfig {
    /// The name of the channel; this, not the key it is stored under, is what
    /// the channel is matched and created by.
    pub name: String,
    /// An optional topic for the channel.
    pub topic: Option<String>,
    /// Whether the channel is marked as NSFW.
    pub nsfw: Option<bool>,
    /// The position of the channel within the category.
    pub position: Option<u32>,
    /// The name of a parent category; carried along, never consulted.
    pub parent_category: Option<String>,
}

/// The keys of a list of pairs are pairwise distinct.
pub open spec fn keys_distinct<V>(pairs: Seq<(String, V)>) -> bool {
    forall|i: int, j: int|
        0 <= i < pairs.len() && 0 <= j < pairs.len() && i != j ==> #[trigger] pairs[i].0@
            != #[trigger] pairs[j].0@
}

impl CategoryConfig {
    /// Channel keys are distinct.
    pub open spec fn wf(&self) -> bool {
        keys_distinct(self.channels@)
    }
}

impl ServerConfig {
    /// Category keys are distinct, and so are the channel keys of each category.
    pub open spec fn wf(&self) -> bool {
        &&& keys_distinct(self.categories@)
        &&& forall|i: int| 0 <= i < self.categories@.len() ==> (#[trigger] self.categories@[i]).1.wf()
    }
}

impl Config {
    pub open spec fn wf(&self) -> bool {
        self.server.wf()
    }
}

} // verus!
