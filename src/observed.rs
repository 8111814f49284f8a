//! The server as it was observed, and the matching of desired resources
//! against it.
use vstd::prelude::*;

verus! {

/// What kind of resource an observed entry is.
#[derive(Clone, Copy, PartialEq, Eq, Debug, Structural)]
pub enum ResourceKind {
    Category,
    Text,
    Other,
}

impl ResourceKind {
    pub fn is_category(&self) -> (r: bool)
        ensures
            r == (*self == ResourceKind::Category),
    {
        *self == ResourceKind::Category
    }

    pub fn is_text_channel(&self) -> (r: bool)
        ensures
            r == (*self == ResourceKind::Text),
    {
        *self == ResourceKind::Text
    }
}

/// One category or channel of the server.
#[derive(Clone, Debug, PartialEq, Eq)]
pub struct ObservedResource {
    pub id: u64,
    pub kind: ResourceKind,
    pub name: String,
    /// The category a channel sits in.
    pub parent_id: Option<u64>,
}

/// The server's attributes and its resources, in a stable enumeration order.
/// Resources created during a pass are appended.
#[derive(Clone, Debug, PartialEq, Eq)]
pub struct ObservedGuild {
    pub name: String,
    pub icon_url: Option<String>,
    pub resources: Vec<ObservedResource>,
}

/// No two resources share an id.
pub open spec fn ids_distinct(rs: Seq<ObservedResource>) -> bool {
    forall|i: int, j: int| 0 <= i < rs.len() && 0 <= j < rs.len() && i != j ==> #[trigger] rs[i].id != #[trigger] rs[j].id
}

impl ObservedGuild {
    /// Resources are keyed by their remote id: the ids are distinct.
    pub open spec fn wf(&self) -> bool {
        ids_distinct(self.resources@)
    }
}

/// Whether `r` answers a search for a resource of `kind` named `name`, in
/// the category `parent` when one is given.
pub open spec fn answers(r: ObservedResource, kind: ResourceKind, name: Seq<char>, parent: Option<u64>) -> bool {
    &&& r.kind == kind
    &&& r.name@ == name
    &&& parent is Some ==> r.parent_id == parent
}

/// The id of the first resource of `rs` that answers the search.
pub open spec fn first_match(
    rs: Seq<ObservedResource>,
    kind: ResourceKind,
    name: Seq<char>,
    parent: Option<u64>,
) -> Option<u64>
    decreases rs.len(),
{
    if rs.len() == 0 {
        None
    } else if answers(rs[0], kind, name, parent) {
        Some(rs[0].id)
    } else {
        first_match(rs.drop_first(), kind, name, parent)
    }
}

/// The category that a desired category named `name` corresponds to.
pub open spec fn category_match(rs: Seq<ObservedResource>, name: Seq<char>) -> Option<u64> {
    first_match(rs, ResourceKind::Category, name, None)
}

/// The text channel of category `parent` that a desired channel named `name`
/// corresponds to.
pub open spec fn channel_match(rs: Seq<ObservedResource>, name: Seq<char>, parent: u64) -> Option<u64> {
    first_match(rs, ResourceKind::Text, name, Some(parent))
}

/// Skipping a resource that does not answer leaves the first match as it was.
proof fn lemma_first_match_skip(
    rs: Seq<ObservedResource>,
    i: int,
    kind: ResourceKind,
    name: Seq<char>,
    parent: Option<u64>,
)
    requires
        0 <= i < rs.len(),
        !answers(rs[i], kind, name, parent),
    ensures
        first_match(rs.subrange(i, rs.len() as int), kind, name, parent) == first_match(
            rs.subrange(i + 1, rs.len() as int),
            kind,
            name,
            parent,
        ),
{
    assert(rs.subrange(i, rs.len() as int).drop_first() =~= rs.subrange(i + 1, rs.len() as int));
}

/// Appending a resource changes the first match only where there was none.
pub proof fn lemma_first_match_push(
    rs: Seq<ObservedResource>,
    r: ObservedResource,
    kind: ResourceKind,
    name: Seq<char>,
    parent: Option<u64>,
)
    ensures
        first_match(rs.push(r), kind, name, parent) == (match first_match(rs, kind, name, parent) {
            Some(id) => Some(id),
            None => if answers(r, kind, name, parent) {
                Some(r.id)
            } else {
                None
            },
        }),
    decreases rs.len(),
{
    if rs.len() > 0 {
        assert(rs.push(r).drop_first() =~= rs.drop_first().push(r));
        assert(rs.push(r)[0] == rs[0]);
        lemma_first_match_push(rs.drop_first(), r, kind, name, parent);
    } else {
        assert(rs.push(r).drop_first() =~= Seq::<ObservedResource>::empty());
        assert(rs.push(r)[0] == r);
        assert(first_match(Seq::<ObservedResource>::empty(), kind, name, parent) is None);
    }
}

/// A first match is the id of a resource that answers the search.
pub proof fn lemma_first_match_answers(
    rs: Seq<ObservedResource>,
    kind: ResourceKind,
    name: Seq<char>,
    parent: Option<u64>,
)
    ensures
        first_match(rs, kind, name, parent) matches Some(id) ==> exists|i: int|
            0 <= i < rs.len() && #[trigger] rs[i].id == id && answers(rs[i], kind, name, parent),
        first_match(rs, kind, name, parent) is None ==> forall|i: int|
            0 <= i < rs.len() ==> !answers(#[trigger] rs[i], kind, name, parent),
    decreases rs.len(),
{
    if rs.len() > 0 {
        let t = rs.drop_first();
        lemma_first_match_answers(t, kind, name, parent);
        if !answers(rs[0], kind, name, parent) {
            if let Some(id) = first_match(t, kind, name, parent) {
                let j = choose|j: int| 0 <= j < t.len() && #[trigger] t[j].id == id && answers(t[j], kind, name, parent);
                assert(rs[j + 1] == t[j]);
            } else {
                assert forall|i: int| 0 <= i < rs.len() implies !answers(#[trigger] rs[i], kind, name, parent) by {
                    if i > 0 {
                        assert(rs[i] == t[i - 1]);
                    }
                }
            }
        }
    }
}

fn find_resource(rs: &Vec<ObservedResource>, kind: ResourceKind, name: &String, parent: Option<u64>) -> (r: Option<u64>)
    ensures
        r == first_match(rs@, kind, name@, parent),
{
    let mut i: usize = 0;
    assert(rs@.subrange(0, rs@.len() as int) =~= rs@);
    while i < rs.len()
        invariant
            i <= rs@.len(),
            first_match(rs@.subrange(i as int, rs@.len() as int), kind, name@, parent) == first_match(
                rs@,
                kind,
                name@,
                parent,
            ),
        decreases rs.len() - i,
    {
        let c = &rs[i];
        let in_scope = match parent {
            Some(p) => c.parent_id == Some(p),
            None => true,
        };
        if c.kind == kind && c.name == *name && in_scope {
            assert(rs@.subrange(i as int, rs@.len() as int)[0] == rs@[i as int]);
            return Some(c.id);
        }
        assert(!answers(rs@[i as int], kind, name@, parent));
        proof {
            lemma_first_match_skip(rs@, i as int, kind, name@, parent);
        }
        i = i + 1;
    }
    None
}

/// The id of the first category named exactly `name`, if any.
pub fn find_category(name: &String, observed: &Vec<ObservedResource>) -> (r: Option<u64>)
    ensures
        r == category_match(observed@, name@),
{
    find_resource(observed, ResourceKind::Category, name, None)
}

/// The id of the first text channel named exactly `name` whose parent is
/// `category_id`, if any.
pub fn find_channel(name: &String, category_id: u64, observed: &Vec<ObservedResource>) -> (r: Option<u64>)
    ensures
        r == channel_match(observed@, name@, category_id),
{
    find_resource(observed, ResourceKind::Text, name, Some(category_id))
}

} // verus!
