//! The manifest data that the governance checks look at.
//!
//! A JSON object is held as a list of `(key, value)` entries. Lists built
//! from a JSON object have distinct keys; where a list repeats a key, the
//! later entry wins, as it would when the entries are collected into a map.

use vstd::prelude::*;

use crate::text::{self, same_text, trimmed};

verus! {

/// A value of a `meta` dictionary, as the checks compare and read it.
/// Numbers, arrays and objects are held in their compact JSON rendering,
/// so that two values are equal exactly when their renderings are.
pub enum MetaValue {
    Null,
    Bool(bool),
    Text(String),
    Number(String),
    Nested(String),
}

/// The mathematical content of a [`MetaValue`].
pub enum MetaView {
    Null,
    Bool(bool),
    Text(Seq<char>),
    Number(Seq<char>),
    Nested(Seq<char>),
}

impl View for MetaValue {
    type V = MetaView;

    open spec fn view(&self) -> MetaView {
        match self {
            MetaValue::Null => MetaView::Null,
            MetaValue::Bool(b) => MetaView::Bool(*b),
            MetaValue::Text(s) => MetaView::Text(s@),
            MetaValue::Number(s) => MetaView::Number(s@),
            MetaValue::Nested(s) => MetaView::Nested(s@),
        }
    }
}

impl MetaValue {
    /// Whether two values are the same JSON value.
    pub fn same_value(&self, other: &MetaValue) -> (r: bool)
        ensures
            r == (self@ == other@),
    {
        match (self, other) {
            (MetaValue::Null, MetaValue::Null) => true,
            (MetaValue::Bool(a), MetaValue::Bool(b)) => *a == *b,
            (MetaValue::Text(a), MetaValue::Text(b)) => same_text(a.as_str(), b.as_str()),
            (MetaValue::Number(a), MetaValue::Number(b)) => same_text(a.as_str(), b.as_str()),
            (MetaValue::Nested(a), MetaValue::Nested(b)) => same_text(a.as_str(), b.as_str()),
            _ => false,
        }
    }
}

/// A column declared in `schema.yml`.
pub struct Column {
    pub name: String,
    pub description: String,
}

/// The post-merge model config; only its `meta` dictionary is read.
pub struct NodeConfig {
    pub meta: Vec<(String, MetaValue)>,
}

impl NodeConfig {
    /// A config with an empty `meta` dictionary.
    pub fn empty() -> (r: NodeConfig)
        ensures
            r.meta@.len() == 0,
    {
        NodeConfig { meta: Vec::new() }
    }
}

/// A node of `manifest.nodes`: a model, test, seed, snapshot or analysis.
pub struct Node {
    pub name: String,
    pub resource_type: String,
    pub package_name: String,
    /// Source-relative path, e.g. `marts/fct_revenue.sql`.
    pub path: String,
    /// Project-root-relative path, e.g. `models/marts/fct_revenue.sql`.
    pub original_file_path: String,
    /// The node's own `meta` dictionary.
    pub meta: Vec<(String, MetaValue)>,
    pub config: NodeConfig,
    /// Columns declared in `schema.yml`, keyed by column name.
    pub columns: Vec<(String, Column)>,
}

/// The nodes of a manifest, keyed by unique id.
pub struct Manifest {
    pub nodes: Vec<(String, Node)>,
}

/// The value stored under `key` in a list of entries (the last entry with
/// that key), if any.
pub open spec fn lookup(entries: Seq<(String, MetaValue)>, key: Seq<char>) -> Option<MetaValue>
    decreases entries.len(),
{
    if entries.len() == 0 {
        None
    } else if entries.last().0@ == key {
        Some(entries.last().1)
    } else {
        lookup(entries.drop_last(), key)
    }
}

/// The owner recorded under `owner` in a list of entries: present only
/// when that value is a string that is not blank.
pub open spec fn owner_in(entries: Seq<(String, MetaValue)>) -> Option<Seq<char>> {
    match lookup(entries, "owner"@) {
        Some(MetaValue::Text(s)) => if text::is_blank(s@) {
            None
        } else {
            Some(s@)
        },
        _ => None,
    }
}

/// The owner of a node: a non-blank string `meta.owner`, or else a
/// non-blank string `config.meta.owner`.
pub open spec fn owner_of(node: Node) -> Option<Seq<char>> {
    match owner_in(node.meta@) {
        Some(s) => Some(s),
        None => owner_in(node.config.meta@),
    }
}

/// Whether a node is a dbt model.
pub open spec fn is_model(node: Node) -> bool {
    node.resource_type@ == "model"@
}

/// The models among `entries`, in order.
pub open spec fn models_in(entries: Seq<(String, Node)>) -> Seq<Node>
    decreases entries.len(),
{
    if entries.len() == 0 {
        Seq::empty()
    } else if is_model(entries.last().1) {
        models_in(entries.drop_last()).push(entries.last().1)
    } else {
        models_in(entries.drop_last())
    }
}

/// Find the entry with key `key` (the last one), if any.
pub fn find_entry<'a>(entries: &'a Vec<(String, MetaValue)>, key: &str) -> (r: Option<
    &'a MetaValue,
>)
    ensures
        match r {
            Some(v) => lookup(entries@, key@) == Some(*v),
            None => lookup(entries@, key@) is None,
        },
{
    let mut i = entries.len();
    proof {
        lemma_whole_subrange(entries@);
    }
    while i > 0
        invariant
            i <= entries.len(),
            lookup(entries@, key@) == lookup(entries@.subrange(0, i as int), key@),
        decreases i,
    {
        assert(entries@.subrange(0, i as int).drop_last() =~= entries@.subrange(0, i - 1));
        if same_text(entries[i - 1].0.as_str(), key) {
            return Some(&entries[i - 1].1);
        }
        i = i - 1;
    }
    None
}

proof fn lemma_whole_subrange<T>(s: Seq<T>)
    ensures
        s.subrange(0, s.len() as int) =~= s,
{
}

impl Manifest {
    /// The nodes that are dbt models (tests, seeds and the rest left out),
    /// in the order of `nodes`.
    pub fn models(&self) -> (r: Vec<&Node>)
        ensures
            r@.len() == models_in(self.nodes@).len(),
            forall|i: int| 0 <= i < r@.len() ==> *r@[i] == models_in(self.nodes@)[i],
    {
        let mut r: Vec<&Node> = Vec::new();
        let mut i: usize = 0;
        while i < self.nodes.len()
            invariant
                i <= self.nodes.len(),
                r@.len() == models_in(self.nodes@.subrange(0, i as int)).len(),
                forall|k: int|
                    0 <= k < r@.len() ==> *r@[k] == models_in(self.nodes@.subrange(0, i as int))[k],
            decreases self.nodes.len() - i,
        {
            assert(self.nodes@.subrange(0, i + 1).drop_last() =~= self.nodes@.subrange(0, i as int));
            if same_text(self.nodes[i].1.resource_type.as_str(), "model") {
                r.push(&self.nodes[i].1);
            }
            i = i + 1;
        }
        proof {
            lemma_whole_subrange(self.nodes@);
        }
        r
    }
}

/// The owner recorded under `owner` in `entries`, if it is a non-blank string.
fn owner_entry(entries: &Vec<(String, MetaValue)>) -> (r: Option<&str>)
    ensures
        match r {
            Some(s) => owner_in(entries@) == Some(s@),
            None => owner_in(entries@) is None,
        },
{
    match find_entry(entries, "owner") {
        Some(MetaValue::Text(s)) => {
            let t = trimmed(s.as_str());
            proof {
                crate::text::lemma_trim(s@);
            }
            if t.as_str().is_empty() {
                None
            } else {
                Some(s.as_str())
            }
        },
        _ => None,
    }
}

impl Node {
    /// The owner of this model: a non-blank string `meta.owner`, else a
    /// non-blank string `config.meta.owner`; `None` when neither holds one.
    pub fn owner(&self) -> (r: Option<&str>)
        ensures
            match r {
                Some(s) => owner_of(*self) == Some(s@),
                None => owner_of(*self) is None,
            },
    {
        match owner_entry(&self.meta) {
            Some(s) => Some(s),
            None => owner_entry(&self.config.meta),
        }
    }
}

} // verus!

verus! {

/// Whether no key occurs twice among `entries`, as in the JSON objects a
/// manifest is read from.
pub open spec fn unique_keys<V>(entries: Seq<(String, V)>) -> bool {
    forall|i: int, j: int|
        0 <= i < j < entries.len() ==> (#[trigger] entries[i]).0@ != (#[trigger] entries[j]).0@
}

impl Node {
    /// A node as a manifest holds it: its `meta`, `config.meta` and
    /// `columns` are maps, each key occurring once.
    pub open spec fn well_formed(self) -> bool {
        &&& unique_keys(self.meta@)
        &&& unique_keys(self.config.meta@)
        &&& unique_keys(self.columns@)
    }
}

impl Manifest {
    /// A manifest as read from its file: node ids occur once, and every
    /// node is well formed.
    pub open spec fn well_formed(self) -> bool {
        &&& unique_keys(self.nodes@)
        &&& forall|i: int| 0 <= i < self.nodes@.len() ==> (#[trigger] self.nodes@[i]).1.well_formed()
    }
}

/// Where each key occurs once, looking a key up finds exactly the value
/// stored under it, as in a map, whichever order the entries come in.
pub proof fn lemma_lookup_as_map(entries: Seq<(String, MetaValue)>, key: Seq<char>, v: MetaValue)
    requires
        unique_keys(entries),
    ensures
        lookup(entries, key) == Some(v) <==> exists|i: int|
            0 <= i < entries.len() && (#[trigger] entries[i]).0@ == key && entries[i].1 == v,
        lookup(entries, key) is None <==> forall|i: int|
            0 <= i < entries.len() ==> (#[trigger] entries[i]).0@ != key,
    decreases entries.len(),
{
    if entries.len() > 0 {
        let rest = entries.drop_last();
        assert(unique_keys(rest)) by {
            assert forall|i: int, j: int| 0 <= i < j < rest.len() implies (#[trigger] rest[i]).0@ != (
            #[trigger] rest[j]).0@ by {
                assert(rest[i] == entries[i] && rest[j] == entries[j]);
            }
        }
        lemma_lookup_as_map(rest, key, v);
        let l = entries.len() - 1;
        assert(entries.last() == entries[l]);
        if entries.last().0@ == key {
            assert forall|i: int| 0 <= i < entries.len() && (#[trigger] entries[i]).0@ == key implies i == l by {
                if i < l {
                    assert(entries[i].0@ != entries[l].0@);
                }
            }
        } else {
            assert forall|i: int| 0 <= i < rest.len() implies (#[trigger] rest[i]) == entries[i] by {}
            if exists|i: int| 0 <= i < entries.len() && (#[trigger] entries[i]).0@ == key && entries[i].1 == v {
                let i = choose|i: int| 0 <= i < entries.len() && (#[trigger] entries[i]).0@ == key && entries[i].1 == v;
                assert(i != l);
                assert(rest[i] == entries[i]);
            }
            if forall|i: int| 0 <= i < rest.len() ==> (#[trigger] rest[i]).0@ != key {
                assert forall|i: int| 0 <= i < entries.len() implies (#[trigger] entries[i]).0@ != key by {
                    if i < l {
                        assert(rest[i] == entries[i]);
                    }
                }
            }
            if exists|i: int| 0 <= i < entries.len() && (#[trigger] entries[i]).0@ == key {
                let i = choose|i: int| 0 <= i < entries.len() && (#[trigger] entries[i]).0@ == key;
                assert(rest[i] == entries[i]);
            }
        }
    }
}

} // verus!

verus! {

/// How a model's owner is found: a string under `owner` in its own `meta`
/// that is not blank; failing that, such a string in its `config.meta`;
/// otherwise there is none. An owner is never blank.
pub proof fn lemma_owner_resolution(node: Node)
    ensures
        owner_of(node) matches Some(s) ==> !text::is_blank(s),
        forall|s: String|
            lookup(node.meta@, "owner"@) == Some(MetaValue::Text(s)) && !text::is_blank(s@)
                ==> owner_of(node) == Some(s@),
        !(exists|s: String|
            lookup(node.meta@, "owner"@) == Some(MetaValue::Text(s)) && !text::is_blank(s@))
            ==> forall|c: String|
            lookup(node.config.meta@, "owner"@) == Some(MetaValue::Text(c)) && !text::is_blank(c@)
                ==> owner_of(node) == Some(c@),
        !(exists|s: String|
            lookup(node.meta@, "owner"@) == Some(MetaValue::Text(s)) && !text::is_blank(s@)) && !(
        exists|c: String|
            lookup(node.config.meta@, "owner"@) == Some(MetaValue::Text(c)) && !text::is_blank(c@))
            ==> owner_of(node) is None,
{
    match lookup(node.meta@, "owner"@) {
        Some(MetaValue::Text(s)) => {
            if !text::is_blank(s@) {
                assert(exists|s2: String|
                    lookup(node.meta@, "owner"@) == Some(MetaValue::Text(s2)) && !text::is_blank(s2@));
            }
        },
        _ => {},
    }
    match lookup(node.config.meta@, "owner"@) {
        Some(MetaValue::Text(c)) => {
            if !text::is_blank(c@) {
                assert(exists|c2: String|
                    lookup(node.config.meta@, "owner"@) == Some(MetaValue::Text(c2)) && !text::is_blank(c2@));
            }
        },
        _ => {},
    }
}

} // verus!
