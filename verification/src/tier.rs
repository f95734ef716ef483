//! Tier classification: which models are tier-1 (production-critical)?
//!
//! Default: any model whose file matches `models/marts/**`. A project may
//! list its own path globs and/or `meta` key/value pairs; a node is tier-1
//! if any path glob matches its file, or if all of the `meta` pairs are
//! present in its `meta` (top-level or `config.meta`).
//!
//! Glob parsing and matching are done by the `globset` crate.

use vstd::prelude::*;

use globset::{Glob, GlobSet, GlobSetBuilder};

use crate::manifest::{self, find_entry, MetaValue, Node};
use crate::text::to_owned;

verus! {

#[verifier::external_type_specification]
#[verifier::external_body]
pub struct ExGlobSet(GlobSet);

#[verifier::external_type_specification]
#[verifier::external_body]
pub struct ExGlobSetBuilder(GlobSetBuilder);

/// Whether `globset::Glob::new` accepts `pattern` (stated for patterns
/// without a backslash).
pub uninterp spec fn glob_parses(pattern: Seq<char>) -> bool;

/// Whether the glob parsed from `pattern` with default options matches
/// `path` (stated for a pattern and a path without a backslash).
pub uninterp spec fn glob_matches(pattern: Seq<char>, path: Seq<char>) -> bool;

/// Whether `globset::GlobSet::new` succeeds on the globs parsed from
/// `patterns` (stated for patterns without a backslash).
pub uninterp spec fn set_builds(patterns: Seq<Seq<char>>) -> bool;

/// The `Display` text of the error that `globset::Glob::new` gives for
/// `pattern` (stated for patterns without a backslash).
pub uninterp spec fn glob_error(pattern: Seq<char>) -> Seq<char>;

/// The `Display` text of the error that `globset::GlobSetBuilder::build`
/// gives for a builder holding the globs of `patterns` (stated for patterns
/// without a backslash).
pub uninterp spec fn set_error(patterns: Seq<Seq<char>>) -> Seq<char>;

/// The patterns added to a `GlobSetBuilder`, in order.
pub uninterp spec fn builder_patterns(b: GlobSetBuilder) -> Seq<Seq<char>>;

/// The patterns a `GlobSet` was built from, in order.
pub uninterp spec fn set_patterns(s: GlobSet) -> Seq<Seq<char>>;

/// `GlobSetBuilder::new`: a builder holding no glob.
#[verifier::external_body]
fn new_glob_builder() -> (b: GlobSetBuilder)
    ensures
        builder_patterns(b) == Seq::<Seq<char>>::empty(),
{
    GlobSetBuilder::new()
}

/// `GlobSetBuilder::add`, given the glob that `Glob::new` parses from
/// `pattern`; the text of `Glob::new`'s error when it does not parse, the
/// builder then unchanged. By default a backslash escapes on Unix and
/// separates paths on Windows, so whether a pattern holding one parses, and
/// the error's text, are not stated.
#[verifier::external_body]
fn add_glob(b: &mut GlobSetBuilder, pattern: &str) -> (r: Result<(), String>)
    ensures
        !has_backslash(pattern@) ==> (r is Ok <==> glob_parses(pattern@)),
        !has_backslash(pattern@) ==> (r matches Err(m) ==> m@ == glob_error(pattern@)),
        r is Ok ==> builder_patterns(*final(b)) == builder_patterns(*old(b)).push(pattern@),
        r is Err ==> builder_patterns(*final(b)) == builder_patterns(*old(b)),
{
    match Glob::new(pattern) {
        Ok(g) => {
            b.add(g);
            Ok(())
        },
        Err(e) => Err(e.to_string()),
    }
}

/// `GlobSetBuilder::build`: a set of the builder's globs, or the text of
/// the error of compiling them; whether it succeeds, and the error's text,
/// are not stated when a pattern holds a backslash.
#[verifier::external_body]
fn build_glob_set(b: &GlobSetBuilder) -> (r: Result<GlobSet, String>)
    ensures
        plain_patterns(builder_patterns(*b)) ==> (r is Ok <==> set_builds(builder_patterns(*b))),
        plain_patterns(builder_patterns(*b)) ==> (r matches Err(m) ==> m@ == set_error(
            builder_patterns(*b),
        )),
        r matches Ok(s) ==> set_patterns(s) == builder_patterns(*b),
{
    match b.build() {
        Ok(s) => Ok(s),
        Err(e) => Err(e.to_string()),
    }
}

/// `GlobSet::is_match`: whether any glob of the set matches `path`. On
/// Windows `globset` first turns backslashes into slashes, and a backslash
/// in a pattern means something else there than on Unix; nothing is stated
/// when the path or a pattern holds one.
#[verifier::external_body]
fn glob_set_is_match(s: &GlobSet, path: &str) -> (r: bool)
    ensures
        plain_patterns(set_patterns(*s)) && !has_backslash(path@) ==> r == (exists|i: int|
            0 <= i < set_patterns(*s).len() && glob_matches(#[trigger] set_patterns(*s)[i], path@)),
{
    s.is_match(path)
}

/// Why a tier configuration could not be built.
pub enum TierError {
    /// A path pattern is not a valid glob.
    InvalidGlob { pattern: String, reason: String },
    /// The globs could not be compiled together.
    Build { reason: String },
}

impl TierError {
    /// The headline of the error, as it is reported.
    pub fn message(&self) -> (r: String)
        ensures
            match self {
                TierError::InvalidGlob { pattern, .. } => r@ == "Invalid glob pattern: "@ + pattern@,
                TierError::Build { reason } => r@ == reason@,
            },
    {
        match self {
            TierError::InvalidGlob { pattern, .. } => {
                let mut s = to_owned("Invalid glob pattern: ");
                crate::text::push_str(&mut s, pattern.as_str());
                s
            },
            TierError::Build { reason } => to_owned(reason.as_str()),
        }
    }
}

/// The `tier_1` section of a tiers file.
pub struct Tier1Spec {
    pub paths: Vec<String>,
    pub meta_match: Vec<(String, MetaValue)>,
}

/// Resolved tier configuration.
pub struct TierConfig {
    paths: GlobSet,
    meta_match: Vec<(String, MetaValue)>,
}

/// The texts of a list of strings.
pub open spec fn texts(v: Seq<String>) -> Seq<Seq<char>> {
    v.map_values(|s: String| s@)
}

/// Whether the entries hold `v` under key `k`.
pub open spec fn holds_pair(entries: Seq<(String, MetaValue)>, k: Seq<char>, v: MetaValue) -> bool {
    match manifest::lookup(entries, k) {
        Some(got) => got@ == v@,
        None => false,
    }
}

/// Whether the node's `meta` or its `config.meta` holds `v` under key `k`.
pub open spec fn carries_pair(node: Node, k: Seq<char>, v: MetaValue) -> bool {
    holds_pair(node.meta@, k, v) || holds_pair(node.config.meta@, k, v)
}

/// Whether `node` carries every configured key/value pair, each in its
/// `meta` or its `config.meta` (and at least one pair is configured).
pub open spec fn meta_matches(node: Node, wanted: Seq<(String, MetaValue)>) -> bool {
    &&& wanted.len() > 0
    &&& forall|i: int|
        0 <= i < wanted.len() ==> carries_pair(node, #[trigger] wanted[i].0@, wanted[i].1)
}

/// Whether `path` holds a backslash.
pub open spec fn has_backslash(path: Seq<char>) -> bool {
    path.contains('\\')
}

/// Whether no pattern holds a backslash.
pub open spec fn plain_patterns(ps: Seq<Seq<char>>) -> bool {
    forall|i: int| 0 <= i < ps.len() ==> !has_backslash(#[trigger] ps[i])
}

/// Whether any of `paths` matches `file`.
pub open spec fn path_matches(paths: Seq<Seq<char>>, file: Seq<char>) -> bool {
    exists|i: int| 0 <= i < paths.len() && glob_matches(#[trigger] paths[i], file)
}

/// Tier-1 membership: a path glob matches the node's file, or the node
/// carries all configured `meta` pairs.
pub open spec fn tier_one(paths: Seq<Seq<char>>, wanted: Seq<(String, MetaValue)>, node: Node) -> bool {
    path_matches(paths, node.original_file_path@) || meta_matches(node, wanted)
}

/// Index of the first pattern that does not parse as a glob (`len` if none).
pub open spec fn first_bad_glob(paths: Seq<Seq<char>>, i: int) -> int
    decreases paths.len() - i,
{
    if i >= paths.len() || !glob_parses(paths[i]) {
        i
    } else {
        first_bad_glob(paths, i + 1)
    }
}

proof fn lemma_first_bad_glob(paths: Seq<Seq<char>>, i: int)
    requires
        0 <= i <= paths.len(),
    ensures
        i <= first_bad_glob(paths, i) <= paths.len(),
        forall|k: int| i <= k < first_bad_glob(paths, i) ==> glob_parses(#[trigger] paths[k]),
        first_bad_glob(paths, i) < paths.len() ==> !glob_parses(paths[first_bad_glob(paths, i)]),
    decreases paths.len() - i,
{
    if i < paths.len() && glob_parses(paths[i]) {
        lemma_first_bad_glob(paths, i + 1);
    }
}

impl TierConfig {
    /// The path globs of this configuration.
    pub closed spec fn paths(&self) -> Seq<Seq<char>> {
        set_patterns(self.paths)
    }

    /// The `meta` pairs of this configuration.
    pub closed spec fn meta(&self) -> Seq<(String, MetaValue)> {
        self.meta_match@
    }

    /// Build the configuration from a tiers file section: every pattern
    /// must parse as a glob (the first one that does not is reported), and
    /// the globs must compile together.
    pub fn from_spec(spec: Tier1Spec) -> (r: Result<TierConfig, TierError>)
        ensures
            r matches Ok(cfg) ==> cfg.paths() == texts(spec.paths@) && cfg.meta() == spec.meta_match@,
            r matches Err(TierError::InvalidGlob { pattern, .. }) ==> exists|i: int|
                0 <= i < spec.paths@.len() && pattern@ == (#[trigger] spec.paths@[i])@,
            plain_patterns(texts(spec.paths@)) ==> match r {
                Ok(cfg) => {
                    &&& first_bad_glob(texts(spec.paths@), 0) == spec.paths@.len()
                    &&& set_builds(texts(spec.paths@))
                },
                Err(TierError::InvalidGlob { pattern, reason }) => {
                    &&& first_bad_glob(texts(spec.paths@), 0) < spec.paths@.len()
                    &&& pattern@ == spec.paths@[first_bad_glob(texts(spec.paths@), 0)]@
                    &&& reason@ == glob_error(pattern@)
                },
                Err(TierError::Build { reason }) => {
                    &&& first_bad_glob(texts(spec.paths@), 0) == spec.paths@.len()
                    &&& !set_builds(texts(spec.paths@))
                    &&& reason@ == set_error(texts(spec.paths@))
                },
            },
    {
        let ghost ps = texts(spec.paths@);
        proof {
            lemma_first_bad_glob(ps, 0);
        }
        let mut builder = new_glob_builder();
        let mut i: usize = 0;
        while i < spec.paths.len()
            invariant
                i <= spec.paths.len(),
                ps == texts(spec.paths@),
                builder_patterns(builder) == ps.subrange(0, i as int),
                plain_patterns(ps) ==> forall|k: int| 0 <= k < i ==> glob_parses(#[trigger] ps[k]),
                0 <= first_bad_glob(ps, 0) <= ps.len(),
                forall|k: int| 0 <= k < first_bad_glob(ps, 0) ==> glob_parses(#[trigger] ps[k]),
                first_bad_glob(ps, 0) < ps.len() ==> !glob_parses(ps[first_bad_glob(ps, 0)]),
            decreases spec.paths.len() - i,
        {
            let pattern = &spec.paths[i];
            match add_glob(&mut builder, pattern.as_str()) {
                Ok(()) => {},
                Err(reason) => {
                    assert(ps[i as int] == pattern@);
                    assert(plain_patterns(ps) ==> first_bad_glob(ps, 0) == i);
                    return Err(TierError::InvalidGlob { pattern: to_owned(pattern.as_str()), reason });
                },
            }
            i = i + 1;
            assert(builder_patterns(builder) =~= ps.subrange(0, i as int));
        }
        assert(ps.subrange(0, i as int) =~= ps);
        assert(plain_patterns(ps) ==> first_bad_glob(ps, 0) == ps.len());
        match build_glob_set(&builder) {
            Ok(set) => Ok(TierConfig { paths: set, meta_match: spec.meta_match }),
            Err(reason) => Err(TierError::Build { reason }),
        }
    }

    /// The default configuration: tier-1 is any model under `models/marts/`.
    pub fn default_marts() -> (r: Result<TierConfig, TierError>)
        ensures
            match r {
                Ok(cfg) => {
                    &&& glob_parses(DEFAULT_TIER_1_GLOB@)
                    &&& set_builds(seq![DEFAULT_TIER_1_GLOB@])
                    &&& cfg.paths() == seq![DEFAULT_TIER_1_GLOB@]
                    &&& cfg.meta().len() == 0
                },
                Err(TierError::InvalidGlob { pattern, reason }) => {
                    &&& !glob_parses(DEFAULT_TIER_1_GLOB@)
                    &&& pattern@ == DEFAULT_TIER_1_GLOB@
                    &&& reason@ == glob_error(DEFAULT_TIER_1_GLOB@)
                },
                Err(TierError::Build { reason }) => {
                    &&& glob_parses(DEFAULT_TIER_1_GLOB@)
                    &&& !set_builds(seq![DEFAULT_TIER_1_GLOB@])
                    &&& reason@ == set_error(seq![DEFAULT_TIER_1_GLOB@])
                },
            },
    {
        let mut paths: Vec<String> = Vec::new();
        paths.push(to_owned(DEFAULT_TIER_1_GLOB));
        let spec = Tier1Spec { paths, meta_match: Vec::new() };
        assert(texts(spec.paths@) =~= seq![DEFAULT_TIER_1_GLOB@]);
        assert(first_bad_glob(seq![DEFAULT_TIER_1_GLOB@], 1) == 1);
        proof {
            reveal_strlit("models/marts/**");
            assert(DEFAULT_TIER_1_GLOB@ == "models/marts/**"@);
            assert(!has_backslash(DEFAULT_TIER_1_GLOB@));
            assert(plain_patterns(seq![DEFAULT_TIER_1_GLOB@]));
        }
        Self::from_spec(spec)
    }

    /// Decide membership given whether a path glob matched the node's file.
    pub fn is_tier_1_given(&self, node: &Node, path_matched: bool) -> (r: bool)
        ensures
            r == (path_matched || meta_matches(*node, self.meta())),
    {
        if path_matched {
            return true;
        }
        if self.meta_match.len() > 0 {
            let mut i: usize = 0;
            while i < self.meta_match.len()
                invariant
                    i <= self.meta_match.len(),
                    !path_matched,
                    self.meta_match@.len() > 0,
                    forall|k: int|
                        0 <= k < i ==> carries_pair(
                            *node,
                            #[trigger] self.meta_match@[k].0@,
                            self.meta_match@[k].1,
                        ),
                decreases self.meta_match.len() - i,
            {
                let key = self.meta_match[i].0.as_str();
                let want = &self.meta_match[i].1;
                let in_meta = match find_entry(&node.meta, key) {
                    Some(v) => v.same_value(want),
                    None => false,
                };
                let in_config = match find_entry(&node.config.meta, key) {
                    Some(v) => v.same_value(want),
                    None => false,
                };
                if !(in_meta || in_config) {
                    assert(!carries_pair(*node, self.meta_match@[i as int].0@, self.meta_match@[i as int].1));
                    assert(!meta_matches(*node, self.meta()));
                    return false;
                }
                i = i + 1;
            }
            return true;
        }
        false
    }

    /// Is this node tier-1? A path glob matches its `original_file_path`, or
    /// it carries all configured `meta` pairs.
    pub fn is_tier_1(&self, node: &Node) -> (r: bool)
        ensures
            plain_patterns(self.paths()) && !has_backslash(node.original_file_path@) ==> (r == tier_one(
                self.paths(),
                self.meta(),
                *node,
            )),
            meta_matches(*node, self.meta()) ==> r,
    {
        let hit = glob_set_is_match(&self.paths, node.original_file_path.as_str());
        self.is_tier_1_given(node, hit)
    }
}

/// The default tier-1 path glob.
pub const DEFAULT_TIER_1_GLOB: &'static str = "models/marts/**";

} // verus!

verus! {

/// Without configured `meta` pairs, tier-1 membership is decided by the
/// path globs alone.
pub proof fn lemma_paths_alone_without_meta(paths: Seq<Seq<char>>, node: Node)
    ensures
        tier_one(paths, Seq::empty(), node) == path_matches(paths, node.original_file_path@),
{
}

/// A node that carries every configured pair (each in `meta` or `config.meta`) is tier-1,
/// whatever its path.
pub proof fn lemma_meta_match_suffices(paths: Seq<Seq<char>>, wanted: Seq<(String, MetaValue)>, node: Node)
    requires
        meta_matches(node, wanted),
    ensures
        tier_one(paths, wanted, node),
{
}

} // verus!
