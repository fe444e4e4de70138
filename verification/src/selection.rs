//! Glob selection of manifest resources.
//!
//! An optional list of glob patterns decides which resources are
//! downloaded: absent a list, everything is selected; with one, a resource
//! is selected when any pattern matches its destination path. Pattern
//! compilation and matching are done by the `globset` crate; this module
//! states what those calls return and verifies the selection logic around
//! them. A malformed pattern is a terminal startup error.
use crate::cdn::Resource;
use vstd::prelude::*;

verus! {

#[verifier::external_type_specification]
#[verifier::external_body]
pub struct ExGlob(globset::Glob);

#[verifier::external_type_specification]
#[verifier::external_body]
pub struct ExGlobSetBuilder(globset::GlobSetBuilder);

#[verifier::external_type_specification]
#[verifier::external_body]
pub struct ExGlobSet(globset::GlobSet);

#[verifier::external_type_specification]
#[verifier::external_body]
pub struct ExGlobError(globset::Error);

/// The pattern text a compiled `globset::Glob` holds (its `glob` field).
pub uninterp spec fn glob_pattern(g: globset::Glob) -> Seq<char>;

/// The pattern texts a `globset::GlobSetBuilder` has collected so far, in
/// insertion order (its `pats` field).
pub uninterp spec fn builder_patterns(b: globset::GlobSetBuilder) -> Seq<Seq<char>>;

/// The pattern texts a built `globset::GlobSet` matches against.
pub uninterp spec fn globset_patterns(s: globset::GlobSet) -> Seq<Seq<char>>;

/// What `globset::GlobSet::is_match` returns: whether any of `patterns`
/// matches `path` under globset's matching semantics. The result is a
/// function of the patterns and the path alone.
pub uninterp spec fn glob_match(patterns: Seq<Seq<char>>, path: Seq<char>) -> bool;

/// Whether `globset::Glob::new` accepts `pattern` as a well-formed glob;
/// parsing is deterministic, so this is a function of the pattern text
/// alone.
pub uninterp spec fn glob_ok(pattern: Seq<char>) -> bool;

/// Whether `globset::GlobSetBuilder::build` can compile the collected
/// `patterns` into a matcher; compilation is deterministic, so this is a
/// function of the pattern texts alone.
pub uninterp spec fn set_ok(patterns: Seq<Seq<char>>) -> bool;

/// Relies on `globset::Glob::new`: parses one glob pattern, succeeding
/// exactly on the well-formed ones; the compiled glob holds exactly the
/// given pattern text, and a malformed pattern is rejected with an error.
#[verifier::external_body]
fn glob_new(pattern: &str) -> (r: Result<globset::Glob, globset::Error>)
    ensures
        r is Ok <==> glob_ok(pattern@),
        r matches Ok(g) ==> glob_pattern(g) == pattern@,
{
    globset::Glob::new(pattern)
}

/// Relies on `globset::GlobSetBuilder::new`: a fresh builder holds no
/// patterns.
#[verifier::external_body]
fn builder_new() -> (r: globset::GlobSetBuilder)
    ensures
        builder_patterns(r) == Seq::<Seq<char>>::empty(),
{
    globset::GlobSetBuilder::new()
}

/// Relies on `globset::GlobSetBuilder::add`: appends the glob's pattern to
/// the builder's collection.
#[verifier::external_body]
fn builder_add(b: &mut globset::GlobSetBuilder, g: globset::Glob)
    ensures
        builder_patterns(*final(b)) == builder_patterns(*old(b)).push(glob_pattern(g)),
{
    b.add(g);
}

/// Relies on `globset::GlobSetBuilder::build`: compiles the collected
/// patterns, succeeding exactly when they can be compiled; on success the
/// set matches against exactly those patterns.
#[verifier::external_body]
fn builder_build(b: &globset::GlobSetBuilder) -> (r: Result<globset::GlobSet, globset::Error>)
    ensures
        r is Ok <==> set_ok(builder_patterns(*b)),
        r matches Ok(s) ==> globset_patterns(s) == builder_patterns(*b),
{
    b.build()
}

/// Relies on `globset::GlobSet::is_match`: true iff any pattern in the set
/// matches the path; an empty set matches nothing.
#[verifier::external_body]
fn globset_is_match(s: &globset::GlobSet, path: &str) -> (r: bool)
    ensures
        r == glob_match(globset_patterns(*s), path@),
        globset_patterns(*s).len() == 0 ==> r == false,
{
    s.is_match(path)
}

/// Why the selection filter could not be compiled.
#[derive(Debug, Clone, Copy, PartialEq, Eq, Structural)]
pub enum FilterError {
    /// Some pattern of the given list was rejected by the glob compiler.
    InvalidPattern,
}

/// The compiled selection filter: either "select everything" (no pattern
/// list was given) or a compiled set of glob patterns.
pub struct SelectionFilter {
    set: Option<globset::GlobSet>,
}

impl SelectionFilter {
    /// The pattern texts this filter was compiled from; `None` when no
    /// pattern list was given.
    pub closed spec fn patterns(&self) -> Option<Seq<Seq<char>>> {
        match self.set {
            Some(s) => Some(globset_patterns(s)),
            None => None,
        }
    }

    /// Whether this filter selects `path`: everything is selected when no
    /// pattern list was given, otherwise any matching pattern selects.
    pub open spec fn selects(&self, path: Seq<char>) -> bool {
        match self.patterns() {
            None => true,
            Some(ps) => glob_match(ps, path),
        }
    }
}

/// The pattern list as pattern texts.
pub open spec fn pattern_views(patterns: Seq<String>) -> Seq<Seq<char>> {
    patterns.map_values(|p: String| p@)
}

/// Every pattern of the list is a well-formed glob.
pub open spec fn all_globs_ok(patterns: Seq<Seq<char>>) -> bool {
    forall|i: int| 0 <= i < patterns.len() ==> glob_ok(#[trigger] patterns[i])
}

/// Compiles an optional pattern list into a selection filter. Without a
/// list the filter selects everything, and compilation cannot fail; with
/// one, compilation succeeds exactly when every pattern is a well-formed
/// glob and the list compiles into a matcher, and the filter then selects
/// exactly what some pattern of the list matches.
pub fn compile_filter(patterns: Option<&Vec<String>>) -> (r: Result<
    SelectionFilter,
    FilterError,
>)
    ensures
        patterns is None ==> (r matches Ok(f) && f.patterns() is None),
        patterns matches Some(ps) ==> (r matches Ok(f) ==> f.patterns() == Some(
            pattern_views(ps@),
        )),
        patterns matches Some(ps) ==> ((r is Ok) <==> (all_globs_ok(pattern_views(ps@))
            && set_ok(pattern_views(ps@)))),
        r is Err ==> patterns is Some,
{
    match patterns {
        None => Ok(SelectionFilter { set: None }),
        Some(ps) => {
            let mut b = builder_new();
            let n = ps.len();
            for k in 0..n
                invariant
                    patterns == Some(ps),
                    n == ps@.len(),
                    builder_patterns(b) == pattern_views(ps@.subrange(0, k as int)),
                    forall|i: int| 0 <= i < k ==> glob_ok((#[trigger] ps@[i])@),
            {
                let g = match glob_new(ps[k].as_str()) {
                    Ok(g) => g,
                    Err(_) => {
                        proof {
                            assert(pattern_views(ps@)[k as int] == ps@[k as int]@);
                            assert(!all_globs_ok(pattern_views(ps@)));
                        }
                        return Err(FilterError::InvalidPattern);
                    },
                };
                builder_add(&mut b, g);
                proof {
                    assert(pattern_views(ps@.subrange(0, k + 1)) =~= pattern_views(
                        ps@.subrange(0, k as int),
                    ).push(ps@[k as int]@));
                }
            }
            proof {
                assert(ps@.subrange(0, n as int) =~= ps@);
                assert forall|i: int|
                    0 <= i < pattern_views(ps@).len() implies glob_ok(
                    #[trigger] pattern_views(ps@)[i],
                ) by {
                    assert(pattern_views(ps@)[i] == ps@[i]@);
                }
            }
            match builder_build(&b) {
                Ok(s) => Ok(SelectionFilter { set: Some(s) }),
                Err(_) => Err(FilterError::InvalidPattern),
            }
        },
    }
}

/// The subsequence of `rs` whose destinations `f` selects, in order.
pub open spec fn selected(f: SelectionFilter, rs: Seq<Resource>) -> Seq<Resource>
    decreases rs.len(),
{
    if rs.len() == 0 {
        Seq::empty()
    } else {
        let pre = selected(f, rs.drop_last());
        if f.selects(rs.last().dest@) {
            pre.push(rs.last())
        } else {
            pre
        }
    }
}

/// Absent a pattern list the filter is the identity: every resource is
/// selected, in order.
pub proof fn lemma_no_patterns_selects_all(f: SelectionFilter, rs: Seq<Resource>)
    requires
        f.patterns() is None,
    ensures
        selected(f, rs) == rs,
    decreases rs.len(),
{
    if rs.len() == 0 {
        assert(selected(f, rs) =~= rs);
    } else {
        lemma_no_patterns_selects_all(f, rs.drop_last());
        assert(selected(f, rs) =~= rs);
    }
}

/// Keeps exactly the resources whose destination path the filter selects,
/// in their manifest order.
pub fn filter_resources(resources: &Vec<Resource>, f: &SelectionFilter) -> (kept: Vec<Resource>)
    ensures
        kept@ == selected(*f, resources@),
{
    let mut kept: Vec<Resource> = Vec::new();
    let n = resources.len();
    for k in 0..n
        invariant
            n == resources@.len(),
            kept@ == selected(*f, resources@.subrange(0, k as int)),
    {
        let keep = match &f.set {
            None => true,
            Some(s) => globset_is_match(s, resources[k].dest.as_str()),
        };
        if keep {
            kept.push(resources[k].duplicate());
        }
        proof {
            assert(resources@.subrange(0, k + 1).drop_last() =~= resources@.subrange(0, k as int));
            assert(resources@.subrange(0, k + 1).last() == resources@[k as int]);
        }
    }
    proof {
        assert(resources@.subrange(0, n as int) =~= resources@);
    }
    kept
}

} // verus!
