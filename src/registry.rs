//! The plugin registry: the loaded plugins, the shared persistence handle,
//! and how a refresh replaces the plugins while isolating each failure.

use vstd::prelude::*;
use crate::plugin::Plugin;

verus! {

/// Host-wide settings.
pub struct MichelConfig {
    pub name: String,
    pub plugins_path: String,
}

/// Why a candidate plugin did not join the registry.
#[derive(Debug)]
pub enum RefreshFailure<E> {
    /// Loading it failed.
    Load(E),
    /// A plugin loaded before it in the same refresh has this identifier.
    DuplicateIdentifier(String),
}

/// Some plugin of `s` has the identifier `id`.
pub open spec fn has_identifier<I>(s: Seq<Plugin<I>>, id: Seq<char>) -> bool {
    exists|i: int| 0 <= i < s.len() && (#[trigger] s[i]).info_spec().identifier@ == id
}

/// No two plugins of `s` share an identifier.
pub open spec fn identifiers_unique<I>(s: Seq<Plugin<I>>) -> bool {
    forall|i: int, j: int|
        0 <= i < j < s.len() ==> (#[trigger] s[i]).info_spec().identifier@
            != (#[trigger] s[j]).info_spec().identifier@
}

/// The plugins that a refresh keeps from the load outcomes, in load order:
/// each one that loaded, unless an earlier one has its identifier.
pub open spec fn loaded<I, E>(s: Seq<Result<Plugin<I>, E>>) -> Seq<Plugin<I>>
    decreases s.len(),
{
    if s.len() == 0 {
        Seq::empty()
    } else {
        let prev = loaded(s.drop_last());
        match s.last() {
            Ok(p) => if has_identifier(prev, p.info_spec().identifier@) {
                prev
            } else {
                prev.push(p)
            },
            Err(_) => prev,
        }
    }
}

/// The failures that a refresh reports, in load order.
pub open spec fn refresh_failures<I, E>(s: Seq<Result<Plugin<I>, E>>) -> Seq<RefreshFailure<E>>
    decreases s.len(),
{
    if s.len() == 0 {
        Seq::empty()
    } else {
        let prev = refresh_failures(s.drop_last());
        match s.last() {
            Ok(p) => if has_identifier(loaded(s.drop_last()), p.info_spec().identifier@) {
                prev.push(RefreshFailure::DuplicateIdentifier(p.info_spec().identifier))
            } else {
                prev
            },
            Err(e) => prev.push(RefreshFailure::Load(e)),
        }
    }
}

/// How many outcomes are load failures.
pub open spec fn count_errors<I, E>(s: Seq<Result<Plugin<I>, E>>) -> nat
    decreases s.len(),
{
    if s.len() == 0 {
        0
    } else {
        count_errors(s.drop_last()) + if s.last() is Err {
            1nat
        } else {
            0nat
        }
    }
}

/// The plugins that loaded have pairwise distinct identifiers.
pub open spec fn loaded_identifiers_distinct<I, E>(s: Seq<Result<Plugin<I>, E>>) -> bool {
    forall|i: int, j: int|
        0 <= i < j < s.len() && (#[trigger] s[i]) is Ok && (#[trigger] s[j]) is Ok ==> s[i]->Ok_0.info_spec().identifier@
            != s[j]->Ok_0.info_spec().identifier@
}

/// `p` is the plugin of one of the outcomes.
pub open spec fn loaded_from<I, E>(s: Seq<Result<Plugin<I>, E>>, p: Plugin<I>) -> bool {
    exists|i: int| 0 <= i < s.len() && (#[trigger] s[i]) == Ok::<Plugin<I>, E>(p)
}

/// Every plugin that a refresh keeps is the plugin of one of the outcomes
/// that loaded, and no two kept plugins share an identifier.
pub proof fn lemma_loaded_sources<I, E>(s: Seq<Result<Plugin<I>, E>>)
    ensures
        forall|k: int| 0 <= k < loaded(s).len() ==> loaded_from(s, #[trigger] loaded(s)[k]),
        identifiers_unique(loaded(s)),
    decreases s.len(),
{
    if s.len() > 0 {
        let init = s.drop_last();
        lemma_loaded_sources(init);
        let l = loaded(s);
        let pl = loaded(init);
        assert forall|k: int| 0 <= k < l.len() implies loaded_from(s, #[trigger] l[k]) by {
            if k < pl.len() {
                assert(loaded_from(init, pl[k]));
                let i = choose|i: int| 0 <= i < init.len() && (#[trigger] init[i]) == Ok::<Plugin<I>, E>(pl[k]);
                assert(s[i] == init[i]);
                assert(l[k] == pl[k]);
            } else {
                assert(s[s.len() - 1] == Ok::<Plugin<I>, E>(l[k]));
            }
        }
        match s.last() {
            Ok(p) => {
                if !has_identifier(pl, p.info_spec().identifier@) {
                    assert forall|i: int, j: int| 0 <= i < j < l.len() implies (#[trigger] l[i]).info_spec().identifier@
                        != (#[trigger] l[j]).info_spec().identifier@ by {
                        if j == l.len() - 1 {
                            assert(l[i] == pl[i]);
                        } else {
                            assert(l[i] == pl[i] && l[j] == pl[j]);
                        }
                    }
                }
            },
            Err(_) => {},
        }
    }
}

/// A refresh isolates failures: when the plugins that load have distinct
/// identifiers, every one of them joins the registry, and the failures
/// reported are exactly the load failures. So of N candidates of which one
/// fails to load, N - 1 join, each exactly once, one failure is reported,
/// and nothing joins that did not load.
pub proof fn lemma_refresh_isolation<I, E>(s: Seq<Result<Plugin<I>, E>>)
    requires
        loaded_identifiers_distinct(s),
    ensures
        identifiers_unique(loaded(s)),
        forall|k: int| 0 <= k < loaded(s).len() ==> loaded_from(s, #[trigger] loaded(s)[k]),
        loaded(s).len() == s.len() - count_errors(s),
        refresh_failures(s).len() == count_errors(s),
        forall|i: int| 0 <= i < s.len() && (#[trigger] s[i]) is Ok ==> loaded(s).contains(s[i]->Ok_0),
    decreases s.len(),
{
    if s.len() > 0 {
        let init = s.drop_last();
        assert(loaded_identifiers_distinct(init)) by {
            assert forall|i: int, j: int|
                0 <= i < j < init.len() && (#[trigger] init[i]) is Ok && (#[trigger] init[j]) is Ok implies init[i]->Ok_0.info_spec().identifier@
                != init[j]->Ok_0.info_spec().identifier@ by {
                assert(init[i] == s[i] && init[j] == s[j]);
            }
        }
        lemma_refresh_isolation(init);
        lemma_loaded_sources(init);
        lemma_loaded_sources(s);
        let pl = loaded(init);
        let last = s.len() - 1;
        match s.last() {
            Ok(p) => {
                assert(!has_identifier(pl, p.info_spec().identifier@)) by {
                    if has_identifier(pl, p.info_spec().identifier@) {
                        let k = choose|k: int|
                            0 <= k < pl.len() && (#[trigger] pl[k]).info_spec().identifier@
                                == p.info_spec().identifier@;
                        assert(loaded_from(init, pl[k]));
                        let i = choose|i: int| 0 <= i < init.len() && (#[trigger] init[i]) == Ok::<Plugin<I>, E>(pl[k]);
                        assert(s[i] == init[i]);
                        assert(s[last] is Ok);
                    }
                }
                assert forall|i: int| 0 <= i < s.len() && (#[trigger] s[i]) is Ok implies loaded(s).contains(s[i]->Ok_0) by {
                    if i < last {
                        assert(init[i] == s[i]);
                        let k = choose|k: int| 0 <= k < pl.len() && pl[k] == init[i]->Ok_0;
                        assert(loaded(s)[k] == pl[k]);
                    } else {
                        assert(loaded(s)[pl.len() as int] == p);
                    }
                }
            },
            Err(_) => {
                assert forall|i: int| 0 <= i < s.len() && (#[trigger] s[i]) is Ok implies loaded(s).contains(s[i]->Ok_0) by {
                    assert(init[i] == s[i]);
                }
            },
        }
    }
}

/// The registry of loaded plugins, with the persistence handle `S` that
/// they share.
pub struct MichelInstance<S, I> {
    persistence: S,
    config: MichelConfig,
    plugins: Vec<Plugin<I>>,
}

impl<S, I> MichelInstance<S, I> {
    /// The loaded plugins, in load order.
    pub closed spec fn plugin_seq(&self) -> Seq<Plugin<I>> {
        self.plugins@
    }

    /// The shared persistence handle.
    pub closed spec fn persistence_spec(&self) -> S {
        self.persistence
    }

    /// The host-wide settings.
    pub closed spec fn config_spec(&self) -> MichelConfig {
        self.config
    }

    /// Identifiers are unique among the loaded plugins.
    pub open spec fn wf(&self) -> bool {
        identifiers_unique(self.plugin_seq())
    }

    /// A registry with no plugins loaded yet.
    pub fn new(persistence: S, config: MichelConfig) -> (r: Self)
        ensures
            r.wf(),
            r.plugin_seq() == Seq::<Plugin<I>>::empty(),
            r.persistence_spec() == persistence,
            r.config_spec() == config,
    {
        MichelInstance { persistence, config, plugins: Vec::new() }
    }

    pub fn persistence(&self) -> (r: &S)
        ensures
            *r == self.persistence_spec(),
    {
        &self.persistence
    }

    pub fn config(&self) -> (r: &MichelConfig)
        ensures
            *r == self.config_spec(),
    {
        &self.config
    }

    pub fn plugins(&self) -> (r: &Vec<Plugin<I>>)
        ensures
            r@ == self.plugin_seq(),
    {
        &self.plugins
    }

    /// The loaded plugin with this identifier, if there is one.
    pub fn plugin(&self, identifier: String) -> (r: Option<&Plugin<I>>)
        requires
            self.wf(),
        ensures
            match r {
                Some(p) => self.plugin_seq().contains(*p) && p.info_spec().identifier@ == identifier@,
                None => !has_identifier(self.plugin_seq(), identifier@),
            },
    {
        match find_identifier(&self.plugins, &identifier) {
            Some(i) => Some(&self.plugins[i]),
            None => None,
        }
    }

    /// Replaces the loaded plugins with those of a refresh, given the outcome
    /// of loading each candidate in order. A candidate that failed to load,
    /// or whose identifier an earlier one has, is left out and reported; the
    /// others join in order.
    pub fn refresh_plugins<E>(&mut self, outcomes: Vec<Result<Plugin<I>, E>>) -> (r: Vec<
        RefreshFailure<E>,
    >)
        ensures
            final(self).wf(),
            final(self).plugin_seq() == loaded(outcomes@),
            r@ == refresh_failures(outcomes@),
            final(self).persistence_spec() == old(self).persistence_spec(),
            final(self).config_spec() == old(self).config_spec(),
    {
        let ghost orig = outcomes@;
        let mut rest = outcomes;
        let mut kept: Vec<Plugin<I>> = Vec::new();
        let mut failures: Vec<RefreshFailure<E>> = Vec::new();
        while rest.len() > 0
            invariant
                rest@.len() <= orig.len(),
                rest@ == orig.subrange(orig.len() - rest@.len(), orig.len() as int),
                kept@ == loaded(orig.subrange(0, orig.len() - rest@.len())),
                failures@ == refresh_failures(orig.subrange(0, orig.len() - rest@.len())),
            decreases rest@.len(),
        {
            let ghost done = orig.len() - rest@.len();
            let ghost s = orig.subrange(0, done + 1);
            assert(s.drop_last() =~= orig.subrange(0, done));
            let o = rest.remove(0);
            assert(o == orig[done]);
            assert(s.last() == o);
            assert(rest@ =~= orig.subrange(orig.len() - rest@.len(), orig.len() as int));
            match o {
                Ok(p) => {
                    match find_identifier(&kept, &p.infos().identifier) {
                        Some(_) => failures.push(RefreshFailure::DuplicateIdentifier(p.identifier())),
                        None => kept.push(p),
                    }
                },
                Err(e) => failures.push(RefreshFailure::Load(e)),
            }
        }
        assert(orig.subrange(0, orig.len() as int) =~= orig);
        proof {
            lemma_loaded_sources(orig);
        }
        self.plugins = kept;
        failures
    }
}

/// Where the first plugin with this identifier stands.
fn find_identifier<I>(plugins: &Vec<Plugin<I>>, id: &String) -> (r: Option<usize>)
    ensures
        match r {
            Some(i) => i < plugins@.len() && plugins@[i as int].info_spec().identifier@ == id@,
            None => !has_identifier(plugins@, id@),
        },
{
    let mut i: usize = 0;
    while i < plugins.len()
        invariant
            i <= plugins@.len(),
            forall|k: int| 0 <= k < i ==> (#[trigger] plugins@[k]).info_spec().identifier@ != id@,
        decreases plugins@.len() - i,
    {
        if plugins[i].infos().identifier == *id {
            return Some(i);
        }
        i += 1;
    }
    None
}

} // verus!
