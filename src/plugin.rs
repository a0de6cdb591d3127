//! A loaded plugin: its sandbox instance, the metadata it declared, and its
//! configuration.

use vstd::prelude::*;
use crate::capability::PluginConfig;

verus! {

/// What a plugin declares about itself; its identifier names it in the
/// registry.
#[derive(Debug, PartialEq, Eq)]
pub struct PluginInfo {
    pub identifier: String,
    pub name: String,
    pub description: String,
    pub version: String,
    pub icon: Option<String>,
    pub url: Option<String>,
}

fn duplicate_optional(s: &Option<String>) -> (r: Option<String>)
    ensures
        r == *s,
{
    match s {
        Some(v) => Some(v.clone()),
        None => None,
    }
}

impl PluginInfo {
    /// A copy of this metadata.
    pub fn duplicate(&self) -> (r: PluginInfo)
        ensures
            r == *self,
    {
        PluginInfo {
            identifier: self.identifier.clone(),
            name: self.name.clone(),
            description: self.description.clone(),
            version: self.version.clone(),
            icon: duplicate_optional(&self.icon),
            url: duplicate_optional(&self.url),
        }
    }
}

/// What to do to obtain a plugin's metadata.
#[derive(Debug, PartialEq, Eq)]
pub enum InfoStep {
    /// The metadata is known: use it.
    Cached(PluginInfo),
    /// Ask the guest, then record its answer.
    CallGuest,
}

/// A plugin's metadata, asked of the guest once and kept afterwards.
pub struct InfoCache {
    pub cached: Option<PluginInfo>,
}

/// The step that a cache calls for.
pub open spec fn info_step(c: InfoCache) -> InfoStep {
    match c.cached {
        Some(info) => InfoStep::Cached(info),
        None => InfoStep::CallGuest,
    }
}

/// The cache after the guest's answer is recorded; an answer that is
/// already there is kept.
pub open spec fn info_recorded(c: InfoCache, info: PluginInfo) -> InfoCache {
    match c.cached {
        Some(_) => c,
        None => InfoCache { cached: Some(info) },
    }
}

impl InfoCache {
    /// A cache that has not asked the guest yet.
    pub fn new() -> (r: InfoCache)
        ensures
            r.cached is None,
    {
        InfoCache { cached: None }
    }

    /// Whether the metadata is known, or the guest must be asked.
    pub fn next_step(&self) -> (r: InfoStep)
        ensures
            r == info_step(*self),
    {
        match &self.cached {
            Some(info) => InfoStep::Cached(info.duplicate()),
            None => InfoStep::CallGuest,
        }
    }

    /// Records the guest's answer, unless one is recorded already.
    pub fn record(&mut self, info: PluginInfo)
        ensures
            *final(self) == info_recorded(*old(self), info),
    {
        if self.cached.is_none() {
            self.cached = Some(info);
        }
    }
}

/// Once the guest's answer is recorded, every later request is served from
/// the cache with that same answer, and none calls the guest again, however
/// many answers are recorded after it.
pub proof fn lemma_info_cached_once(c: InfoCache, first: PluginInfo, later: Seq<PluginInfo>)
    requires
        c.cached is None,
    ensures
        info_step(info_recorded(c, first)) == InfoStep::Cached(first),
        forall|k: int|
            0 <= k <= later.len() ==> info_step(#[trigger] recorded_all(info_recorded(c, first), later.take(k)))
                == InfoStep::Cached(first),
{
    assert forall|k: int| 0 <= k <= later.len() implies info_step(
        #[trigger] recorded_all(info_recorded(c, first), later.take(k)),
    ) == InfoStep::Cached(first) by {
        lemma_recorded_all_keeps(info_recorded(c, first), later.take(k));
    }
}

/// The cache after each answer of `s` is recorded in turn.
pub open spec fn recorded_all(c: InfoCache, s: Seq<PluginInfo>) -> InfoCache
    decreases s.len(),
{
    if s.len() == 0 {
        c
    } else {
        info_recorded(recorded_all(c, s.drop_last()), s.last())
    }
}

proof fn lemma_recorded_all_keeps(c: InfoCache, s: Seq<PluginInfo>)
    requires
        c.cached is Some,
    ensures
        recorded_all(c, s) == c,
    decreases s.len(),
{
    if s.len() > 0 {
        lemma_recorded_all_keeps(c, s.drop_last());
    }
}

/// A loaded plugin: its sandbox instance `I`, its metadata and its
/// configuration.
pub struct Plugin<I> {
    instance: I,
    infos: PluginInfo,
    config: PluginConfig,
}

impl<I> Plugin<I> {
    /// The plugin's metadata.
    pub closed spec fn info_spec(&self) -> PluginInfo {
        self.infos
    }

    /// The plugin's configuration.
    pub closed spec fn config_spec(&self) -> PluginConfig {
        self.config
    }

    /// The plugin's sandbox instance.
    pub closed spec fn instance_spec(&self) -> I {
        self.instance
    }

    /// A freshly loaded plugin, with the metadata its guest declared and the
    /// initial configuration.
    pub fn new(instance: I, infos: PluginInfo) -> (r: Plugin<I>)
        ensures
            r.instance_spec() == instance,
            r.info_spec() == infos,
            r.config_spec().host.enabled,
            r.config_spec().host.fs_access@.len() == 0,
    {
        Plugin { instance, infos, config: PluginConfig::initial() }
    }

    /// The sandbox instance.
    pub fn instance(&self) -> (r: &I)
        ensures
            *r == self.instance_spec(),
    {
        &self.instance
    }

    /// The metadata, as declared when the plugin was loaded.
    pub fn infos(&self) -> (r: &PluginInfo)
        ensures
            *r == self.info_spec(),
    {
        &self.infos
    }

    /// The configuration.
    pub fn config(&self) -> (r: &PluginConfig)
        ensures
            *r == self.config_spec(),
    {
        &self.config
    }

    pub fn identifier(&self) -> (r: String)
        ensures
            r == self.info_spec().identifier,
    {
        self.infos.identifier.clone()
    }

    pub fn name(&self) -> (r: String)
        ensures
            r == self.info_spec().name,
    {
        self.infos.name.clone()
    }

    pub fn description(&self) -> (r: String)
        ensures
            r == self.info_spec().description,
    {
        self.infos.description.clone()
    }

    /// Every plugin may be asked to index.
    pub fn can_index(&self) -> (r: bool)
        ensures
            r,
    {
        true
    }

    pub fn enabled(&self) -> (r: bool)
        ensures
            r == self.config_spec().host.enabled,
    {
        self.config.host.enabled
    }
}

} // verus!
