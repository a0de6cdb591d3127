//! Capability grants: which host directories a plugin's sandbox may see,
//! and under which guest path.

use vstd::prelude::*;

verus! {

/// One filesystem grant of a plugin.
#[derive(Debug, PartialEq, Eq)]
pub struct FsAccess {
    pub host_path: String,
    pub guest_path: String,
    pub enabled: bool,
    pub notify: bool,
}

/// What the host decides about a plugin.
pub struct PluginHostConfig {
    pub enabled: bool,
    pub fs_access: Vec<FsAccess>,
}

/// The slot for configuration that a plugin defines for itself.
pub struct CustomPluginConfig;

/// The whole configuration of a plugin.
pub struct PluginConfig {
    pub host: PluginHostConfig,
    pub custom: CustomPluginConfig,
}

/// A host directory made visible inside a sandbox, and where.
#[derive(Debug, PartialEq, Eq)]
pub struct Preopen {
    pub host_path: String,
    pub guest_path: String,
}

/// The directories that grants make visible, in grant order: one for each
/// enabled grant, at its guest path.
pub open spec fn visible_grants(s: Seq<FsAccess>) -> Seq<(Seq<char>, Seq<char>)>
    decreases s.len(),
{
    if s.len() == 0 {
        Seq::empty()
    } else {
        let prev = visible_grants(s.drop_last());
        let g = s.last();
        if g.enabled {
            prev.push((g.host_path@, g.guest_path@))
        } else {
            prev
        }
    }
}

impl FsAccess {
    /// A grant of a host directory as a plugin requests it: disabled, with no
    /// guest path and no change notification until the host configures it.
    pub fn from_host_path(host_path: String) -> (r: FsAccess)
        ensures
            r.host_path == host_path,
            r.guest_path@ == Seq::<char>::empty(),
            !r.enabled,
            !r.notify,
    {
        FsAccess { host_path, guest_path: String::new(), enabled: false, notify: false }
    }
}

impl PluginConfig {
    /// The configuration of a freshly loaded plugin: enabled, with no grants.
    pub fn initial() -> (r: PluginConfig)
        ensures
            r.host.enabled,
            r.host.fs_access@.len() == 0,
    {
        PluginConfig {
            host: PluginHostConfig { enabled: true, fs_access: Vec::new() },
            custom: CustomPluginConfig,
        }
    }

    /// The configuration for the host directories that a plugin requests:
    /// enabled, with one disabled grant per directory, in order.
    pub fn from_host_paths(paths: Vec<String>) -> (r: PluginConfig)
        ensures
            r.host.enabled,
            r.host.fs_access@.len() == paths@.len(),
            forall|i: int|
                0 <= i < paths@.len() ==> (#[trigger] r.host.fs_access@[i]).host_path == paths@[i]
                    && !r.host.fs_access@[i].enabled && !r.host.fs_access@[i].notify
                    && r.host.fs_access@[i].guest_path@ == Seq::<char>::empty(),
    {
        let ghost orig = paths@;
        let mut rest = paths;
        let mut grants: Vec<FsAccess> = Vec::new();
        while rest.len() > 0
            invariant
                rest@.len() <= orig.len(),
                rest@ == orig.subrange(orig.len() - rest@.len(), orig.len() as int),
                grants@.len() == orig.len() - rest@.len(),
                forall|i: int|
                    0 <= i < grants@.len() ==> (#[trigger] grants@[i]).host_path == orig[i]
                        && !grants@[i].enabled && !grants@[i].notify && grants@[i].guest_path@
                        == Seq::<char>::empty(),
            decreases rest@.len(),
        {
            let ghost done = orig.len() - rest@.len();
            let p = rest.remove(0);
            assert(p == orig[done]);
            assert(rest@ =~= orig.subrange(orig.len() - rest@.len(), orig.len() as int));
            grants.push(FsAccess::from_host_path(p));
        }
        PluginConfig {
            host: PluginHostConfig { enabled: true, fs_access: grants },
            custom: CustomPluginConfig,
        }
    }
}

impl PluginHostConfig {
    /// The directories to make visible inside the plugin's sandbox: exactly
    /// the enabled grants, in order, each at its guest path.
    pub fn preopens(&self) -> (r: Vec<Preopen>)
        ensures
            r@.map_values(|p: Preopen| (p.host_path@, p.guest_path@)) == visible_grants(
                self.fs_access@,
            ),
    {
        let mut out: Vec<Preopen> = Vec::new();
        let mut i: usize = 0;
        while i < self.fs_access.len()
            invariant
                i <= self.fs_access@.len(),
                out@.map_values(|p: Preopen| (p.host_path@, p.guest_path@)) == visible_grants(
                    self.fs_access@.subrange(0, i as int),
                ),
            decreases self.fs_access@.len() - i,
        {
            let ghost s = self.fs_access@.subrange(0, i + 1);
            assert(s.drop_last() =~= self.fs_access@.subrange(0, i as int));
            assert(s.last() == self.fs_access@[i as int]);
            let g = &self.fs_access[i];
            let ghost before = out@;
            if g.enabled {
                out.push(Preopen { host_path: g.host_path.clone(), guest_path: g.guest_path.clone() });
                assert(out@.map_values(|p: Preopen| (p.host_path@, p.guest_path@)) =~= before.map_values(
                    |p: Preopen| (p.host_path@, p.guest_path@),
                ).push((g.host_path@, g.guest_path@)));
            }
            i += 1;
        }
        assert(self.fs_access@.subrange(0, i as int) =~= self.fs_access@);
        out
    }
}

/// The host directories that a plugin's sandbox sees, decided from its
/// grants.
pub struct SandboxFilesystem {
    preopens: Vec<Preopen>,
}

impl SandboxFilesystem {
    /// Each visible directory's host path and guest path, in grant order.
    pub closed spec fn visible(&self) -> Seq<(Seq<char>, Seq<char>)> {
        self.preopens@.map_values(|p: Preopen| (p.host_path@, p.guest_path@))
    }

    /// The sandbox view that a plugin's grants allow: a grant that is not
    /// enabled contributes nothing, and every enabled grant is visible at
    /// exactly its guest path.
    pub fn new(host: &PluginHostConfig) -> (r: SandboxFilesystem)
        ensures
            r.visible() == visible_grants(host.fs_access@),
            forall|j: int|
                0 <= j < r.visible().len() ==> enabled_grant(host.fs_access@, #[trigger] r.visible()[j]),
            forall|i: int|
                0 <= i < host.fs_access@.len() && (#[trigger] host.fs_access@[i]).enabled
                    ==> r.visible().contains(
                    (host.fs_access@[i].host_path@, host.fs_access@[i].guest_path@),
                ),
    {
        proof {
            lemma_capability_gating(host.fs_access@);
        }
        SandboxFilesystem { preopens: host.preopens() }
    }

    /// The directories to open inside the sandbox.
    pub fn preopens(&self) -> (r: &Vec<Preopen>)
        ensures
            r@.map_values(|p: Preopen| (p.host_path@, p.guest_path@)) == self.visible(),
    {
        &self.preopens
    }
}

/// `d` is the host path and guest path of an enabled grant.
pub open spec fn enabled_grant(grants: Seq<FsAccess>, d: (Seq<char>, Seq<char>)) -> bool {
    exists|i: int|
        0 <= i < grants.len() && (#[trigger] grants[i]).enabled && d == (
            grants[i].host_path@,
            grants[i].guest_path@,
        )
}

/// Only enabled grants reach a sandbox, each at exactly its guest path:
/// every visible directory is an enabled grant's host path and guest path,
/// and every enabled grant is visible.
pub proof fn lemma_capability_gating(grants: Seq<FsAccess>)
    ensures
        forall|j: int|
            0 <= j < visible_grants(grants).len() ==> enabled_grant(
                grants,
                #[trigger] visible_grants(grants)[j],
            ),
        forall|i: int|
            0 <= i < grants.len() && (#[trigger] grants[i]).enabled ==> visible_grants(
                grants,
            ).contains((grants[i].host_path@, grants[i].guest_path@)),
    decreases grants.len(),
{
    if grants.len() > 0 {
        let init = grants.drop_last();
        lemma_capability_gating(init);
        let v = visible_grants(grants);
        let pv = visible_grants(init);
        assert forall|j: int| 0 <= j < v.len() implies enabled_grant(grants, #[trigger] v[j]) by {
            if j < pv.len() {
                assert(enabled_grant(init, pv[j]));
                let i = choose|i: int|
                    0 <= i < init.len() && (#[trigger] init[i]).enabled && pv[j] == (
                        init[i].host_path@,
                        init[i].guest_path@,
                    );
                assert(grants[i] == init[i]);
                assert(v[j] == pv[j]);
            } else {
                assert(grants[grants.len() - 1].enabled);
                assert(v[j] == (grants[grants.len() - 1].host_path@, grants[grants.len() - 1].guest_path@));
            }
        }
        assert forall|i: int| 0 <= i < grants.len() && (#[trigger] grants[i]).enabled implies v.contains(
            (grants[i].host_path@, grants[i].guest_path@),
        ) by {
            if i < init.len() {
                assert(init[i] == grants[i]);
                let k = choose|k: int|
                    0 <= k < pv.len() && pv[k] == (init[i].host_path@, init[i].guest_path@);
                assert(v[k] == pv[k]);
            } else {
                assert(v[v.len() - 1] == (grants[i].host_path@, grants[i].guest_path@));
            }
        }
    }
}

} // verus!
