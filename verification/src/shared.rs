//! The shared configuration and the per-thread cache discipline: one
//! writer-guarded configuration value paired with a monotonically increasing
//! generation counter, and per-thread snapshots that refresh exactly when
//! their recorded generation falls behind. The caller supplies the mutual
//! exclusion around [`SharedConfig`]; these transitions say what each step
//! does to the state.

use vstd::prelude::*;

use crate::config::{root_wf, Root};

verus! {

/// The single source of truth: the installed configuration and the
/// generation it was installed at.
pub struct SharedConfig {
    root: Root,
    generation: u64,
}

/// One thread's snapshot of the configuration, stamped with the generation
/// it was taken at.
pub struct CachedConfig {
    root: Root,
    generation: u64,
}

/// What a refresh leaves in the cache: the store's generation, and the
/// store's configuration unless the cache already was at that generation.
pub open spec fn refresh_post(old_cache: CachedConfig, store: SharedConfig, new_cache: CachedConfig) -> bool {
    &&& new_cache.generation() == store.generation()
    &&& new_cache.root_view() == (if old_cache.generation() == store.generation() {
        old_cache.root_view()
    } else {
        store.root_view()
    })
}

impl SharedConfig {
    /// The value of the installed configuration.
    pub closed spec fn root_view(&self) -> crate::config::RootView {
        self.root@
    }

    /// The generation of the installed configuration.
    pub closed spec fn generation(&self) -> u64 {
        self.generation
    }

    /// A fresh store holding `root` at generation zero.
    pub fn new(root: Root) -> (s: SharedConfig)
        ensures
            s.root_view() == root@,
            s.generation() == 0,
    {
        SharedConfig { root, generation: 0 }
    }

    /// Installs a new configuration, advancing the generation: the
    /// synchronization point of a configuration write.
    pub fn install(&mut self, root: Root)
        requires
            old(self).generation() < u64::MAX,
        ensures
            final(self).root_view() == root@,
            final(self).generation() == old(self).generation() + 1,
    {
        self.root = root;
        self.generation = self.generation + 1;
    }

    /// Reads the current generation: the cheap staleness check a reader
    /// performs before trusting its snapshot.
    pub fn current_generation(&self) -> (g: u64)
        ensures
            g == self.generation(),
    {
        self.generation
    }

    /// The installed configuration.
    pub fn root(&self) -> (r: &Root)
        ensures
            r@ == self.root_view(),
    {
        &self.root
    }
}

impl CachedConfig {
    /// The value of the cached snapshot.
    pub closed spec fn root_view(&self) -> crate::config::RootView {
        self.root@
    }

    /// The generation the snapshot was taken at.
    pub closed spec fn generation(&self) -> u64 {
        self.generation
    }

    /// A thread's initial cache, taken from the store.
    pub fn new(store: &SharedConfig) -> (c: CachedConfig)
        ensures
            c.root_view() == store.root_view(),
            c.generation() == store.generation(),
    {
        CachedConfig { root: store.root().snapshot(), generation: store.current_generation() }
    }

    /// The generation this snapshot was taken at, for a staleness check
    /// against a generation counter read without the store's lock.
    pub fn generation_seen(&self) -> (g: u64)
        ensures
            g == self.generation(),
    {
        self.generation
    }

    /// Whether the snapshot is stale against the store.
    pub fn needs_refresh(&self, store: &SharedConfig) -> (r: bool)
        ensures
            r == (self.generation() != store.generation()),
    {
        self.generation != store.current_generation()
    }

    /// Brings the snapshot up to the store's generation, cloning the
    /// configuration only when the snapshot is stale.
    pub fn refresh(&mut self, store: &SharedConfig)
        ensures
            refresh_post(*old(self), *store, *final(self)),
    {
        if self.generation != store.current_generation() {
            self.root = store.root().snapshot();
            self.generation = store.current_generation();
        }
    }

    /// The snapshot's configuration, which resolution reads without a lock.
    pub fn root(&self) -> (r: &Root)
        ensures
            r@ == self.root_view(),
    {
        &self.root
    }
}

/// Cache coherence: a configuration write advances the generation past any
/// snapshot taken before it, so the next refresh of every such snapshot
/// adopts the newly installed configuration — a thread's next resolution
/// call after a write observes the written configuration.
pub proof fn lemma_cache_coherence(
    cache: CachedConfig,
    store_before: SharedConfig,
    store_after: SharedConfig,
    installed: Root,
    refreshed: CachedConfig,
)
    requires
        cache.generation() <= store_before.generation(),
        store_before.generation() < u64::MAX,
        store_after.root_view() == installed@,
        store_after.generation() == store_before.generation() + 1,
        refresh_post(cache, store_after, refreshed),
    ensures
        refreshed.root_view() == installed@,
        refreshed.generation() == store_after.generation(),
{
}

} // verus!
