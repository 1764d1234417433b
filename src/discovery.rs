//! The source registry, fed by a polling discovery loop.
//!
//! The loop itself runs outside the library: on each wake it asks
//! `is_running`, runs the discovery collaborator without holding the
//! registry, then hands the outcome to `poll_tick`, which decides what the
//! registry becomes and whether the loop goes on.
use vstd::prelude::*;

use crate::source::{has_url, with_source, NdiSource, SourceView};

verus! {

/// The interval between two discovery polls, in seconds.
pub const DEFAULT_POLL_INTERVAL_SECS: u64 = 5;

/// Why one discovery poll produced no list of sources.
#[derive(Debug, Clone, PartialEq)]
pub enum DiscoveryError {
    /// The discovery collaborator failed, for the reason given.
    Failed(String),
}

/// What one poll tick did, and so what the loop does next.
#[derive(Debug, Clone, PartialEq)]
pub enum PollStep {
    /// The stored list was replaced by the discovered one; poll again.
    Replaced,
    /// Discovery failed; the stored list was kept as it was; poll again.
    Kept(DiscoveryError),
    /// The registry was stopped; nothing was changed and the loop exits.
    Stopped,
}

/// The mathematical value of a registry.
pub struct RegistryView {
    /// The known sources.
    pub sources: Seq<SourceView>,
    /// Whether a poll loop is logically active.
    pub running: bool,
}

/// A discovery outcome as a value: the discovered sources, or `None` on failure.
pub open spec fn outcome_view(o: Result<Vec<NdiSource>, DiscoveryError>) -> Option<Seq<SourceView>> {
    match o {
        Ok(v) => Some(v@.map_values(|s: NdiSource| s@)),
        Err(_) => None,
    }
}

/// `srcs` without the sources whose url is `url`, in the same order.
pub open spec fn without_url(srcs: Seq<SourceView>, url: Seq<char>) -> Seq<SourceView>
    decreases srcs.len(),
{
    if srcs.len() == 0 {
        srcs
    } else {
        let rest = without_url(srcs.drop_last(), url);
        if srcs.last().url == url {
            rest
        } else {
            rest.push(srcs.last())
        }
    }
}

/// Each source left by `without_url` is one of `srcs`, and its url is not `url`.
pub proof fn lemma_without_url_members(srcs: Seq<SourceView>, url: Seq<char>)
    ensures
        forall|k: int|
            0 <= k < without_url(srcs, url).len() ==> (#[trigger] without_url(srcs, url)[k]).url
                != url && srcs.contains(without_url(srcs, url)[k]),
    decreases srcs.len(),
{
    if srcs.len() > 0 {
        let init = srcs.drop_last();
        lemma_without_url_members(init, url);
        let w = without_url(srcs, url);
        let w0 = without_url(init, url);
        assert forall|k: int| 0 <= k < w.len() implies (#[trigger] w[k]).url != url && srcs.contains(
            w[k],
        ) by {
            if k < w0.len() {
                assert(w[k] == w0[k]);
                assert(init.contains(w0[k]));
                let j = choose|j: int| 0 <= j < init.len() && init[j] == w0[k];
                assert(srcs[j] == init[j]);
            } else {
                assert(w[k] == srcs.last());
                assert(srcs[srcs.len() - 1] == srcs.last());
            }
        }
    }
}

impl RegistryView {
    /// The registry after one poll tick with the given outcome.
    pub open spec fn after_tick(self, outcome: Option<Seq<SourceView>>) -> RegistryView {
        if !self.running {
            self
        } else {
            match outcome {
                Some(found) => RegistryView { sources: found, ..self },
                None => self,
            }
        }
    }

    /// The registry after a run of poll ticks with the given outcomes.
    pub open spec fn after_ticks(self, outcomes: Seq<Option<Seq<SourceView>>>) -> RegistryView
        decreases outcomes.len(),
    {
        if outcomes.len() == 0 {
            self
        } else {
            self.after_tick(outcomes[0]).after_ticks(outcomes.drop_first())
        }
    }

    /// The registry after `stop`.
    pub open spec fn stopped(self) -> RegistryView {
        RegistryView { running: false, ..self }
    }
}

/// The registry of known sources.
///
/// Each successful poll replaces the whole list; a failed poll keeps it.
/// `add_source` and `remove_source` act on the list between polls, and the
/// next successful poll overrides them.
///
/// `stop` only clears the running flag. The loop sees it on its next wake,
/// up to one poll interval later; a poll that completes after `stop` changes
/// nothing.
///
/// Shared between the loop and its callers, the registry is held behind a
/// mutex that each of them takes for one call at a time, never across the
/// discovery call itself.
pub struct NdiDiscovery {
    sources: Vec<NdiSource>,
    is_running: bool,
}

impl View for NdiDiscovery {
    type V = RegistryView;

    closed spec fn view(&self) -> RegistryView {
        RegistryView {
            sources: self.sources@.map_values(|s: NdiSource| s@),
            running: self.is_running,
        }
    }
}

impl Default for NdiDiscovery {
    fn default() -> (r: NdiDiscovery)
        ensures
            r@ == (RegistryView { sources: Seq::empty(), running: false }),
    {
        NdiDiscovery::new()
    }
}

impl NdiDiscovery {
    /// An empty registry with no poll loop.
    pub fn new() -> (r: NdiDiscovery)
        ensures
            r@ == (RegistryView { sources: Seq::empty(), running: false }),
    {
        let r = NdiDiscovery { sources: Vec::new(), is_running: false };
        assert(r@.sources =~= Seq::<SourceView>::empty());
        r
    }

    /// Marks the poll loop as running. Returns whether the caller should
    /// start a new loop: `false` when one is already running, in which case
    /// nothing changes.
    pub fn start(&mut self) -> (started: bool)
        ensures
            started == !old(self)@.running,
            final(self)@ == (RegistryView { running: true, ..old(self)@ }),
    {
        if self.is_running {
            return false;
        }
        self.is_running = true;
        true
    }

    /// Signals the poll loop to exit. The loop notices on its next wake.
    pub fn stop(&mut self)
        ensures
            final(self)@ == old(self)@.stopped(),
    {
        self.is_running = false;
    }

    /// Whether a poll loop is logically active.
    pub fn is_running(&self) -> (r: bool)
        ensures
            r == self@.running,
    {
        self.is_running
    }

    /// A copy of the current sources.
    pub fn get_sources(&self) -> (r: Vec<NdiSource>)
        ensures
            r@.map_values(|s: NdiSource| s@) == self@.sources,
    {
        let mut r: Vec<NdiSource> = Vec::new();
        let mut i: usize = 0;
        while i < self.sources.len()
            invariant
                i <= self.sources@.len(),
                r@.len() == i,
                forall|k: int| 0 <= k < i ==> (#[trigger] r@[k])@ == self.sources@[k]@,
            decreases self.sources@.len() - i,
        {
            r.push(self.sources[i].duplicate());
            i += 1;
        }
        assert(r@.map_values(|s: NdiSource| s@) =~= self@.sources);
        r
    }

    /// Whether a source has the url `url`.
    fn has_source_url(&self, url: &String) -> (r: bool)
        ensures
            r == has_url(self@.sources, url@),
    {
        let mut i: usize = 0;
        while i < self.sources.len()
            invariant
                i <= self.sources@.len(),
                forall|k: int| 0 <= k < i ==> (#[trigger] self.sources@[k])@.url != url@,
            decreases self.sources@.len() - i,
        {
            if self.sources[i].url == *url {
                assert(self@.sources[i as int].url == url@);
                return true;
            }
            i += 1;
        }
        assert forall|k: int| 0 <= k < self@.sources.len() implies (#[trigger] self@.sources[k]).url
            != url@ by {
            assert(self@.sources[k] == self.sources@[k]@);
        }
        false
    }

    /// Adds a source by hand; a no-op when a source with its url is known.
    pub fn add_source(&mut self, source: NdiSource)
        ensures
            final(self)@ == (RegistryView {
                sources: with_source(old(self)@.sources, source@),
                ..old(self)@
            }),
    {
        if !self.has_source_url(&source.url) {
            let ghost s = source@;
            self.sources.push(source);
            assert(self@.sources =~= old(self)@.sources.push(s));
        }
    }

    /// Removes every source whose url is `url`; returns whether one was removed.
    pub fn remove_source(&mut self, url: &str) -> (removed: bool)
        ensures
            removed == has_url(old(self)@.sources, url@),
            final(self)@ == (RegistryView {
                sources: without_url(old(self)@.sources, url@),
                ..old(self)@
            }),
    {
        let url_s = url.to_owned();
        let ghost ss = self@.sources;
        let mut kept: Vec<NdiSource> = Vec::new();
        let mut removed = false;
        let mut i: usize = 0;
        assert(ss.subrange(0, 0) =~= Seq::<SourceView>::empty());
        while i < self.sources.len()
            invariant
                i <= self.sources@.len(),
                ss == self@.sources,
                ss == old(self)@.sources,
                self.is_running == old(self).is_running,
                kept@.map_values(|s: NdiSource| s@) == without_url(ss.subrange(0, i as int), url_s@),
                removed == has_url(ss.subrange(0, i as int), url_s@),
            decreases self.sources@.len() - i,
        {
            let ghost pre = ss.subrange(0, i as int);
            let ghost next = ss.subrange(0, i + 1);
            assert(next.drop_last() =~= pre);
            assert(next.last() == self.sources@[i as int]@);
            if self.sources[i].url == url_s {
                removed = true;
                assert(next[i as int].url == url_s@);
            } else {
                let ghost before = kept@.map_values(|s: NdiSource| s@);
                kept.push(self.sources[i].duplicate());
                assert(kept@.map_values(|s: NdiSource| s@) =~= before.push(next.last()));
                assert(has_url(next, url_s@) == has_url(pre, url_s@)) by {
                    if has_url(next, url_s@) {
                        let k = choose|k: int| 0 <= k < next.len() && (#[trigger] next[k]).url == url_s@;
                        assert(k < i);
                        assert(pre[k] == next[k]);
                    }
                    if has_url(pre, url_s@) {
                        let k = choose|k: int| 0 <= k < pre.len() && (#[trigger] pre[k]).url == url_s@;
                        assert(pre[k] == next[k]);
                    }
                }
            }
            if removed {
                assert(has_url(next, url_s@)) by {
                    if !has_url(pre, url_s@) {
                        assert(next[i as int].url == url_s@);
                    } else {
                        let k = choose|k: int| 0 <= k < pre.len() && (#[trigger] pre[k]).url == url_s@;
                        assert(pre[k] == next[k]);
                    }
                }
            }
            i += 1;
        }
        assert(ss.subrange(0, ss.len() as int) =~= ss);
        self.sources = kept;
        removed
    }

    /// Applies the outcome of one discovery poll.
    ///
    /// When stopped, changes nothing and says `Stopped`. Otherwise a list of
    /// sources replaces the stored one wholesale, and a failure keeps the
    /// stored list and is handed back.
    pub fn poll_tick(&mut self, outcome: Result<Vec<NdiSource>, DiscoveryError>) -> (r: PollStep)
        ensures
            final(self)@ == old(self)@.after_tick(outcome_view(outcome)),
            !old(self)@.running ==> r == PollStep::Stopped,
            old(self)@.running ==> match outcome {
                Ok(_) => r == PollStep::Replaced,
                Err(e) => r == PollStep::Kept(e),
            },
    {
        if !self.is_running {
            return PollStep::Stopped;
        }
        match outcome {
            Ok(found) => {
                self.sources = found;
                PollStep::Replaced
            },
            Err(e) => PollStep::Kept(e),
        }
    }
}


/// Once stopped, no run of poll ticks changes the registry: every snapshot
/// taken afterwards is the list held when it stopped.
pub proof fn lemma_stopped_ticks_change_nothing(v: RegistryView, outcomes: Seq<Option<Seq<SourceView>>>)
    ensures
        v.stopped().after_ticks(outcomes) == v.stopped(),
    decreases outcomes.len(),
{
    if outcomes.len() > 0 {
        lemma_stopped_ticks_change_nothing(v, outcomes.drop_first());
    }
}

} // verus!
