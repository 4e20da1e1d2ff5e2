//! The last-good-result store: one slot per artifact kind, overwritten by
//! every successful computation and read when a fresh one fails.

use vstd::prelude::*;
use crate::error::IptvError;

verus! {

/// The artifacts that are published.
#[derive(PartialEq, Eq, Structural, Clone, Copy)]
pub enum ArtifactKind {
    Playlist,
    GuideDocument,
}

/// The payload held for each kind.
pub struct CacheModel {
    pub playlist: Option<Seq<char>>,
    pub guide: Option<Seq<char>>,
}

impl CacheModel {
    pub open spec fn slot(self, kind: ArtifactKind) -> Option<Seq<char>> {
        match kind {
            ArtifactKind::Playlist => self.playlist,
            ArtifactKind::GuideDocument => self.guide,
        }
    }

    pub open spec fn put(self, kind: ArtifactKind, payload: Seq<char>) -> CacheModel {
        match kind {
            ArtifactKind::Playlist => CacheModel { playlist: Some(payload), ..self },
            ArtifactKind::GuideDocument => CacheModel { guide: Some(payload), ..self },
        }
    }
}

pub open spec fn empty_cache() -> CacheModel {
    CacheModel { playlist: None, guide: None }
}

/// The store. It never expires anything: serving old data is preferred to
/// serving an error.
pub struct ArtifactCache {
    playlist: Option<String>,
    guide: Option<String>,
}

pub open spec fn opt_chars(o: Option<String>) -> Option<Seq<char>> {
    match o {
        Some(s) => Some(s@),
        None => None,
    }
}

impl View for ArtifactCache {
    type V = CacheModel;

    closed spec fn view(&self) -> CacheModel {
        CacheModel { playlist: opt_chars(self.playlist), guide: opt_chars(self.guide) }
    }
}

/// An artifact as served: freshly computed, the last good one after a failed
/// computation, or none at all, with the failure.
pub enum Served {
    Fresh(String),
    Stale(String),
    Unavailable(IptvError),
}

impl ArtifactCache {
    /// A store with nothing in it.
    pub fn new() -> (r: ArtifactCache)
        ensures
            r@ == empty_cache(),
    {
        ArtifactCache { playlist: None, guide: None }
    }

    /// Overwrites the slot of `kind` with `payload`.
    pub fn put(&mut self, kind: ArtifactKind, payload: String)
        ensures
            final(self)@ == old(self)@.put(kind, payload@),
    {
        match kind {
            ArtifactKind::Playlist => self.playlist = Some(payload),
            ArtifactKind::GuideDocument => self.guide = Some(payload),
        }
    }

    /// The last payload stored for `kind`, if any.
    pub fn get(&self, kind: ArtifactKind) -> (r: Option<String>)
        ensures
            opt_chars(r) == self@.slot(kind),
    {
        match kind {
            ArtifactKind::Playlist => self.playlist.clone(),
            ArtifactKind::GuideDocument => self.guide.clone(),
        }
    }

    /// Serves `kind` from the outcome of a fresh computation: a success is
    /// stored and served fresh; a failure serves the stored payload, or the
    /// failure itself when nothing is stored, and changes nothing.
    pub fn serve(&mut self, kind: ArtifactKind, fresh: Result<String, IptvError>) -> (r: Served)
        ensures
            match fresh {
                Ok(p) => final(self)@ == old(self)@.put(kind, p@) && (r matches Served::Fresh(q) && q@ == p@),
                Err(e) => final(self)@ == old(self)@ && match old(self)@.slot(kind) {
                    Some(s) => r matches Served::Stale(q) && q@ == s,
                    None => r == Served::Unavailable(e),
                },
            },
    {
        match fresh {
            Ok(p) => {
                let out = p.clone();
                self.put(kind, p);
                Served::Fresh(out)
            },
            Err(e) => match self.get(kind) {
                Some(s) => Served::Stale(s),
                None => Served::Unavailable(e),
            },
        }
    }
}

/// The store after a run of computations, each of a kind and either a payload
/// (success) or none (failure), in the order they finished.
pub open spec fn after_runs(runs: Seq<(ArtifactKind, Option<Seq<char>>)>) -> CacheModel
    decreases runs.len(),
{
    if runs.len() == 0 {
        empty_cache()
    } else {
        let prev = after_runs(runs.drop_last());
        match runs.last().1 {
            Some(p) => prev.put(runs.last().0, p),
            None => prev,
        }
    }
}

/// The payload of the last successful run of `kind`.
pub open spec fn last_success(runs: Seq<(ArtifactKind, Option<Seq<char>>)>, kind: ArtifactKind) -> Option<Seq<char>>
    decreases runs.len(),
{
    if runs.len() == 0 {
        None
    } else if runs.last().0 == kind && runs.last().1 is Some {
        runs.last().1
    } else {
        last_success(runs.drop_last(), kind)
    }
}

/// The store holds nothing for a kind before its first success, and after
/// any run of successes and failures, in any order, it holds the payload of
/// the last success: failures never overwrite.
pub proof fn lemma_cache_holds_last_success(runs: Seq<(ArtifactKind, Option<Seq<char>>)>, kind: ArtifactKind)
    ensures
        after_runs(runs).slot(kind) == last_success(runs, kind),
    decreases runs.len(),
{
    if runs.len() > 0 {
        lemma_cache_holds_last_success(runs.drop_last(), kind);
    }
}

} // verus!
