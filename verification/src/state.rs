//! What the bot remembers between two messages.

use std::collections::HashMap;

use vstd::prelude::*;

use crate::config::Config;
use crate::downloader::metadata::{VideoMeta, VideoMetaView};

verus! {

broadcast use vstd::std_specs::hash::group_hash_axioms;

/// A URL and its fetched metadata, parked between "user sent a link" and "user tapped a
/// format button". Kept by chat, because callback data can't hold a URL.
pub struct PendingJob {
    pub url: String,
    pub meta: VideoMeta,
}

/// A [`PendingJob`] with its texts as sequences of characters.
pub struct PendingJobView {
    pub url: Seq<char>,
    pub meta: VideoMetaView,
}

impl View for PendingJob {
    type V = PendingJobView;

    open spec fn view(&self) -> PendingJobView {
        PendingJobView { url: self.url@, meta: self.meta@ }
    }
}

impl Clone for PendingJob {
    fn clone(&self) -> (r: Self)
        ensures
            r@ == self@,
    {
        PendingJob { url: self.url.clone(), meta: self.meta.clone() }
    }
}

/// Shared application state.
pub struct AppState {
    pub cfg: Config,
    /// Links awaiting a format choice, per chat.
    pub pending: HashMap<i64, PendingJob>,
    /// In-flight downloads, per chat, each with the number of its cancel handle.
    pub active: HashMap<i64, u64>,
    /// Global cap on concurrent downloads across all chats.
    pub permits: usize,
}

impl AppState {
    /// The state at startup: no link parked, no download running.
    pub fn new(cfg: Config) -> (r: AppState)
        ensures
            r.cfg == cfg,
            r.pending@ == Map::<i64, PendingJob>::empty(),
            r.active@ == Map::<i64, u64>::empty(),
            r.permits == cfg.max_concurrent,
    {
        let permits: usize = cfg.max_concurrent;
        AppState { cfg, pending: HashMap::new(), active: HashMap::new(), permits }
    }

    /// Whether a download runs in the chat.
    pub fn is_busy(&self, chat: i64) -> (r: bool)
        ensures
            r == self.active@.contains_key(chat),
    {
        self.active.contains_key(&chat)
    }

    /// Parks a link in the chat, in place of one that waits there.
    pub fn park(&mut self, chat: i64, job: PendingJob)
        ensures
            final(self).pending@ == old(self).pending@.insert(chat, job),
            final(self).active == old(self).active,
            final(self).cfg == old(self).cfg,
            final(self).permits == old(self).permits,
    {
        self.pending.insert(chat, job);
    }

    /// Takes the link out of the chat.
    pub fn claim(&mut self, chat: i64) -> (r: Option<PendingJob>)
        ensures
            r == if old(self).pending@.contains_key(chat) {
                Some(old(self).pending@[chat])
            } else {
                None
            },
            final(self).pending@ == old(self).pending@.remove(chat),
            final(self).active == old(self).active,
            final(self).cfg == old(self).cfg,
            final(self).permits == old(self).permits,
    {
        let r = self.pending.remove(&chat);
        assert(self.pending@ =~= old(self).pending@.remove(chat));
        r
    }

    /// Marks a download as running in the chat, under a cancel handle.
    pub fn begin(&mut self, chat: i64, handle: u64)
        ensures
            final(self).active@ == old(self).active@.insert(chat, handle),
            final(self).pending == old(self).pending,
            final(self).cfg == old(self).cfg,
            final(self).permits == old(self).permits,
    {
        self.active.insert(chat, handle);
    }

    /// Marks the chat as having no download running.
    pub fn finish(&mut self, chat: i64)
        ensures
            final(self).active@ == old(self).active@.remove(chat),
            final(self).pending == old(self).pending,
            final(self).cfg == old(self).cfg,
            final(self).permits == old(self).permits,
    {
        self.active.remove(&chat);
        assert(self.active@ =~= old(self).active@.remove(chat));
    }
}

} // verus!
