//! Application-level playback coordination: the play queue, the autoplay
//! decision the owning loop takes when a track finishes, and which screen
//! is shown.

use vstd::prelude::*;

verus! {

/// Which screen the application shows.
#[derive(Debug, Clone, Copy, PartialEq, Eq, Structural)]
pub enum AppScreen {
    Library,
    Browser,
}

/// The ordered list of track paths queued for playback, with the cursor
/// on the entry currently playing.
pub struct PlayQueue {
    pub entries: Vec<String>,
    pub index: usize,
}

impl PlayQueue {
    /// An empty queue.
    pub fn new() -> (q: PlayQueue)
        ensures
            q.entries@.len() == 0,
            q.index == 0,
    {
        PlayQueue { entries: Vec::new(), index: 0 }
    }

    /// Replace the queue, starting at `start_index`.
    pub fn set_play_queue(&mut self, tracks: Vec<String>, start_index: usize)
        ensures
            final(self).entries == tracks,
            final(self).index == start_index,
    {
        self.entries = tracks;
        self.index = start_index;
    }

    /// Step to the next queued track and hand its path out; at the end of
    /// the queue, clear it and hand out nothing.
    pub fn advance(&mut self) -> (r: Option<String>)
        ensures
            old(self).index + 1 < old(self).entries@.len() ==> ({
                &&& final(self).index == old(self).index + 1
                &&& final(self).entries == old(self).entries
                &&& r matches Some(p) && p == old(self).entries@[old(self).index + 1]
            }),
            !(old(self).index + 1 < old(self).entries@.len()) ==> ({
                &&& final(self).index == 0
                &&& final(self).entries@.len() == 0
                &&& r is None
            }),
    {
        if self.entries.len() > 0 && self.index < self.entries.len() - 1 {
            self.index = self.index + 1;
            Some(self.entries[self.index].clone())
        } else {
            self.index = 0;
            self.entries = Vec::new();
            None
        }
    }
}

/// What the owning loop should do after polling the autoplay signal.
#[derive(Debug)]
pub enum AutoplayAction {
    /// Signal not raised: keep going.
    Continue,
    /// Start this path.
    Start(String),
    /// Tear the engine down to idle: autoplay is off, or nothing follows.
    Stop,
}

/// The autoplay policy, exactly: nothing happens until the finished
/// signal was raised; then, with autoplay on and a next track known, that
/// track starts; otherwise the engine is stopped to idle with nothing
/// queued.
pub fn autoplay_decision(trigger_was_set: bool, autoplay_enabled: bool, next: Option<String>) -> (a:
    AutoplayAction)
    ensures
        !trigger_was_set ==> a is Continue,
        trigger_was_set && autoplay_enabled && next is Some ==> (a matches AutoplayAction::Start(
            p,
        ) && p == next->0),
        trigger_was_set && !(autoplay_enabled && next is Some) ==> a is Stop,
{
    if !trigger_was_set {
        AutoplayAction::Continue
    } else {
        match next {
            Some(p) if autoplay_enabled => AutoplayAction::Start(p),
            _ => AutoplayAction::Stop,
        }
    }
}

} // verus!
