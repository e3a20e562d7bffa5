//! Cursor blink timing: one shared timer per frame rate, counted by its
//! subscribers. The timer itself runs outside; this state decides when it
//! starts and stops, and holds the phase it toggles.

use vstd::prelude::*;
use crate::handler_list::{lookup, find_key, lemma_lookup_update, lemma_lookup_push_new};

verus! {

/// The blink state of one frame rate.
#[derive(Debug, Clone, Copy, PartialEq, Eq, Structural)]
pub struct BlinkEntry {
    /// true: the cursor is in its visible phase.
    pub phase: bool,
    pub running: bool,
    pub subscribers: usize,
}

/// What the caller does with the blink timer after a call.
#[derive(Debug, Clone, Copy, PartialEq, Eq, Structural)]
pub enum BlinkAction {
    Nothing,
    /// Start a timer toggling the phase of `fps` every `interval_ms`.
    StartTimer { fps: u8, interval_ms: u64 },
    /// Stop the timer of `fps`.
    StopTimer { fps: u8 },
}

/// Blink state per frame rate.
pub struct BlinkRegistries {
    entries: Vec<(usize, BlinkEntry)>,
}

/// The toggle interval of a frame rate: half a period, in milliseconds.
pub open spec fn blink_interval(fps: u8) -> u64 {
    (1000int / (fps as int) / 2) as u64
}

impl BlinkRegistries {
    /// The blink state of a frame rate, if it was ever subscribed.
    pub closed spec fn entry(&self, fps: u8) -> Option<BlinkEntry> {
        lookup(self.entries@, fps as usize)
    }

    /// No frame rate subscribed.
    pub fn new() -> (r: BlinkRegistries)
        ensures
            forall|fps: u8| #[trigger] r.entry(fps) is None,
    {
        BlinkRegistries { entries: Vec::new() }
    }
}

/// Subscribe to the blink timer of a frame rate. Rate 0 does nothing. The
/// first subscriber starts the timer.
pub fn subscribe_to_blink(regs: &mut BlinkRegistries, fps: u8) -> (a: BlinkAction)
    requires
        old(regs).entry(fps) matches Some(e) ==> e.subscribers < usize::MAX,
    ensures
        fps == 0 ==> a == BlinkAction::Nothing && forall|f: u8| #[trigger] final(regs).entry(f) == old(regs).entry(f),
        fps != 0 ==> {
            let n = match old(regs).entry(fps) {
                Some(e) => e.subscribers + 1,
                None => 1,
            };
            let phase = match old(regs).entry(fps) {
                Some(e) => e.phase,
                None => true,
            };
            let running = match old(regs).entry(fps) {
                Some(e) => e.running || n == 1,
                None => true,
            };
            &&& final(regs).entry(fps) == Some(BlinkEntry { phase, running, subscribers: n as usize })
            &&& forall|f: u8| f != fps ==> #[trigger] final(regs).entry(f) == old(regs).entry(f)
            &&& a == if n == 1 {
                BlinkAction::StartTimer { fps, interval_ms: blink_interval(fps) }
            } else {
                BlinkAction::Nothing
            }
        },
{
    if fps == 0 {
        return BlinkAction::Nothing;
    }
    let key = fps as usize;
    let interval = 1000u64 / fps as u64 / 2;
    match find_key(&regs.entries, key) {
        Some(p) => {
            let e = regs.entries[p].1;
            let n = e.subscribers + 1;
            let updated = BlinkEntry { phase: e.phase, running: e.running || n == 1, subscribers: n };
            let ghost before = regs.entries@;
            regs.entries.set(p, (key, updated));
            proof {
                assert forall|f: u8| f != fps implies #[trigger] regs.entry(f) == old(regs).entry(f) by {
                    lemma_lookup_update(before, p as int, key, updated, f as usize);
                }
                lemma_lookup_update(before, p as int, key, updated, key);
            }
            if n == 1 {
                BlinkAction::StartTimer { fps, interval_ms: interval }
            } else {
                BlinkAction::Nothing
            }
        },
        None => {
            let ghost before = regs.entries@;
            let fresh = BlinkEntry { phase: true, running: true, subscribers: 1 };
            regs.entries.push((key, fresh));
            proof {
                assert forall|f: u8| f != fps implies #[trigger] regs.entry(f) == old(regs).entry(f) by {
                    lemma_lookup_push_new(before, key, fresh, f as usize);
                }
                lemma_lookup_push_new(before, key, fresh, key);
            }
            BlinkAction::StartTimer { fps, interval_ms: interval }
        },
    }
}

/// Unsubscribe from the blink timer of a frame rate. The last subscriber
/// stops the timer and the phase returns to visible.
pub fn unsubscribe_from_blink(regs: &mut BlinkRegistries, fps: u8) -> (a: BlinkAction)
    ensures
        forall|f: u8| f != fps ==> #[trigger] final(regs).entry(f) == old(regs).entry(f),
        old(regs).entry(fps) is None ==> a == BlinkAction::Nothing && final(regs).entry(fps) is None,
        old(regs).entry(fps) matches Some(e) ==> {
            let n: usize = if e.subscribers > 0 { (e.subscribers - 1) as usize } else { 0 };
            &&& n == 0 ==> final(regs).entry(fps) == Some(BlinkEntry { phase: true, running: false, subscribers: 0 })
                && a == (BlinkAction::StopTimer { fps })
            &&& n > 0 ==> final(regs).entry(fps) == Some(BlinkEntry { subscribers: n, ..e }) && a == BlinkAction::Nothing
        },
{
    let key = fps as usize;
    match find_key(&regs.entries, key) {
        Some(p) => {
            let e = regs.entries[p].1;
            let n = if e.subscribers > 0 { e.subscribers - 1 } else { 0 };
            let updated = if n == 0 {
                BlinkEntry { phase: true, running: false, subscribers: 0 }
            } else {
                BlinkEntry { subscribers: n, ..e }
            };
            let ghost before = regs.entries@;
            regs.entries.set(p, (key, updated));
            proof {
                assert forall|f: u8| f != fps implies #[trigger] regs.entry(f) == old(regs).entry(f) by {
                    lemma_lookup_update(before, p as int, key, updated, f as usize);
                }
                lemma_lookup_update(before, p as int, key, updated, key);
            }
            if n == 0 {
                BlinkAction::StopTimer { fps }
            } else {
                BlinkAction::Nothing
            }
        },
        None => BlinkAction::Nothing,
    }
}

/// A timer tick: the phase of a running frame rate flips.
pub fn toggle_blink_phase(regs: &mut BlinkRegistries, fps: u8)
    ensures
        forall|f: u8| f != fps ==> #[trigger] final(regs).entry(f) == old(regs).entry(f),
        old(regs).entry(fps) matches Some(e) ==> (e.running ==> final(regs).entry(fps) == Some(
            BlinkEntry { phase: !e.phase, ..e },
        )),
        !(old(regs).entry(fps) matches Some(e) && e.running) ==> final(regs).entry(fps) == old(regs).entry(fps),
{
    let key = fps as usize;
    match find_key(&regs.entries, key) {
        Some(p) => {
            let e = regs.entries[p].1;
            if e.running {
                let updated = BlinkEntry { phase: !e.phase, ..e };
                let ghost before = regs.entries@;
                regs.entries.set(p, (key, updated));
                proof {
                    assert forall|f: u8| f != fps implies #[trigger] regs.entry(f) == old(regs).entry(f) by {
                        lemma_lookup_update(before, p as int, key, updated, f as usize);
                    }
                    lemma_lookup_update(before, p as int, key, updated, key);
                }
            }
        },
        None => {},
    }
}

/// The blink phase of a frame rate; visible when it was never subscribed.
pub fn get_blink_phase(regs: &BlinkRegistries, fps: u8) -> (b: bool)
    ensures
        b == match regs.entry(fps) {
            Some(e) => e.phase,
            None => true,
        },
{
    match find_key(&regs.entries, fps as usize) {
        Some(p) => regs.entries[p].1.phase,
        None => true,
    }
}

/// Whether the timer of a frame rate runs with subscribers.
pub fn is_blink_running(regs: &BlinkRegistries, fps: u8) -> (b: bool)
    ensures
        b == match regs.entry(fps) {
            Some(e) => e.running && e.subscribers > 0,
            None => false,
        },
{
    match find_key(&regs.entries, fps as usize) {
        Some(p) => regs.entries[p].1.running && regs.entries[p].1.subscribers > 0,
        None => false,
    }
}

/// The number of subscribers of a frame rate.
pub fn get_subscriber_count(regs: &BlinkRegistries, fps: u8) -> (n: usize)
    ensures
        n == match regs.entry(fps) {
            Some(e) => e.subscribers,
            None => 0,
        },
{
    match find_key(&regs.entries, fps as usize) {
        Some(p) => regs.entries[p].1.subscribers,
        None => 0,
    }
}

/// Forget every frame rate; the caller stops the listed timers.
pub fn reset_blink_registries(regs: &mut BlinkRegistries) -> (stopped: Vec<u8>)
    ensures
        forall|fps: u8| #[trigger] final(regs).entry(fps) is None,
{
    let mut stopped: Vec<u8> = Vec::new();
    let mut k: usize = 0;
    while k < regs.entries.len()
        invariant
            k <= regs.entries@.len(),
        decreases regs.entries.len() - k,
    {
        let key = regs.entries[k].0;
        if key < 256 {
            stopped.push(key as u8);
        }
        k = k + 1;
    }
    regs.entries.clear();
    stopped
}

} // verus!
