//! Input history and blink configuration.

use vstd::prelude::*;

verus! {

broadcast use vstd::string::group_string_axioms;

/// Input history: submitted entries, oldest first, and the browsing state.
#[derive(Debug, Clone)]
pub struct InputHistory {
    /// Entries, oldest first.
    pub entries: Vec<String>,
    /// Position while browsing; -1 when editing a new value.
    pub position: i32,
    /// Most entries kept.
    pub max_entries: usize,
    /// The value being edited when browsing started.
    pub editing_value: Option<String>,
}

/// The texts of a list of strings.
pub open spec fn texts(v: Seq<String>) -> Seq<Seq<char>> {
    v.map_values(|s: String| s@)
}

/// The text of an optional string.
pub open spec fn opt_text(s: Option<String>) -> Option<Seq<char>> {
    match s {
        Some(t) => Some(t@),
        None => None,
    }
}

/// The entries after adding `entry` and trimming to `max` from the front.
pub open spec fn pushed_entries(entries: Seq<Seq<char>>, entry: Seq<char>, max: nat) -> Seq<Seq<char>> {
    let e = entries.push(entry);
    if e.len() > max {
        e.skip(e.len() - max)
    } else {
        e
    }
}

impl InputHistory {
    /// The browsing position lies in the entries (or is -1) and every
    /// index fits the position's type.
    pub open spec fn wf(&self) -> bool {
        &&& self.entries@.len() <= i32::MAX
        &&& -1 <= self.position < self.entries@.len()
    }

    /// A history holding the given entries, not browsing, keeping 100.
    pub fn new(entries: Vec<String>) -> (h: InputHistory)
        requires
            entries@.len() <= i32::MAX,
        ensures
            h.wf(),
            h.entries@ == entries@,
            h.position == -1,
            h.max_entries == 100,
            h.editing_value is None,
    {
        InputHistory { entries, position: -1, max_entries: 100, editing_value: None }
    }

    /// An empty history.
    pub fn auto() -> (h: InputHistory)
        ensures
            h.wf(),
            h.entries@.len() == 0,
            h.position == -1,
            h.max_entries == 100,
            h.editing_value is None,
    {
        InputHistory { entries: Vec::new(), position: -1, max_entries: 100, editing_value: None }
    }

    /// Add a submitted entry: an empty entry or a repeat of the newest one
    /// is skipped; otherwise it is appended, the oldest entries beyond
    /// `max_entries` are dropped, and browsing ends.
    pub fn push(&mut self, entry: String)
        requires
            old(self).wf(),
            old(self).max_entries <= i32::MAX || old(self).entries@.len() < i32::MAX,
        ensures
            final(self).wf(),
            final(self).max_entries == old(self).max_entries,
            ({
                let old_texts = texts(old(self).entries@);
                let skipped = entry@.len() == 0 || (old_texts.len() > 0 && old_texts.last() == entry@);
                &&& skipped ==> texts(final(self).entries@) == old_texts && final(self).position == old(self).position
                    && opt_text(final(self).editing_value) == opt_text(old(self).editing_value)
                &&& !skipped ==> texts(final(self).entries@) == pushed_entries(
                    old_texts,
                    entry@,
                    old(self).max_entries as nat,
                ) && final(self).position == -1 && final(self).editing_value is None
            }),
    {
        let n = self.entries.len();
        if n > 0 {
            if self.entries[n - 1] == entry {
                assert(texts(self.entries@)[n - 1] == self.entries@[n - 1]@);
                return;
            }
            assert(texts(self.entries@)[n - 1] == self.entries@[n - 1]@);
        }
        if entry.unicode_len() == 0 {
            return;
        }
        let ghost before = texts(self.entries@);
        self.entries.push(entry);
        let ghost after_push = before.push(entry@);
        assert(texts(self.entries@) =~= after_push);
        while self.entries.len() > self.max_entries
            invariant
                texts(self.entries@) == after_push.skip(after_push.len() - self.entries@.len()),
                self.entries@.len() <= after_push.len(),
                after_push.len() > self.max_entries ==> self.entries@.len() >= self.max_entries,
                after_push.len() <= self.max_entries ==> self.entries@.len() == after_push.len(),
                self.max_entries == old(self).max_entries,
                self.max_entries <= i32::MAX || after_push.len() <= i32::MAX,
            decreases self.entries.len(),
        {
            let ghost prev = self.entries@;
            self.entries.remove(0);
            assert(texts(self.entries@) =~= texts(prev).drop_first());
            assert(after_push.skip(after_push.len() - self.entries@.len()) =~= after_push.skip(
                after_push.len() - prev.len(),
            ).drop_first());
        }
        proof {
            if self.entries@.len() == after_push.len() {
                assert(after_push.skip(0) =~= after_push);
            }
        }
        self.position = -1;
        self.editing_value = None;
    }

    /// Browse to an older entry. The first step saves the value being
    /// edited and shows the newest entry; further steps go back one entry;
    /// None at the oldest entry or with no entries.
    pub fn up(&mut self, current_value: &str) -> (r: Option<String>)
        requires
            old(self).wf(),
        ensures
            final(self).wf(),
            final(self).entries@ == old(self).entries@,
            final(self).max_entries == old(self).max_entries,
            old(self).entries@.len() == 0 ==> r is None && final(self).position == old(self).position
                && opt_text(final(self).editing_value) == opt_text(old(self).editing_value),
            old(self).entries@.len() > 0 && old(self).position == -1 ==> final(self).position == old(
                self,
            ).entries@.len() - 1 && opt_text(final(self).editing_value) == Some(current_value@) && opt_text(r)
                == Some(old(self).entries@[old(self).entries@.len() - 1]@),
            old(self).entries@.len() > 0 && old(self).position > 0 ==> final(self).position == old(self).position - 1
                && opt_text(final(self).editing_value) == opt_text(old(self).editing_value) && opt_text(r) == Some(
                old(self).entries@[old(self).position - 1]@,
            ),
            old(self).entries@.len() > 0 && old(self).position == 0 ==> r is None && final(self).position == 0
                && opt_text(final(self).editing_value) == opt_text(old(self).editing_value),
    {
        if self.entries.len() == 0 {
            return None;
        }
        if self.position == -1 {
            self.editing_value = Some(current_value.to_string());
            let p = self.entries.len() - 1;
            self.position = p as i32;
            Some(self.entries[p].clone())
        } else if self.position > 0 {
            self.position = self.position - 1;
            Some(self.entries[self.position as usize].clone())
        } else {
            None
        }
    }

    /// Browse to a newer entry; past the newest, browsing ends and the saved
    /// editing value comes back. None when not browsing.
    pub fn down(&mut self) -> (r: Option<String>)
        requires
            old(self).wf(),
        ensures
            final(self).wf(),
            final(self).entries@ == old(self).entries@,
            final(self).max_entries == old(self).max_entries,
            old(self).position == -1 ==> r is None && final(self).position == -1 && opt_text(
                final(self).editing_value,
            ) == opt_text(old(self).editing_value),
            0 <= old(self).position < old(self).entries@.len() - 1 ==> final(self).position == old(self).position + 1
                && opt_text(r) == Some(old(self).entries@[old(self).position + 1]@) && opt_text(
                final(self).editing_value,
            ) == opt_text(old(self).editing_value),
            old(self).position >= 0 && old(self).position == old(self).entries@.len() - 1 ==> final(self).position
                == -1 && opt_text(r) == opt_text(old(self).editing_value) && final(self).editing_value is None,
    {
        if self.position == -1 {
            return None;
        }
        if (self.position as usize) < self.entries.len() - 1 {
            self.position = self.position + 1;
            Some(self.entries[self.position as usize].clone())
        } else {
            self.position = -1;
            let saved = match &self.editing_value {
                Some(s) => Some(s.clone()),
                None => None,
            };
            self.editing_value = None;
            saved
        }
    }

    /// End browsing (the value was edited).
    pub fn reset_position(&mut self)
        requires
            old(self).wf(),
        ensures
            final(self).wf(),
            final(self).entries@ == old(self).entries@,
            final(self).max_entries == old(self).max_entries,
            final(self).position == -1,
            final(self).editing_value is None,
    {
        self.position = -1;
        self.editing_value = None;
    }

    /// Whether the user is browsing the history.
    pub fn is_browsing(&self) -> (b: bool)
        ensures
            b == (self.position >= 0),
    {
        self.position >= 0
    }
}

impl Default for InputHistory {
    fn default() -> (h: InputHistory)
        ensures
            h.wf(),
            h.entries@.len() == 0,
            h.position == -1,
            h.max_entries == 100,
            h.editing_value is None,
    {
        InputHistory::auto()
    }
}

/// Cursor blink configuration.
#[derive(Debug, Clone, Copy, PartialEq, Eq, Structural)]
pub struct BlinkConfig {
    pub enabled: bool,
    /// Blink rate; 2 gives a 500 ms cycle.
    pub fps: u8,
    /// Shown in the off phase (a space when None).
    pub alt_char: Option<char>,
}

impl Default for BlinkConfig {
    fn default() -> (c: BlinkConfig)
        ensures
            c == (BlinkConfig { enabled: true, fps: 2, alt_char: None }),
    {
        BlinkConfig { enabled: true, fps: 2, alt_char: None }
    }
}


/// Browsing up from the value being edited and straight back down returns
/// that value and ends browsing, whatever the history holds.
pub proof fn lemma_history_up_then_down(
    before: InputHistory,
    browsing: InputHistory,
    after: InputHistory,
    current_value: Seq<char>,
    up_result: Option<String>,
    down_result: Option<String>,
)
    requires
        before.wf(),
        before.position == -1,
        before.entries@.len() > 0,
        browsing.entries@ == before.entries@,
        browsing.position == before.entries@.len() - 1,
        opt_text(browsing.editing_value) == Some(current_value),
        opt_text(up_result) == Some(before.entries@[before.entries@.len() - 1]@),
        after.entries@ == browsing.entries@,
        browsing.position >= 0 && browsing.position == browsing.entries@.len() - 1 ==> after.position == -1
            && opt_text(down_result) == opt_text(browsing.editing_value) && after.editing_value is None,
    ensures
        opt_text(down_result) == Some(current_value),
        after.position == -1,
        after.editing_value is None,
{
}

} // verus!
