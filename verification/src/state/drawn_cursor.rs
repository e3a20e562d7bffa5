//! Drawn cursors: a cursor drawn into the frame for input components, with
//! its character, an optional manual visibility override and blinking while
//! its component has focus.

use vstd::prelude::*;
use crate::engine::arrays::interaction::{
    InteractionArrays,
    get_cursor_position,
    set_cursor_position,
    get_cursor_visible,
    set_cursor_visible,
    set_cursor_blink_fps,
};
use crate::handler_list::{lookup, find_key, not_id, remove_id, lemma_lookup_replace, lemma_filter_keeps};
use crate::state::animate::{BlinkRegistries, BlinkAction, subscribe_to_blink, unsubscribe_from_blink, get_blink_phase};

verus! {

/// Character code of a block cursor (drawn by inverting the cell).
pub const CURSOR_CHAR_BLOCK: u32 = 0;

/// Character code of a bar cursor (│).
pub const CURSOR_CHAR_BAR: u32 = 0x2502;

/// Character code of an underline cursor (_).
pub const CURSOR_CHAR_UNDERLINE: u32 = 0x5F;

/// Cursor style.
#[derive(Debug, Clone, Copy, PartialEq, Eq, Structural)]
pub enum CursorStyle {
    Block,
    Bar,
    Underline,
}

/// The character code of a style.
pub open spec fn style_char(style: CursorStyle) -> u32 {
    match style {
        CursorStyle::Block => CURSOR_CHAR_BLOCK,
        CursorStyle::Bar => CURSOR_CHAR_BAR,
        CursorStyle::Underline => CURSOR_CHAR_UNDERLINE,
    }
}

/// The character code of a style.
fn cursor_char_for_style(style: CursorStyle) -> (c: u32)
    ensures
        c == style_char(style),
{
    match style {
        CursorStyle::Block => CURSOR_CHAR_BLOCK,
        CursorStyle::Bar => CURSOR_CHAR_BAR,
        CursorStyle::Underline => CURSOR_CHAR_UNDERLINE,
    }
}

/// How a cursor looks and blinks.
#[derive(Debug, Clone, Copy, PartialEq, Eq, Structural)]
pub struct DrawnCursorConfig {
    pub style: CursorStyle,
    /// A character overriding the style's.
    pub char: Option<char>,
    pub blink: bool,
    pub fps: u8,
    /// Shown in the blink's off phase.
    pub alt_char: Option<char>,
}

impl Default for DrawnCursorConfig {
    fn default() -> (c: DrawnCursorConfig)
        ensures
            c == (DrawnCursorConfig { style: CursorStyle::Block, char: None, blink: true, fps: 2, alt_char: None }),
    {
        DrawnCursorConfig { style: CursorStyle::Block, char: None, blink: true, fps: 2, alt_char: None }
    }
}

/// The state of one drawn cursor.
#[derive(Debug, Clone, Copy, PartialEq, Eq, Structural)]
pub struct CursorEntry {
    /// Forced visibility, when set.
    pub manual_visible: Option<bool>,
    pub blink_enabled: bool,
    pub fps: u8,
    /// Whether this cursor holds a blink subscription.
    pub blink_subscribed: bool,
    pub char_code: u32,
    pub alt_char_code: u32,
    pub style: CursorStyle,
}

/// The drawn cursors, one per component.
pub struct DrawnCursors {
    entries: Vec<(usize, CursorEntry)>,
}

impl DrawnCursors {
    /// The cursor of a component, if it has one.
    pub closed spec fn entry(&self, index: usize) -> Option<CursorEntry> {
        lookup(self.entries@, index)
    }

    /// The components with cursors (in creation order).
    pub closed spec fn entries_spec(&self) -> Seq<(usize, CursorEntry)> {
        self.entries@
    }

    /// No cursors.
    pub fn new() -> (c: DrawnCursors)
        ensures
            c.entries_spec().len() == 0,
            forall|i: usize| #[trigger] c.entry(i) is None,
    {
        DrawnCursors { entries: Vec::new() }
    }
}

/// The entry a configuration creates.
pub open spec fn entry_for(config: DrawnCursorConfig) -> CursorEntry {
    CursorEntry {
        manual_visible: None,
        blink_enabled: config.blink && config.fps > 0,
        fps: config.fps,
        blink_subscribed: false,
        char_code: match config.char {
            Some(c) => c as u32,
            None => style_char(config.style),
        },
        alt_char_code: match config.alt_char {
            Some(c) => c as u32,
            None => 0,
        },
        style: config.style,
    }
}

/// A handle to the cursor of a component.
pub struct DrawnCursor {
    index: usize,
}

impl DrawnCursor {
    /// The component the cursor belongs to.
    pub closed spec fn index_spec(&self) -> usize {
        self.index
    }

    /// Move the cursor to a position in the text.
    pub fn set_position(&self, inter: &mut InteractionArrays, pos: u16)
        ensures
            old(inter).cursor_position.written(final(inter).cursor_position, self.index_spec() as int, pos),
            *final(inter) == (InteractionArrays { cursor_position: final(inter).cursor_position, ..*old(inter) }),
    {
        set_cursor_position(inter, self.index, pos);
    }

    /// The cursor's position in the text.
    pub fn get_position(&self, inter: &InteractionArrays) -> (p: u16)
        ensures
            p == inter.cursor_position.at(self.index_spec() as int),
    {
        get_cursor_position(inter, self.index)
    }

    /// Force the cursor visible.
    pub fn show(&self, cursors: &mut DrawnCursors)
        ensures
            final(cursors).entries_spec().len() == old(cursors).entries_spec().len(),
            forall|i: usize| i != self.index_spec() ==> #[trigger] final(cursors).entry(i) == old(cursors).entry(i),
            old(cursors).entry(self.index_spec()) matches Some(e) ==> final(cursors).entry(self.index_spec())
                == Some(CursorEntry { manual_visible: Some(true), ..e }),
            old(cursors).entry(self.index_spec()) is None ==> final(cursors).entry(self.index_spec()) is None,
    {
        set_override(cursors, self.index, Some(true));
    }

    /// Force the cursor hidden.
    pub fn conceal(&self, cursors: &mut DrawnCursors)
        ensures
            final(cursors).entries_spec().len() == old(cursors).entries_spec().len(),
            forall|i: usize| i != self.index_spec() ==> #[trigger] final(cursors).entry(i) == old(cursors).entry(i),
            old(cursors).entry(self.index_spec()) matches Some(e) ==> final(cursors).entry(self.index_spec())
                == Some(CursorEntry { manual_visible: Some(false), ..e }),
            old(cursors).entry(self.index_spec()) is None ==> final(cursors).entry(self.index_spec()) is None,
    {
        set_override(cursors, self.index, Some(false));
    }

    /// Drop the visibility override: blinking decides again.
    pub fn clear_override(&self, cursors: &mut DrawnCursors)
        ensures
            final(cursors).entries_spec().len() == old(cursors).entries_spec().len(),
            forall|i: usize| i != self.index_spec() ==> #[trigger] final(cursors).entry(i) == old(cursors).entry(i),
            old(cursors).entry(self.index_spec()) matches Some(e) ==> final(cursors).entry(self.index_spec())
                == Some(CursorEntry { manual_visible: None, ..e }),
            old(cursors).entry(self.index_spec()) is None ==> final(cursors).entry(self.index_spec()) is None,
    {
        set_override(cursors, self.index, None);
    }

    /// Whether the cursor is currently drawn visible.
    pub fn is_visible(&self, inter: &InteractionArrays) -> (b: bool)
        ensures
            b == inter.cursor_visible.at(self.index_spec() as int),
    {
        get_cursor_visible(inter, self.index)
    }

    /// Remove the cursor (see `dispose_cursor`).
    pub fn dispose(self, cursors: &mut DrawnCursors, inter: &mut InteractionArrays, regs: &mut BlinkRegistries) -> (a: BlinkAction)
        ensures
            final(cursors).entry(self.index_spec()) is None,
            forall|i: usize| i != self.index_spec() ==> #[trigger] final(cursors).entry(i) == old(cursors).entry(i),
    {
        dispose_cursor(cursors, inter, regs, self.index)
    }
}

/// Set the visibility override of a component's cursor, if it has one.
fn set_override(cursors: &mut DrawnCursors, index: usize, value: Option<bool>)
    ensures
        final(cursors).entries_spec().len() == old(cursors).entries_spec().len(),
        forall|i: usize| i != index ==> #[trigger] final(cursors).entry(i) == old(cursors).entry(i),
        old(cursors).entry(index) matches Some(e) ==> final(cursors).entry(index) == Some(
            CursorEntry { manual_visible: value, ..e },
        ),
        old(cursors).entry(index) is None ==> final(cursors).entry(index) is None,
{
    match find_key(&cursors.entries, index) {
        Some(p) => {
            let e = cursors.entries[p].1;
            let updated = CursorEntry { manual_visible: value, ..e };
            let ghost before = cursors.entries@;
            cursors.entries.set(p, (index, updated));
            proof {
                assert forall|i: usize| i != index implies #[trigger] cursors.entry(i) == old(cursors).entry(i) by {
                    crate::handler_list::lemma_lookup_update(before, p as int, index, updated, i);
                }
                crate::handler_list::lemma_lookup_update(before, p as int, index, updated, index);
            }
        },
        None => {},
    }
}

/// Create a cursor for a component (replacing one it had): its blink rate
/// is recorded for drawing (0 without blinking).
pub fn create_cursor(cursors: &mut DrawnCursors, inter: &mut InteractionArrays, index: usize, config: DrawnCursorConfig) -> (c: DrawnCursor)
    ensures
        c.index_spec() == index,
        final(cursors).entry(index) == Some(entry_for(config)),
        forall|i: usize| i != index ==> #[trigger] final(cursors).entry(i) == old(cursors).entry(i),
        old(inter).cursor_blink_fps.written(
            final(inter).cursor_blink_fps,
            index as int,
            if config.blink { config.fps } else { 0 },
        ),
        *final(inter) == (InteractionArrays { cursor_blink_fps: final(inter).cursor_blink_fps, ..*old(inter) }),
{
    let char_code = match config.char {
        Some(ch) => ch as u32,
        None => cursor_char_for_style(config.style),
    };
    let alt_char_code = match config.alt_char {
        Some(ch) => ch as u32,
        None => 0,
    };
    set_cursor_blink_fps(inter, index, if config.blink { config.fps } else { 0 });
    let entry = CursorEntry {
        manual_visible: None,
        blink_enabled: config.blink && config.fps > 0,
        fps: config.fps,
        blink_subscribed: false,
        char_code,
        alt_char_code,
        style: config.style,
    };
    let ghost before = cursors.entries@;
    remove_id(&mut cursors.entries, index);
    cursors.entries.push((index, entry));
    proof {
        assert forall|i: usize| i != index implies #[trigger] cursors.entry(i) == old(cursors).entry(i) by {
            lemma_lookup_replace(before, index, entry, i);
        }
        lemma_lookup_replace(before, index, entry, index);
    }
    DrawnCursor { index }
}

/// Whether a cursor shows now: a manual override wins; otherwise it shows
/// when its component is not focused or it does not blink, else by the
/// blink phase.
pub open spec fn cursor_shows(e: CursorEntry, focused: bool, phase: bool) -> bool {
    match e.manual_visible {
        Some(v) => v,
        None => !focused || !e.blink_enabled || phase,
    }
}

/// Whether a component's cursor shows now; without a cursor it reads as
/// visible, the array default.
pub fn cursor_visible_now(cursors: &DrawnCursors, regs: &BlinkRegistries, index: usize, focused: bool) -> (b: bool)
    ensures
        cursors.entry(index) matches Some(e) ==> b == cursor_shows(
            e,
            focused,
            match regs.entry(e.fps) {
                Some(r) => r.phase,
                None => true,
            },
        ),
        cursors.entry(index) is None ==> b,
{
    match find_key(&cursors.entries, index) {
        Some(p) => {
            let e = cursors.entries[p].1;
            match e.manual_visible {
                Some(v) => v,
                None => {
                    if !focused || !e.blink_enabled {
                        true
                    } else {
                        get_blink_phase(regs, e.fps)
                    }
                },
            }
        },
        None => true,
    }
}

/// Focus came to or left a component: a blinking cursor subscribes to its
/// blink timer on focus and unsubscribes on blur. Returns what to do with
/// the timer.
pub fn cursor_focus_changed(cursors: &mut DrawnCursors, regs: &mut BlinkRegistries, index: usize, focused: bool) -> (a: BlinkAction)
    requires
        forall|f: u8| #[trigger] old(regs).entry(f) matches Some(e) ==> e.subscribers < usize::MAX,
    ensures
        forall|i: usize| i != index ==> #[trigger] final(cursors).entry(i) == old(cursors).entry(i),
        final(cursors).entries_spec().len() == old(cursors).entries_spec().len(),
        old(cursors).entry(index) is None ==> a == BlinkAction::Nothing && final(cursors).entry(index) is None,
        old(cursors).entry(index) matches Some(e) ==> {
            &&& focused && e.blink_enabled && !e.blink_subscribed ==> final(cursors).entry(index) == Some(
                CursorEntry { blink_subscribed: true, ..e },
            )
            &&& !focused && e.blink_subscribed ==> final(cursors).entry(index) == Some(
                CursorEntry { blink_subscribed: false, ..e },
            )
            &&& !(focused && e.blink_enabled && !e.blink_subscribed) && !(!focused && e.blink_subscribed)
                ==> final(cursors).entry(index) == Some(e) && a == BlinkAction::Nothing
        },
{
    match find_key(&cursors.entries, index) {
        Some(p) => {
            let e = cursors.entries[p].1;
            let ghost before = cursors.entries@;
            if focused && e.blink_enabled && !e.blink_subscribed {
                let a = subscribe_to_blink(regs, e.fps);
                let updated = CursorEntry { blink_subscribed: true, ..e };
                cursors.entries.set(p, (index, updated));
                proof {
                    assert forall|i: usize| i != index implies #[trigger] cursors.entry(i) == old(cursors).entry(i) by {
                        crate::handler_list::lemma_lookup_update(before, p as int, index, updated, i);
                    }
                    crate::handler_list::lemma_lookup_update(before, p as int, index, updated, index);
                }
                a
            } else if !focused && e.blink_subscribed {
                let a = unsubscribe_from_blink(regs, e.fps);
                let updated = CursorEntry { blink_subscribed: false, ..e };
                cursors.entries.set(p, (index, updated));
                proof {
                    assert forall|i: usize| i != index implies #[trigger] cursors.entry(i) == old(cursors).entry(i) by {
                        crate::handler_list::lemma_lookup_update(before, p as int, index, updated, i);
                    }
                    crate::handler_list::lemma_lookup_update(before, p as int, index, updated, index);
                }
                a
            } else {
                BlinkAction::Nothing
            }
        },
        None => BlinkAction::Nothing,
    }
}

/// Remove a component's cursor: a blink subscription it holds ends, and
/// its drawing state returns to the defaults (no blinking, visible).
pub fn dispose_cursor(cursors: &mut DrawnCursors, inter: &mut InteractionArrays, regs: &mut BlinkRegistries, index: usize) -> (a: BlinkAction)
    ensures
        final(cursors).entry(index) is None,
        final(cursors).entries_spec() == old(cursors).entries_spec().filter(not_id::<CursorEntry>(index)),
        forall|i: usize| i != index ==> #[trigger] final(cursors).entry(i) == old(cursors).entry(i),
        final(inter).cursor_blink_fps.at(index as int) == 0,
        final(inter).cursor_visible.at(index as int),
        !(old(cursors).entry(index) matches Some(e) && e.blink_subscribed) ==> a == BlinkAction::Nothing,
{
    let mut action = BlinkAction::Nothing;
    match find_key(&cursors.entries, index) {
        Some(p) => {
            let e = cursors.entries[p].1;
            if e.blink_subscribed {
                action = unsubscribe_from_blink(regs, e.fps);
            }
        },
        None => {},
    }
    let ghost before = cursors.entries@;
    remove_id(&mut cursors.entries, index);
    proof {
        assert forall|i: usize| i != index implies #[trigger] cursors.entry(i) == old(cursors).entry(i) by {
            crate::handler_list::lemma_lookup_filter_other(before, index, i);
        }
        crate::handler_list::lemma_filter_no_key(before, index);
        crate::handler_list::lemma_lookup_absent(cursors.entries@, index);
    }
    set_cursor_blink_fps(inter, index, 0);
    set_cursor_visible(inter, index, true);
    action
}

/// Whether a component has a cursor.
pub fn has_cursor(cursors: &DrawnCursors, index: usize) -> (b: bool)
    ensures
        b == cursors.entry(index) is Some,
{
    find_key(&cursors.entries, index).is_some()
}

/// The number of cursors.
pub fn active_cursor_count(cursors: &DrawnCursors) -> (n: usize)
    ensures
        n == cursors.entries_spec().len(),
{
    cursors.entries.len()
}

/// Remove every cursor; returns what to do with the blink timers.
pub fn reset_cursors(cursors: &mut DrawnCursors, inter: &mut InteractionArrays, regs: &mut BlinkRegistries) -> (actions: Vec<BlinkAction>)
    ensures
        final(cursors).entries_spec().len() == 0,
{
    let mut actions: Vec<BlinkAction> = Vec::new();
    while cursors.entries.len() > 0
        decreases cursors.entries@.len(),
    {
        let index = cursors.entries[0].0;
        let ghost before = cursors.entries@;
        let a = dispose_cursor(cursors, inter, regs, index);
        proof {
            crate::handler_list::lemma_filter_shrinks(before, index);
        }
        actions.push(a);
    }
    actions
}

} // verus!
