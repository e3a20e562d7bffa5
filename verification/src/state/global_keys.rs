//! Global keys: Ctrl+C stops the application, Tab and Shift+Tab move focus,
//! arrows, Page Up/Down and Ctrl+Home/End scroll the focused component.

use vstd::prelude::*;
use crate::state::keyboard::{KeyboardEvent, KeyState};
use crate::state::mouse::ScrollDirection;
use crate::state::focus::{FocusState, focus_next, focus_previous, focus_step_done};
use crate::state::scroll::{
    handle_arrow_scroll, handle_page_scroll, handle_home_end, arrow_scroll_done, page_scroll_done, home_end_done,
};
use crate::layout::computed::ComputedLayout;
use crate::engine::registry::Registry;
use crate::engine::arrays::Arrays;
use crate::chars::str_chars;

verus! {

broadcast use vstd::string::group_string_axioms;

/// What a global key does.
#[derive(Debug, Clone, Copy, PartialEq, Eq, Structural)]
pub enum GlobalKeyAction {
    /// Stop the application (Ctrl+C).
    Quit,
    /// Move focus forward (Tab).
    FocusNext,
    /// Move focus backward (Shift+Tab).
    FocusPrevious,
    /// Scroll the focused component by a line (arrows, no modifier).
    ArrowScroll(ScrollDirection),
    /// Scroll the focused component by a page (Page Up/Down).
    PageScroll(ScrollDirection),
    /// Scroll the focused component to the top (true) or bottom (Ctrl+Home/End).
    HomeEnd(bool),
    /// Not a global key.
    Pass,
}

/// The global action of a key with its modifiers, in the order the global
/// handlers take it.
pub open spec fn global_action_spec(key: Seq<char>, ctrl: bool, alt: bool, shift: bool) -> GlobalKeyAction {
    if ctrl && key == "c"@ {
        GlobalKeyAction::Quit
    } else if key == "Tab"@ && shift {
        GlobalKeyAction::FocusPrevious
    } else if key == "Tab"@ {
        GlobalKeyAction::FocusNext
    } else if !ctrl && !alt && !shift && key == "ArrowUp"@ {
        GlobalKeyAction::ArrowScroll(ScrollDirection::Up)
    } else if !ctrl && !alt && !shift && key == "ArrowDown"@ {
        GlobalKeyAction::ArrowScroll(ScrollDirection::Down)
    } else if !ctrl && !alt && !shift && key == "ArrowLeft"@ {
        GlobalKeyAction::ArrowScroll(ScrollDirection::Left)
    } else if !ctrl && !alt && !shift && key == "ArrowRight"@ {
        GlobalKeyAction::ArrowScroll(ScrollDirection::Right)
    } else if key == "PageUp"@ {
        GlobalKeyAction::PageScroll(ScrollDirection::Up)
    } else if key == "PageDown"@ {
        GlobalKeyAction::PageScroll(ScrollDirection::Down)
    } else if ctrl && key == "Home"@ {
        GlobalKeyAction::HomeEnd(true)
    } else if ctrl && key == "End"@ {
        GlobalKeyAction::HomeEnd(false)
    } else {
        GlobalKeyAction::Pass
    }
}

/// What each global key does, whatever other modifiers are held: Ctrl+C
/// quits; Tab moves focus backward with Shift and forward without; an
/// unmodified arrow scrolls a line in its own direction; Page Up scrolls a
/// page up and Page Down a page down (unless Ctrl is held on a "c" key,
/// which these are not); Ctrl+Home scrolls to the top and Ctrl+End to the
/// bottom; a letter without Ctrl is no global key.
pub proof fn lemma_global_key_meanings(ctrl: bool, alt: bool, shift: bool)
    ensures
        ctrl ==> global_action_spec("c"@, ctrl, alt, shift) == GlobalKeyAction::Quit,
        !ctrl ==> global_action_spec("c"@, ctrl, alt, shift) == GlobalKeyAction::Pass,
        global_action_spec("Tab"@, ctrl, alt, shift) == if shift {
            GlobalKeyAction::FocusPrevious
        } else {
            GlobalKeyAction::FocusNext
        },
        global_action_spec("PageUp"@, ctrl, alt, shift) == GlobalKeyAction::PageScroll(ScrollDirection::Up),
        global_action_spec("PageDown"@, ctrl, alt, shift) == GlobalKeyAction::PageScroll(ScrollDirection::Down),
        !ctrl && !alt && !shift ==> global_action_spec("ArrowUp"@, ctrl, alt, shift) == GlobalKeyAction::ArrowScroll(
            ScrollDirection::Up,
        ),
        !ctrl && !alt && !shift ==> global_action_spec("ArrowDown"@, ctrl, alt, shift) == GlobalKeyAction::ArrowScroll(
            ScrollDirection::Down,
        ),
        !ctrl && !alt && !shift ==> global_action_spec("ArrowLeft"@, ctrl, alt, shift) == GlobalKeyAction::ArrowScroll(
            ScrollDirection::Left,
        ),
        !ctrl && !alt && !shift ==> global_action_spec("ArrowRight"@, ctrl, alt, shift) == GlobalKeyAction::ArrowScroll(
            ScrollDirection::Right,
        ),
        (ctrl || alt || shift) ==> global_action_spec("ArrowUp"@, ctrl, alt, shift) == GlobalKeyAction::Pass,
        ctrl ==> global_action_spec("Home"@, ctrl, alt, shift) == GlobalKeyAction::HomeEnd(true),
        ctrl ==> global_action_spec("End"@, ctrl, alt, shift) == GlobalKeyAction::HomeEnd(false),
        !ctrl ==> global_action_spec("Home"@, ctrl, alt, shift) == GlobalKeyAction::Pass,
        !ctrl ==> global_action_spec("End"@, ctrl, alt, shift) == GlobalKeyAction::Pass,
{
    reveal_strlit("c");
    reveal_strlit("Tab");
    reveal_strlit("ArrowUp");
    reveal_strlit("ArrowDown");
    reveal_strlit("ArrowLeft");
    reveal_strlit("ArrowRight");
    reveal_strlit("PageUp");
    reveal_strlit("PageDown");
    reveal_strlit("Home");
    reveal_strlit("End");
    assert("c"@.len() == 1 && "Tab"@.len() == 3 && "End"@.len() == 3 && "Home"@.len() == 4);
    assert("PageUp"@.len() == 6 && "ArrowUp"@.len() == 7 && "PageDown"@.len() == 8);
    assert("ArrowDown"@.len() == 9 && "ArrowLeft"@.len() == 9 && "ArrowRight"@.len() == 10);
    assert("Tab"@[0] != "End"@[0]);
    assert("ArrowDown"@[5] != "ArrowLeft"@[5]);
}

/// Whether a key string equals a literal.
fn key_is(key: &String, lit: &str) -> (b: bool)
    ensures
        b == (key@ == lit@),
{
    let a = str_chars(key.as_str());
    let l = str_chars(lit);
    crate::chars::chars_eq(a.as_slice(), l.as_slice())
}

/// The global action of a keyboard event.
pub fn global_key_action(event: &KeyboardEvent) -> (a: GlobalKeyAction)
    ensures
        a == global_action_spec(event.key@, event.modifiers.ctrl, event.modifiers.alt, event.modifiers.shift),
{
    let m = event.modifiers;
    let k = &event.key;
    if m.ctrl && key_is(k, "c") {
        GlobalKeyAction::Quit
    } else if key_is(k, "Tab") && m.shift {
        GlobalKeyAction::FocusPrevious
    } else if key_is(k, "Tab") {
        GlobalKeyAction::FocusNext
    } else if !m.ctrl && !m.alt && !m.shift && key_is(k, "ArrowUp") {
        GlobalKeyAction::ArrowScroll(ScrollDirection::Up)
    } else if !m.ctrl && !m.alt && !m.shift && key_is(k, "ArrowDown") {
        GlobalKeyAction::ArrowScroll(ScrollDirection::Down)
    } else if !m.ctrl && !m.alt && !m.shift && key_is(k, "ArrowLeft") {
        GlobalKeyAction::ArrowScroll(ScrollDirection::Left)
    } else if !m.ctrl && !m.alt && !m.shift && key_is(k, "ArrowRight") {
        GlobalKeyAction::ArrowScroll(ScrollDirection::Right)
    } else if key_is(k, "PageUp") {
        GlobalKeyAction::PageScroll(ScrollDirection::Up)
    } else if key_is(k, "PageDown") {
        GlobalKeyAction::PageScroll(ScrollDirection::Down)
    } else if m.ctrl && key_is(k, "Home") {
        GlobalKeyAction::HomeEnd(true)
    } else if m.ctrl && key_is(k, "End") {
        GlobalKeyAction::HomeEnd(false)
    } else {
        GlobalKeyAction::Pass
    }
}

/// Whether the global keys are installed.
pub struct GlobalKeysHandle {
    installed: bool,
}

impl GlobalKeysHandle {
    /// Whether the global keys take events.
    pub closed spec fn installed_spec(&self) -> bool {
        self.installed
    }

    /// Remove the global keys.
    pub fn cleanup(&mut self)
        ensures
            !final(self).installed_spec(),
    {
        self.installed = false;
    }
}

/// Install the global keys.
pub fn setup_global_keys() -> (h: GlobalKeysHandle)
    ensures
        h.installed_spec(),
{
    GlobalKeysHandle { installed: true }
}

/// Remove all global key handlers (the handle already removes its own).
pub fn cleanup_global_keys(handle: &mut GlobalKeysHandle)
    ensures
        !final(handle).installed_spec(),
{
    handle.cleanup();
}

/// Handle a key press with the global keys: Ctrl+C clears `running`; Tab
/// and Shift+Tab move focus; the scroll keys scroll the focused component
/// when there is a layout. Returns whether the key was consumed: always for
/// Ctrl+C and Tab, for scroll keys when something scrolled. Nothing happens
/// when the keys are not installed or the event is not a press.
pub fn handle_global_key<F: Fn()>(
    handle: &GlobalKeysHandle,
    event: &KeyboardEvent,
    running: &mut bool,
    focus: &mut FocusState<F>,
    reg: &Registry,
    arrays: &mut Arrays,
    layout: Option<&ComputedLayout>,
) -> (r: bool)
    requires
        old(focus).wf(),
        reg.wf(),
    ensures
        final(focus).wf(),
        final(focus).trap_stack_spec() == old(focus).trap_stack_spec(),
        final(focus).callback_indices() == old(focus).callback_indices(),
        final(arrays).core == old(arrays).core,
        final(arrays).text == old(arrays).text,
        ({
            let active = handle.installed_spec() && event.state == KeyState::Press;
            let a = global_action_spec(event.key@, event.modifiers.ctrl, event.modifiers.alt, event.modifiers.shift);
            let f = old(focus).focused_spec();
            let unchanged_focus = *final(focus) == *old(focus);
            let unchanged_arrays = *final(arrays) == *old(arrays);
            let same_running = *final(running) == *old(running);
            if !active {
                !r && same_running && unchanged_focus && unchanged_arrays
            } else {
                match a {
                    GlobalKeyAction::Quit => r && !*final(running) && unchanged_focus && unchanged_arrays,
                    GlobalKeyAction::FocusNext => r && same_running && unchanged_arrays && focus_step_done(
                        *old(focus),
                        *final(focus),
                        reg,
                        &*old(arrays),
                        1,
                    ),
                    GlobalKeyAction::FocusPrevious => r && same_running && unchanged_arrays && focus_step_done(
                        *old(focus),
                        *final(focus),
                        reg,
                        &*old(arrays),
                        -1,
                    ),
                    GlobalKeyAction::ArrowScroll(d) => same_running && unchanged_focus && match layout {
                        Some(l) => final(arrays).flex == old(arrays).flex && final(arrays).visual == old(arrays).visual
                            && arrow_scroll_done(l, f, old(arrays).interaction, final(arrays).interaction, d, r),
                        None => !r && unchanged_arrays,
                    },
                    GlobalKeyAction::PageScroll(d) => same_running && unchanged_focus && match layout {
                        Some(l) => final(arrays).flex == old(arrays).flex && final(arrays).visual == old(arrays).visual
                            && page_scroll_done(l, f, old(arrays).interaction, final(arrays).interaction, d, r),
                        None => !r && unchanged_arrays,
                    },
                    GlobalKeyAction::HomeEnd(to_top) => same_running && unchanged_focus && match layout {
                        Some(l) => final(arrays).flex == old(arrays).flex && final(arrays).visual == old(arrays).visual
                            && home_end_done(l, f, old(arrays).interaction, final(arrays).interaction, to_top, r),
                        None => !r && unchanged_arrays,
                    },
                    GlobalKeyAction::Pass => !r && same_running && unchanged_focus && unchanged_arrays,
                }
            }
        }),
{
    if !handle.installed || event.state != KeyState::Press {
        return false;
    }
    match global_key_action(event) {
        GlobalKeyAction::Quit => {
            *running = false;
            true
        },
        GlobalKeyAction::FocusNext => {
            focus_next(focus, reg, arrays);
            true
        },
        GlobalKeyAction::FocusPrevious => {
            focus_previous(focus, reg, arrays);
            true
        },
        GlobalKeyAction::ArrowScroll(d) => match layout {
            Some(l) => handle_arrow_scroll(l, focus, &mut arrays.interaction, d),
            None => false,
        },
        GlobalKeyAction::PageScroll(d) => match layout {
            Some(l) => handle_page_scroll(l, focus, &mut arrays.interaction, d),
            None => false,
        },
        GlobalKeyAction::HomeEnd(to_top) => match layout {
            Some(l) => handle_home_end(l, focus, &mut arrays.interaction, to_top),
            None => false,
        },
        GlobalKeyAction::Pass => false,
    }
}

} // verus!
