//! Focus system: focused index, Tab cycling, focus traps, history and
//! focus/blur callbacks.

use vstd::prelude::*;
use crate::engine::arrays::Arrays;
use crate::engine::arrays::core_arrays::{CoreArrays, get_visible, get_parent_index};
use crate::engine::arrays::interaction::{get_focusable, get_tab_index};
use crate::engine::registry::{Registry, get_allocated_indices, get_allocated_count, get_id};

verus! {

broadcast use vstd::seq::group_seq_axioms;

/// Most entries kept in the focus history.
pub const MAX_HISTORY: usize = 10;

/// Callbacks fired when focus changes.
pub struct FocusCallbacks<F> {
    pub on_focus: Option<F>,
    pub on_blur: Option<F>,
}

impl<F> FocusCallbacks<F> {
    /// No callbacks.
    pub fn none() -> (c: FocusCallbacks<F>)
        ensures
            c.on_focus is None,
            c.on_blur is None,
    {
        FocusCallbacks { on_focus: None, on_blur: None }
    }
}

/// A saved focus target: the index and the ID it had when saved.
#[derive(Clone)]
pub struct FocusHistoryEntry {
    pub index: usize,
    pub id: Option<String>,
}

/// Identifies one callback registration, for unregistering it.
#[derive(Clone, Copy, Debug, PartialEq, Eq)]
pub struct CallbackRegistration {
    pub index: usize,
    pub position: usize,
}

/// Focus state.
pub struct FocusState<F> {
    focused_index: i32,
    trap_stack: Vec<usize>,
    history: Vec<FocusHistoryEntry>,
    callbacks: Vec<(usize, FocusCallbacks<F>)>,
}

impl<F: Fn()> FocusState<F> {
    /// The focused index, -1 when nothing is focused.
    pub closed spec fn focused_spec(&self) -> int {
        self.focused_index as int
    }

    /// The focus trap stack, innermost last.
    pub closed spec fn trap_stack_spec(&self) -> Seq<usize> {
        self.trap_stack@
    }

    /// Saved focus targets, most recent last: (index, ID at save time).
    pub closed spec fn history_spec(&self) -> Seq<(usize, Option<Seq<char>>)> {
        self.history@.map_values(
            |e: FocusHistoryEntry|
                (
                    e.index,
                    match e.id {
                        Some(s) => Some(s@),
                        None => None,
                    },
                ),
        )
    }

    /// The callback registrations, in order: (component index, callbacks).
    pub closed spec fn callbacks_spec(&self) -> Seq<(usize, FocusCallbacks<F>)> {
        self.callbacks@
    }

    /// The component index of each callback registration, in order.
    pub closed spec fn callback_indices(&self) -> Seq<usize> {
        self.callbacks@.map_values(|e: (usize, FocusCallbacks<F>)| e.0)
    }

    /// Every registered callback may be called.
    pub closed spec fn callbacks_callable(&self) -> bool {
        forall|k: int|
            0 <= k < self.callbacks@.len() ==> {
                &&& (#[trigger] self.callbacks@[k]).1.on_focus matches Some(f) ==> call_requires(f, ())
                &&& self.callbacks@[k].1.on_blur matches Some(f) ==> call_requires(f, ())
            }
    }

    /// Focus state invariant.
    pub open spec fn wf(&self) -> bool {
        &&& self.history_spec().len() <= MAX_HISTORY
        &&& self.callbacks_callable()
    }

    /// Nothing focused, no traps, no history, no callbacks.
    pub fn new() -> (s: FocusState<F>)
        ensures
            s.wf(),
            s.focused_spec() == -1,
            s.trap_stack_spec().len() == 0,
            s.history_spec().len() == 0,
            s.callback_indices().len() == 0,
    {
        let s = FocusState { focused_index: -1, trap_stack: Vec::new(), history: Vec::new(), callbacks: Vec::new() };
        assert(s.history_spec() =~= Seq::empty());
        s
    }
}

// =============================================================================
// Focused index
// =============================================================================

/// The focused component index (-1 if none).
pub fn get_focused_index<F: Fn()>(state: &FocusState<F>) -> (i: i32)
    ensures
        i == state.focused_spec(),
{
    state.focused_index
}

/// Whether any component is focused.
pub fn has_focus<F: Fn()>(state: &FocusState<F>) -> (b: bool)
    ensures
        b == (state.focused_spec() >= 0),
{
    state.focused_index >= 0
}

/// Whether the given component is focused.
pub fn is_focused<F: Fn()>(state: &FocusState<F>, index: usize) -> (b: bool)
    ensures
        b == (state.focused_spec() == (index as i32) as int),
{
    state.focused_index == index as i32
}

// =============================================================================
// Callbacks
// =============================================================================

/// Register focus callbacks for a component. The returned registration
/// unregisters them again (see `unregister_callbacks`).
pub fn register_callbacks<F: Fn()>(state: &mut FocusState<F>, index: usize, callbacks: FocusCallbacks<F>) -> (reg: CallbackRegistration)
    requires
        old(state).wf(),
        callbacks.on_focus matches Some(f) ==> call_requires(f, ()),
        callbacks.on_blur matches Some(f) ==> call_requires(f, ()),
    ensures
        final(state).wf(),
        final(state).focused_spec() == old(state).focused_spec(),
        final(state).trap_stack_spec() == old(state).trap_stack_spec(),
        final(state).history_spec() == old(state).history_spec(),
        final(state).callback_indices() == old(state).callback_indices().push(index),
        final(state).callbacks_spec() == old(state).callbacks_spec().push((index, callbacks)),
        reg.index == index,
        reg.position == old(state).callback_indices().filter(|i: usize| i == index).len(),
{
    let mut count: usize = 0;
    let mut k: usize = 0;
    let ghost idx = old(state).callback_indices();
    assert(idx.take(0).filter(|i: usize| i == index) =~= Seq::<usize>::empty());
    while k < state.callbacks.len()
        invariant
            k <= state.callbacks@.len(),
            idx == state.callback_indices(),
            count == idx.take(k as int).filter(|i: usize| i == index).len(),
            count <= k,
        decreases state.callbacks.len() - k,
    {
        proof {
            assert(idx.take(k + 1).drop_last() =~= idx.take(k as int));
            reveal_with_fuel(Seq::filter, 2);
            assert(idx[k as int] == state.callbacks@[k as int].0);
        }
        if state.callbacks[k].0 == index {
            count = count + 1;
        }
        k = k + 1;
    }
    assert(idx.take(k as int) =~= idx);
    state.callbacks.push((index, callbacks));
    proof {
        assert(state.callback_indices() =~= old(state).callback_indices().push(index));
        assert(state.history_spec() =~= old(state).history_spec());
        assert forall|j: int| 0 <= j < state.callbacks@.len() implies {
            &&& (#[trigger] state.callbacks@[j]).1.on_focus matches Some(f) ==> call_requires(f, ())
            &&& state.callbacks@[j].1.on_blur matches Some(f) ==> call_requires(f, ())
        } by {
            if j < old(state).callbacks@.len() {
                assert(state.callbacks@[j] == old(state).callbacks@[j]);
            }
        }
    }
    CallbackRegistration { index, position: count }
}

/// Whether every blur callback (when `blur` holds, else every focus
/// callback) registered for `index` in `cbs` was called.
pub open spec fn fired<F: Fn()>(cbs: Seq<(usize, FocusCallbacks<F>)>, index: usize, blur: bool) -> bool {
    forall|k: int|
        0 <= k < cbs.len() && (#[trigger] cbs[k]).0 == index ==> if blur {
            cbs[k].1.on_blur matches Some(f) ==> call_ensures(f, (), ())
        } else {
            cbs[k].1.on_focus matches Some(f) ==> call_ensures(f, (), ())
        }
}

/// Fire the callbacks of `index`, blur ones when `blur` holds, else focus ones.
fn fire_callbacks<F: Fn()>(state: &FocusState<F>, index: usize, blur: bool)
    requires
        state.callbacks_callable(),
    ensures
        fired(state.callbacks_spec(), index, blur),
{
    let mut k: usize = 0;
    while k < state.callbacks.len()
        invariant
            k <= state.callbacks@.len(),
            state.callbacks_callable(),
            forall|j: int|
                0 <= j < k && (#[trigger] state.callbacks@[j]).0 == index ==> if blur {
                    state.callbacks@[j].1.on_blur matches Some(f) ==> call_ensures(f, (), ())
                } else {
                    state.callbacks@[j].1.on_focus matches Some(f) ==> call_ensures(f, (), ())
                },
        decreases state.callbacks.len() - k,
    {
        if state.callbacks[k].0 == index {
            let cbs = &state.callbacks[k].1;
            if blur {
                match &cbs.on_blur {
                    Some(f) => {
                        f();
                    },
                    None => {},
                }
            } else {
                match &cbs.on_focus {
                    Some(f) => {
                        f();
                    },
                    None => {},
                }
            }
        }
        k = k + 1;
    }
}

/// Set focus, firing blur callbacks of the old target then focus callbacks
/// of the new one; nothing happens when focus does not change.
fn set_focus_with_callbacks<F: Fn()>(state: &mut FocusState<F>, new_index: i32)
    requires
        old(state).wf(),
    ensures
        final(state).wf(),
        final(state).focused_spec() == new_index,
        final(state).trap_stack_spec() == old(state).trap_stack_spec(),
        final(state).history_spec() == old(state).history_spec(),
        final(state).callback_indices() == old(state).callback_indices(),
        final(state).callbacks_spec() == old(state).callbacks_spec(),
        old(state).focused_spec() != new_index && old(state).focused_spec() >= 0 ==> fired(
            old(state).callbacks_spec(),
            old(state).focused_spec() as usize,
            true,
        ),
        old(state).focused_spec() != new_index && new_index >= 0 ==> fired(old(state).callbacks_spec(), new_index as usize, false),
{
    let old_index = state.focused_index;
    if old_index == new_index {
        return;
    }
    if old_index >= 0 {
        fire_callbacks(state, old_index as usize, true);
    }
    state.focused_index = new_index;
    if new_index >= 0 {
        fire_callbacks(state, new_index as usize, false);
    }
    proof {
        assert(state.history_spec() =~= old(state).history_spec());
        assert(state.callback_indices() =~= old(state).callback_indices());
    }
}

// =============================================================================
// Focus trap
// =============================================================================

/// Push a focus trap container.
pub fn push_focus_trap<F: Fn()>(state: &mut FocusState<F>, container_index: usize)
    requires
        old(state).wf(),
    ensures
        final(state).wf(),
        final(state).trap_stack_spec() == old(state).trap_stack_spec().push(container_index),
        final(state).focused_spec() == old(state).focused_spec(),
        final(state).history_spec() == old(state).history_spec(),
        final(state).callback_indices() == old(state).callback_indices(),
{
    state.trap_stack.push(container_index);
    proof {
        assert(state.history_spec() =~= old(state).history_spec());
        assert(state.callback_indices() =~= old(state).callback_indices());
    }
}

/// Pop the innermost focus trap.
pub fn pop_focus_trap<F: Fn()>(state: &mut FocusState<F>) -> (r: Option<usize>)
    requires
        old(state).wf(),
    ensures
        final(state).wf(),
        old(state).trap_stack_spec().len() == 0 ==> r is None && final(state).trap_stack_spec()
            == old(state).trap_stack_spec(),
        old(state).trap_stack_spec().len() > 0 ==> r == Some(old(state).trap_stack_spec().last())
            && final(state).trap_stack_spec() == old(state).trap_stack_spec().drop_last(),
        final(state).focused_spec() == old(state).focused_spec(),
        final(state).history_spec() == old(state).history_spec(),
        final(state).callback_indices() == old(state).callback_indices(),
{
    let r = state.trap_stack.pop();
    proof {
        assert(state.history_spec() =~= old(state).history_spec());
        assert(state.callback_indices() =~= old(state).callback_indices());
    }
    r
}

/// Whether focus is trapped.
pub fn is_focus_trapped<F: Fn()>(state: &FocusState<F>) -> (b: bool)
    ensures
        b == (state.trap_stack_spec().len() > 0),
{
    state.trap_stack.len() > 0
}

/// The innermost focus trap container.
pub fn get_focus_trap_container<F: Fn()>(state: &FocusState<F>) -> (r: Option<usize>)
    ensures
        r == if state.trap_stack_spec().len() == 0 {
            None
        } else {
            Some(state.trap_stack_spec().last())
        },
{
    if state.trap_stack.len() == 0 {
        None
    } else {
        Some(state.trap_stack[state.trap_stack.len() - 1])
    }
}

/// Whether a registration holds neither callback.
pub open spec fn is_cleared<F>(c: FocusCallbacks<F>) -> bool {
    c.on_focus is None && c.on_blur is None
}

/// How many of the first `k` registrations are for `index`.
pub open spec fn count_index<F>(s: Seq<(usize, FocusCallbacks<F>)>, index: usize, k: nat) -> nat
    decreases k,
{
    if k == 0 {
        0
    } else {
        count_index(s, index, (k - 1) as nat) + if s[k - 1].0 == index { 1nat } else { 0nat }
    }
}

/// The registrations with the `position`-th one for `index` cleared.
pub open spec fn with_cleared<F>(s: Seq<(usize, FocusCallbacks<F>)>, index: usize, position: nat) -> Seq<
    (usize, FocusCallbacks<F>),
> {
    Seq::new(
        s.len(),
        |j: int|
            if s[j].0 == index && count_index(s, index, j as nat) == position {
                (index, FocusCallbacks { on_focus: None, on_blur: None })
            } else {
                s[j]
            },
    )
}

/// Whether every registration for `index` is cleared.
pub open spec fn all_cleared_for<F>(s: Seq<(usize, FocusCallbacks<F>)>, index: usize) -> bool {
    forall|j: int| 0 <= j < s.len() && (#[trigger] s[j]).0 == index ==> is_cleared(s[j].1)
}

/// The registrations without those for `index`, in order.
pub open spec fn without_index<F>(s: Seq<(usize, FocusCallbacks<F>)>, index: usize) -> Seq<(usize, FocusCallbacks<F>)>
    decreases s.len(),
{
    if s.len() == 0 {
        s
    } else {
        let rest = without_index(s.drop_last(), index);
        if s.last().0 == index {
            rest
        } else {
            rest.push(s.last())
        }
    }
}

/// The registrations after unregistering the `position`-th registration
/// of `index`: it is cleared, and when no registration of `index` holds a
/// callback any more they are all dropped.
pub open spec fn unregistered<F>(s: Seq<(usize, FocusCallbacks<F>)>, index: usize, position: nat) -> Seq<
    (usize, FocusCallbacks<F>),
> {
    let c = with_cleared(s, index, position);
    if all_cleared_for(c, index) {
        without_index(c, index)
    } else {
        c
    }
}

/// Unregister a callback registration: its callbacks are cleared, and once
/// every registration of that index is cleared they are all dropped.
pub fn unregister_callbacks<F: Fn()>(state: &mut FocusState<F>, registration: CallbackRegistration)
    requires
        old(state).wf(),
    ensures
        final(state).wf(),
        final(state).focused_spec() == old(state).focused_spec(),
        final(state).trap_stack_spec() == old(state).trap_stack_spec(),
        final(state).history_spec() == old(state).history_spec(),
        final(state).callbacks_spec() == unregistered(
            old(state).callbacks_spec(),
            registration.index,
            registration.position as nat,
        ),
{
    let index = registration.index;
    let ghost s0 = state.callbacks@;
    let ghost c = with_cleared(s0, index, registration.position as nat);
    let mut seen: usize = 0;
    let mut k: usize = 0;
    let mut all_cleared = true;
    while k < state.callbacks.len()
        invariant
            k <= state.callbacks@.len(),
            s0 == old(state).callbacks@,
            c == with_cleared(s0, index, registration.position as nat),
            state.callbacks@.len() == s0.len(),
            forall|j: int| 0 <= j < k ==> #[trigger] state.callbacks@[j] == c[j],
            forall|j: int| k <= j < s0.len() ==> #[trigger] state.callbacks@[j] == s0[j],
            seen == count_index(s0, index, k as nat),
            seen <= k,
            all_cleared == (forall|j: int| 0 <= j < k && (#[trigger] c[j]).0 == index ==> is_cleared(c[j].1)),
            state.callbacks_callable(),
            state.focused_index == old(state).focused_index,
            state.trap_stack == old(state).trap_stack,
            state.history == old(state).history,
        decreases state.callbacks.len() - k,
    {
        if state.callbacks[k].0 == index {
            if seen == registration.position {
                let ghost before = state.callbacks@;
                state.callbacks.set(k, (index, FocusCallbacks { on_focus: None, on_blur: None }));
                assert forall|j: int| 0 <= j < state.callbacks@.len() implies {
                    &&& (#[trigger] state.callbacks@[j]).1.on_focus matches Some(f) ==> call_requires(f, ())
                    &&& state.callbacks@[j].1.on_blur matches Some(f) ==> call_requires(f, ())
                } by {
                    if j != k {
                        assert(state.callbacks@[j] == before[j]);
                    }
                }
            }
            seen = seen + 1;
            if state.callbacks[k].1.on_focus.is_some() || state.callbacks[k].1.on_blur.is_some() {
                all_cleared = false;
            }
        }
        assert(state.callbacks@[k as int] == c[k as int]);
        k = k + 1;
    }
    assert(state.callbacks@ =~= c);
    assert(all_cleared == all_cleared_for(c, index));
    if all_cleared {
        let mut j: usize = 0;
        let ghost mut done: int = 0;
        while j < state.callbacks.len()
            invariant
                0 <= done <= c.len(),
                state.callbacks@ == without_index(c.take(done), index) + c.skip(done),
                j == without_index(c.take(done), index).len(),
                state.callbacks_callable(),
                state.focused_index == old(state).focused_index,
                state.trap_stack == old(state).trap_stack,
                state.history == old(state).history,
            decreases c.len() - done,
        {
            let ghost kept = without_index(c.take(done), index);
            proof {
                assert(c.take(done + 1).drop_last() =~= c.take(done));
                assert(c.take(done + 1).last() == c[done]);
                assert(state.callbacks@[j as int] == c[done]);
            }
            if state.callbacks[j].0 == index {
                let ghost before = state.callbacks@;
                state.callbacks.remove(j);
                proof {
                    assert(state.callbacks@ =~= kept + c.skip(done + 1));
                    assert forall|m: int| 0 <= m < state.callbacks@.len() implies {
                        &&& (#[trigger] state.callbacks@[m]).1.on_focus matches Some(f) ==> call_requires(f, ())
                        &&& state.callbacks@[m].1.on_blur matches Some(f) ==> call_requires(f, ())
                    } by {
                        if m < j {
                            assert(state.callbacks@[m] == before[m]);
                        } else {
                            assert(state.callbacks@[m] == before[m + 1]);
                        }
                    }
                }
            } else {
                proof {
                    assert(state.callbacks@ =~= kept.push(c[done]) + c.skip(done + 1));
                }
                j = j + 1;
            }
            proof {
                done = done + 1;
            }
        }
        proof {
            assert(c.take(done) =~= c);
            assert(c.skip(done) =~= Seq::<(usize, FocusCallbacks<F>)>::empty());
            assert(state.callbacks@ =~= without_index(c, index));
        }
    }
    proof {
        assert(state.history_spec() =~= old(state).history_spec());
    }
}

// =============================================================================
// Focus history
// =============================================================================

/// The history after saving the current focus: the focused index and its ID
/// are appended when something is focused, keeping the newest MAX_HISTORY.
pub open spec fn saved_history(
    h: Seq<(usize, Option<Seq<char>>)>,
    focused: int,
    reg: &Registry,
) -> Seq<(usize, Option<Seq<char>>)> {
    if focused >= 0 {
        let pushed = h.push((focused as usize, reg.id_at(focused as usize as int)));
        if pushed.len() > MAX_HISTORY {
            pushed.drop_first()
        } else {
            pushed
        }
    } else {
        h
    }
}

/// Save the current focus to history.
pub fn save_focus_to_history<F: Fn()>(state: &mut FocusState<F>, reg: &Registry)
    requires
        old(state).wf(),
    ensures
        final(state).wf(),
        final(state).history_spec() == saved_history(old(state).history_spec(), old(state).focused_spec(), reg),
        final(state).focused_spec() == old(state).focused_spec(),
        final(state).trap_stack_spec() == old(state).trap_stack_spec(),
        final(state).callback_indices() == old(state).callback_indices(),
        final(state).callbacks_spec() == old(state).callbacks_spec(),
{
    let current = state.focused_index;
    if current >= 0 {
        let index = current as usize;
        let id = get_id(reg, index);
        let ghost h = state.history_spec();
        state.history.push(FocusHistoryEntry { index, id });
        assert(state.history_spec() =~= h.push((index, reg.id_at(index as int))));
        if state.history.len() > MAX_HISTORY {
            let ghost h2 = state.history_spec();
            state.history.remove(0);
            assert(state.history_spec() =~= h2.drop_first());
        }
    }
    proof {
        assert(state.callback_indices() =~= old(state).callback_indices());
    }
}

/// Whether two optional strings are equal.
fn same_id(a: &Option<String>, b: &Option<String>) -> (r: bool)
    ensures
        r == (match (a, b) {
            (Some(x), Some(y)) => x@ == y@,
            (None, None) => true,
            _ => false,
        }),
{
    match (a, b) {
        (Some(x), Some(y)) => *x == *y,
        (None, None) => true,
        _ => false,
    }
}

/// A history entry that can take focus again: its index still carries the
/// same ID and is focusable and visible.
pub open spec fn restorable(e: (usize, Option<Seq<char>>), reg: &Registry, arrays: &Arrays) -> bool {
    &&& reg.id_at(e.0 as int) == e.1
    &&& arrays.interaction.focusable.at(e.0 as int)
    &&& arrays.core.visible.at(e.0 as int)
}

/// Position of the newest restorable history entry, -1 when there is none.
pub open spec fn restore_position(
    h: Seq<(usize, Option<Seq<char>>)>,
    reg: &Registry,
    arrays: &Arrays,
) -> int
    decreases h.len(),
{
    if h.len() == 0 {
        -1
    } else if restorable(h.last(), reg, arrays) {
        h.len() - 1
    } else {
        restore_position(h.drop_last(), reg, arrays)
    }
}

proof fn lemma_restore_position_bounds(h: Seq<(usize, Option<Seq<char>>)>, reg: &Registry, arrays: &Arrays)
    ensures
        -1 <= restore_position(h, reg, arrays) < h.len(),
        restore_position(h, reg, arrays) >= 0 ==> restorable(h[restore_position(h, reg, arrays)], reg, arrays),
    decreases h.len(),
{
    if h.len() > 0 && !restorable(h.last(), reg, arrays) {
        lemma_restore_position_bounds(h.drop_last(), reg, arrays);
    }
}

/// Restore focus from history: entries are taken newest first; the first
/// whose index still has the same ID and is focusable and visible gets focus.
/// Entries taken are dropped from the history.
pub fn restore_focus_from_history<F: Fn()>(state: &mut FocusState<F>, reg: &Registry, arrays: &Arrays) -> (r: bool)
    requires
        old(state).wf(),
    ensures
        final(state).wf(),
        r == (restore_position(old(state).history_spec(), reg, arrays) >= 0),
        r ==> final(state).history_spec() == old(state).history_spec().take(
            restore_position(old(state).history_spec(), reg, arrays),
        ) && final(state).focused_spec() == (old(state).history_spec()[restore_position(
            old(state).history_spec(),
            reg,
            arrays,
        )].0 as i32) as int,
        !r ==> final(state).history_spec().len() == 0 && final(state).focused_spec() == old(state).focused_spec(),
        final(state).trap_stack_spec() == old(state).trap_stack_spec(),
        final(state).callback_indices() == old(state).callback_indices(),
{
    let ghost h0 = old(state).history_spec();
    proof {
        lemma_restore_position_bounds(h0, reg, arrays);
    }
    loop
        invariant
            h0 == old(state).history_spec(),
            state.wf(),
            state.focused_index == old(state).focused_index,
            state.trap_stack == old(state).trap_stack,
            state.callbacks == old(state).callbacks,
            state.history_spec().len() <= h0.len(),
            state.history_spec() == h0.take(state.history_spec().len() as int),
            restore_position(h0, reg, arrays) == restore_position(state.history_spec(), reg, arrays),
        decreases state.history@.len(),
    {
        let ghost h = state.history_spec();
        proof {
            lemma_restore_position_bounds(h, reg, arrays);
        }
        match state.history.pop() {
            None => {
                proof {
                    assert(h.len() == 0);
                    assert(state.callback_indices() =~= old(state).callback_indices());
                }
                return false;
            },
            Some(entry) => {
                proof {
                    assert(state.history_spec() =~= h.drop_last());
                    assert(h.last() == (entry.index, match entry.id { Some(s) => Some(s@), None => None }));
                    assert(h0.take(h.len() - 1) =~= h.drop_last());
                }
                let current_id = get_id(reg, entry.index);
                if same_id(&current_id, &entry.id) {
                    let is_visible = get_visible(&arrays.core, entry.index);
                    let is_focusable = get_focusable(&arrays.interaction, entry.index);
                    if is_focusable && is_visible {
                        set_focus_with_callbacks(state, entry.index as i32);
                        proof {
                            assert(restore_position(h, reg, arrays) == h.len() - 1);
                            assert(h0[h.len() - 1] == h.last());
                        }
                        return true;
                    }
                }
            },
        }
    }
}

// =============================================================================
// Focusable order
// =============================================================================

/// A component that can take focus: allocated, focusable and visible.
pub open spec fn is_focus_candidate(reg: &Registry, arrays: &Arrays, i: usize) -> bool {
    &&& reg.allocated_spec().contains(i)
    &&& arrays.interaction.focusable.at(i as int)
    &&& arrays.core.visible.at(i as int)
}

/// Tab order: by tab index, then by component index.
pub open spec fn focus_before(arrays: &Arrays, a: usize, b: usize) -> bool {
    let ta = arrays.interaction.tab_index.at(a as int);
    let tb = arrays.interaction.tab_index.at(b as int);
    ta < tb || (ta == tb && a < b)
}

/// A sequence strictly increasing in tab order.
pub open spec fn focus_sorted(arrays: &Arrays, s: Seq<usize>) -> bool {
    forall|j: int, k: int| 0 <= j < k < s.len() ==> focus_before(arrays, #[trigger] s[j], #[trigger] s[k])
}

/// The focusable components listed in tab order.
pub open spec fn is_focus_order(reg: &Registry, arrays: &Arrays, s: Seq<usize>) -> bool {
    &&& focus_sorted(arrays, s)
    &&& forall|i: usize| #[trigger] s.contains(i) <==> is_focus_candidate(reg, arrays, i)
}

/// The focus order of the current components.
pub open spec fn focus_order(reg: &Registry, arrays: &Arrays) -> Seq<usize> {
    choose|s: Seq<usize>| is_focus_order(reg, arrays, s)
}

/// Two sequences sorted in tab order with the same elements are equal.
proof fn lemma_sorted_unique(arrays: &Arrays, s1: Seq<usize>, s2: Seq<usize>)
    requires
        focus_sorted(arrays, s1),
        focus_sorted(arrays, s2),
        forall|x: usize| #![trigger s1.contains(x)] #![trigger s2.contains(x)] s1.contains(x) <==> s2.contains(x),
    ensures
        s1 == s2,
    decreases s1.len(),
{
    if s1.len() == 0 {
        if s2.len() > 0 {
            assert(s2.contains(s2[0]));
            assert(!s1.contains(s2[0]));
        }
        assert(s1 =~= s2);
    } else {
        assert(s1.contains(s1[0]));
        assert(s2.len() > 0);
        let a = s1[0];
        let b = s2[0];
        if a != b {
            assert(s2.contains(b));
            assert(s1.contains(b));
            let k = choose|k: int| 0 <= k < s1.len() && s1[k] == b;
            assert(focus_before(arrays, s1[0], s1[k]));
            assert(s2.contains(a));
            let m = choose|m: int| 0 <= m < s2.len() && s2[m] == a;
            assert(focus_before(arrays, s2[0], s2[m]));
            assert(false);
        }
        let t1 = s1.drop_first();
        let t2 = s2.drop_first();
        assert forall|x: usize| #[trigger] t1.contains(x) <==> t2.contains(x) by {
            if t1.contains(x) {
                let k = choose|k: int| 0 <= k < t1.len() && t1[k] == x;
                assert(s1[k + 1] == x);
                assert(focus_before(arrays, s1[0], s1[k + 1]));
                assert(s2.contains(x));
                let m = choose|m: int| 0 <= m < s2.len() && s2[m] == x;
                if m == 0 {
                    assert(false);
                }
                assert(t2[m - 1] == x);
            }
            if t2.contains(x) {
                let k = choose|k: int| 0 <= k < t2.len() && t2[k] == x;
                assert(s2[k + 1] == x);
                assert(focus_before(arrays, s2[0], s2[k + 1]));
                assert(s1.contains(x));
                let m = choose|m: int| 0 <= m < s1.len() && s1[m] == x;
                if m == 0 {
                    assert(false);
                }
                assert(t1[m - 1] == x);
            }
        }
        assert forall|j: int, k: int| 0 <= j < k < t1.len() implies focus_before(arrays, #[trigger] t1[j], #[trigger] t1[k]) by {
            assert(focus_before(arrays, s1[j + 1], s1[k + 1]));
        }
        assert forall|j: int, k: int| 0 <= j < k < t2.len() implies focus_before(arrays, #[trigger] t2[j], #[trigger] t2[k]) by {
            assert(focus_before(arrays, s2[j + 1], s2[k + 1]));
        }
        lemma_sorted_unique(arrays, t1, t2);
        assert forall|j: int| 0 <= j < s1.len() implies s1[j] == s2[j] by {
            if j > 0 {
                assert(s1[j] == t1[j - 1]);
                assert(s2[j] == t2[j - 1]);
            }
        }
        assert(s1 =~= s2);
    }
}

/// Any focus order is the focus order.
proof fn lemma_focus_order_is(reg: &Registry, arrays: &Arrays, s: Seq<usize>)
    requires
        is_focus_order(reg, arrays, s),
    ensures
        focus_order(reg, arrays) == s,
{
    let t = focus_order(reg, arrays);
    assert(is_focus_order(reg, arrays, t));
    lemma_sorted_unique(arrays, t, s);
}

/// All focusable components (allocated, focusable, visible), sorted by tab
/// index; equal tab indices keep index order.
pub fn get_focusable_indices(reg: &Registry, arrays: &Arrays) -> (v: Vec<usize>)
    requires
        reg.wf(),
    ensures
        is_focus_order(reg, arrays, v@),
        v@ == focus_order(reg, arrays),
{
    let indices = get_allocated_indices(reg);
    let mut result: Vec<usize> = Vec::new();
    let mut k: usize = 0;
    while k < indices.len()
        invariant
            indices@ == reg.allocated_spec(),
            indices@.no_duplicates(),
            reg.wf(),
            k <= indices@.len(),
            focus_sorted(arrays, result@),
            forall|i: usize| #[trigger] result@.contains(i) <==> (indices@.take(k as int).contains(i)
                && arrays.interaction.focusable.at(i as int) && arrays.core.visible.at(i as int)),
        decreases indices.len() - k,
    {
        let i = indices[k];
        let ghost before = result@;
        assert(indices@.take(k + 1) =~= indices@.take(k as int).push(i));
        if get_focusable(&arrays.interaction, i) && get_visible(&arrays.core, i) {
            // i is not yet in the result: indices has no duplicates.
            assert(!before.contains(i)) by {
                if before.contains(i) {
                    assert(indices@.take(k as int).contains(i));
                    let m = choose|m: int| 0 <= m < k && #[trigger] indices@.take(k as int)[m] == i;
                    assert(indices@[m] == indices@[k as int]);
                }
            }
            let ti = get_tab_index(&arrays.interaction, i);
            let mut p: usize = 0;
            while p < result.len()
                invariant
                    result@ == before,
                    !before.contains(i),
                    ti == arrays.interaction.tab_index.at(i as int),
                    p <= before.len(),
                    forall|m: int| 0 <= m < p ==> focus_before(arrays, #[trigger] before[m], i),
                ensures
                    result@ == before,
                    p <= before.len(),
                    forall|m: int| 0 <= m < p ==> focus_before(arrays, #[trigger] before[m], i),
                    p < before.len() ==> focus_before(arrays, i, before[p as int]),
                decreases result.len() - p,
            {
                let tp = get_tab_index(&arrays.interaction, result[p]);
                if tp > ti || (tp == ti && result[p] > i) {
                    break;
                }
                p = p + 1;
            }
            proof {
                if p < before.len() {
                    assert(focus_before(arrays, i, before[p as int]));
                }
            }
            result.insert(p, i);
            proof {
                assert(result@ =~= before.insert(p as int, i));
                assert forall|j: int, m: int| 0 <= j < m < result@.len() implies focus_before(arrays, #[trigger] result@[j], #[trigger] result@[m]) by {
                    if m < p {
                        assert(focus_before(arrays, before[j], before[m]));
                    } else if m == p {
                    } else if j < p {
                        assert(focus_before(arrays, before[j], i));
                        assert(focus_before(arrays, i, before[p as int]));
                        if m - 1 > p {
                            assert(focus_before(arrays, before[p as int], before[m - 1]));
                        }
                    } else if j == p {
                        assert(focus_before(arrays, i, before[p as int]));
                        if m - 1 > p {
                            assert(focus_before(arrays, before[p as int], before[m - 1]));
                        }
                    } else {
                        assert(focus_before(arrays, before[j - 1], before[m - 1]));
                    }
                }
                assert forall|x: usize| #[trigger] result@.contains(x) <==> (indices@.take(k + 1).contains(x)
                    && arrays.interaction.focusable.at(x as int) && arrays.core.visible.at(x as int)) by {
                    if result@.contains(x) {
                        let m = choose|m: int| 0 <= m < result@.len() && result@[m] == x;
                        if m == p {
                            assert(indices@.take(k + 1)[k as int] == x);
                        } else {
                            if m < p {
                                assert(before[m] == x);
                            } else {
                                assert(before[m - 1] == x);
                            }
                            assert(before.contains(x));
                            assert(indices@.take(k as int).contains(x));
                            let w = choose|w: int| 0 <= w < k && #[trigger] indices@.take(k as int)[w] == x;
                            assert(indices@.take(k + 1)[w] == x);
                        }
                    }
                    if indices@.take(k + 1).contains(x) && arrays.interaction.focusable.at(x as int)
                        && arrays.core.visible.at(x as int) {
                        if x == i {
                            assert(result@[p as int] == i);
                        } else {
                            let m = choose|m: int| 0 <= m < k + 1 && #[trigger] indices@.take(k + 1)[m] == x;
                            assert(indices@.take(k as int)[m] == x);
                            assert(before.contains(x));
                            let w = choose|w: int| 0 <= w < before.len() && before[w] == x;
                            if w < p {
                                assert(result@[w] == x);
                            } else {
                                assert(result@[w + 1] == x);
                            }
                        }
                    }
                }
            }
        } else {
            proof {
                assert forall|x: usize| #[trigger] result@.contains(x) <==> (indices@.take(k + 1).contains(x)
                    && arrays.interaction.focusable.at(x as int) && arrays.core.visible.at(x as int)) by {
                    assert(result@.contains(x) <==> (indices@.take(k as int).contains(x)
                        && arrays.interaction.focusable.at(x as int) && arrays.core.visible.at(x as int)));
                    if indices@.take(k + 1).contains(x) && x != i {
                        let m = choose|m: int| 0 <= m < k + 1 && #[trigger] indices@.take(k + 1)[m] == x;
                        assert(indices@.take(k as int)[m] == x);
                    }
                    if indices@.take(k as int).contains(x) {
                        let m = choose|m: int| 0 <= m < k && #[trigger] indices@.take(k as int)[m] == x;
                        assert(indices@.take(k + 1)[m] == x);
                    }
                    if x == i {
                        assert(!(arrays.interaction.focusable.at(x as int) && arrays.core.visible.at(x as int)));
                    }
                }
            }
        }
        k = k + 1;
    }
    proof {
        assert(indices@.take(indices@.len() as int) =~= indices@);
        lemma_focus_order_is(reg, arrays, result@);
    }
    result
}

} // verus!

verus! {

// =============================================================================
// Focus navigation
// =============================================================================

/// Position of `x` in `order`, -1 when absent.
pub open spec fn position_in(order: Seq<usize>, x: usize) -> int {
    if order.contains(x) {
        choose|p: int| 0 <= p < order.len() && order[p] == x
    } else {
        -1
    }
}

/// The component focus moves to from `from` in `direction` (1 or -1) through
/// `order`, wrapping around; from nothing focused (or from a component not in
/// the order) it is the first (forward) or last (backward); -1 for an empty
/// order.
pub open spec fn next_focus_target(order: Seq<usize>, from: int, direction: int) -> int {
    if order.len() == 0 {
        -1
    } else {
        let pos = if from >= 0 { position_in(order, from as usize) } else { -1 };
        let len = order.len() as int;
        if pos < 0 {
            if direction == 1 {
                (order[0] as i32) as int
            } else {
                (order[len - 1] as i32) as int
            }
        } else {
            (order[((pos + direction) % len + len) % len] as i32) as int
        }
    }
}

/// A sequence sorted in tab order holds no element twice.
proof fn lemma_sorted_distinct(arrays: &Arrays, s: Seq<usize>)
    requires
        focus_sorted(arrays, s),
    ensures
        s.no_duplicates(),
{
    assert forall|j: int, k: int| 0 <= j < s.len() && 0 <= k < s.len() && j != k implies s[j] != s[k] by {
        if j < k {
            assert(focus_before(arrays, s[j], s[k]));
        } else {
            assert(focus_before(arrays, s[k], s[j]));
        }
    }
}

/// In a sequence without duplicates, the position of its k-th element is k.
proof fn lemma_position_of(order: Seq<usize>, k: int)
    requires
        order.no_duplicates(),
        0 <= k < order.len(),
    ensures
        position_in(order, order[k]) == k,
{
    assert(order.contains(order[k]));
    let p = position_in(order, order[k]);
    assert(0 <= p < order.len() && order[p] == order[k]);
}

/// `c` lies below `t`: `t` is reached within `k` steps up the parent chain.
pub open spec fn below_within(core: &CoreArrays, c: usize, t: usize, k: nat) -> bool
    decreases k,
{
    k > 0 && match core.parent_index.at(c as int) {
        Some(p) => p == t || below_within(core, p, t, (k - 1) as nat),
        None => false,
    }
}

/// The members of `s` that lie below `t` within `k` steps, in order.
pub open spec fn keep_below(s: Seq<usize>, core: &CoreArrays, t: usize, k: nat) -> Seq<usize>
    decreases s.len(),
{
    if s.len() == 0 {
        s
    } else {
        let r = keep_below(s.drop_last(), core, t, k);
        if below_within(core, s.last(), t, k) {
            r.push(s.last())
        } else {
            r
        }
    }
}

/// The components focus cycles over: the focus order, kept to the
/// descendants of the innermost trap when a trap is active (a descendant's
/// chain of parents reaches the trap within as many steps as there are
/// components).
pub open spec fn cycle_order(reg: &Registry, arrays: &Arrays, traps: Seq<usize>) -> Seq<usize> {
    if traps.len() == 0 {
        focus_order(reg, arrays)
    } else {
        keep_below(focus_order(reg, arrays), &arrays.core, traps.last(), reg.allocated_spec().len())
    }
}

/// Whether `c` lies below `t` within `bound` steps up the parent chain.
fn is_below(core: &CoreArrays, c: usize, t: usize, bound: usize) -> (b: bool)
    ensures
        b == below_within(core, c, t, bound as nat),
{
    let mut cur = c;
    let mut left = bound;
    while left > 0
        invariant
            below_within(core, c, t, bound as nat) == below_within(core, cur, t, left as nat),
        decreases left,
    {
        match get_parent_index(core, cur) {
            Some(p) => {
                if p == t {
                    return true;
                }
                cur = p;
                left = left - 1;
            },
            None => {
                return false;
            },
        }
    }
    false
}

/// Find the next focusable component in a direction (1 or -1).
fn find_next_focusable(
    reg: &Registry,
    arrays: &Arrays,
    traps: &Vec<usize>,
    from_index: i32,
    direction: i32,
) -> (r: i32)
    requires
        reg.wf(),
        direction == 1 || direction == -1,
    ensures
        r == next_focus_target(cycle_order(reg, arrays, traps@), from_index as int, direction as int),
{
    let all = get_focusable_indices(reg, arrays);
    let focusables = if traps.len() == 0 {
        all
    } else {
        let t = traps[traps.len() - 1];
        let bound = get_allocated_count(reg);
        let mut kept: Vec<usize> = Vec::new();
        let mut k: usize = 0;
        while k < all.len()
            invariant
                k <= all@.len(),
                focus_sorted(arrays, all@),
                focus_sorted(arrays, kept@),
                kept@ == keep_below(all@.take(k as int), &arrays.core, t, bound as nat),
                forall|m: int, j: int| 0 <= m < kept@.len() && k <= j < all@.len() ==> focus_before(
                    arrays,
                    #[trigger] kept@[m],
                    #[trigger] all@[j],
                ),
            decreases all.len() - k,
        {
            let x = all[k];
            proof {
                assert(all@.take(k + 1).drop_last() =~= all@.take(k as int));
            }
            if is_below(&arrays.core, x, t, bound) {
                kept.push(x);
                proof {
                    assert forall|a: int, b: int| 0 <= a < b < kept@.len() implies focus_before(
                        arrays,
                        #[trigger] kept@[a],
                        #[trigger] kept@[b],
                    ) by {
                        if b == kept@.len() - 1 {
                            assert(focus_before(arrays, kept@[a], all@[k as int]));
                        }
                    }
                    assert forall|m: int, j: int| 0 <= m < kept@.len() && k + 1 <= j < all@.len() implies focus_before(
                        arrays,
                        #[trigger] kept@[m],
                        #[trigger] all@[j],
                    ) by {
                        if m == kept@.len() - 1 {
                            assert(focus_before(arrays, all@[k as int], all@[j]));
                        }
                    }
                }
            }
            k = k + 1;
        }
        assert(all@.take(all@.len() as int) =~= all@);
        kept
    };
    let ghost order = focusables@;
    assert(order == cycle_order(reg, arrays, traps@));
    assert(focus_sorted(arrays, order));
    proof {
        lemma_sorted_distinct(arrays, order);
    }
    if focusables.len() == 0 {
        return -1;
    }
    let len = focusables.len();
    let mut found = false;
    let mut pos: usize = 0;
    if from_index >= 0 {
        let target = from_index as usize;
        let mut k: usize = 0;
        while k < len
            invariant
                len == focusables@.len(),
                k <= len,
                forall|m: int| 0 <= m < k ==> focusables@[m] != target,
            ensures
                k < len ==> focusables@[k as int] == target,
                forall|m: int| 0 <= m < k ==> focusables@[m] != target,
                k <= len,
            decreases len - k,
        {
            if focusables[k] == target {
                break;
            }
            k = k + 1;
        }
        if k < len {
            found = true;
            pos = k;
            proof {
                lemma_position_of(order, k as int);
            }
        } else {
            assert(!order.contains(target));
        }
    }
    if !found {
        if direction == 1 {
            focusables[0] as i32
        } else {
            focusables[len - 1] as i32
        }
    } else {
        let next_pos = if direction == 1 {
            if pos + 1 == len { 0 } else { pos + 1 }
        } else {
            if pos == 0 { len - 1 } else { pos - 1 }
        };
        proof {
            let l = len as int;
            let p = pos as int;
            let d = direction as int;
            if d == 1 && p + 1 == l {
                assert((p + d) % l == 0) by (nonlinear_arith) requires p + d == l, l > 0;
                assert((0 + l) % l == 0) by (nonlinear_arith) requires l > 0;
            } else if d == 1 {
                assert((p + d) % l == p + d) by (nonlinear_arith) requires p + d < l, p + d >= 0, l > 0;
                assert((p + 1 + l) % l == p + 1) by (nonlinear_arith) requires 0 <= p + 1 < l;
            } else if p == 0 {
                assert((p + d) % l == l - 1) by (nonlinear_arith) requires p + d == -1, l > 0;
                assert((l - 1 + l) % l == l - 1) by (nonlinear_arith) requires l > 0;
            } else {
                assert((p + d) % l == p + d) by (nonlinear_arith) requires 0 <= p + d < l, l > 0;
                assert((p - 1 + l) % l == p - 1) by (nonlinear_arith) requires 0 <= p - 1 < l;
            }
        }
        focusables[next_pos] as i32
    }
}

/// Whether a focus step from `focused` in `direction` (1 forward, -1
/// backward) moves: there is a target other than the focused component.
pub open spec fn focus_step_moves(focused: int, reg: &Registry, arrays: &Arrays, traps: Seq<usize>, direction: int) -> bool {
    let t = next_focus_target(cycle_order(reg, arrays, traps), focused, direction);
    t != -1 && t != focused
}

/// A focus step in `direction`: when it moves, the target is focused and
/// the previous focus is saved to the history; otherwise focus and history
/// stay.
pub open spec fn focus_step_done<F: Fn()>(
    before: FocusState<F>,
    after: FocusState<F>,
    reg: &Registry,
    arrays: &Arrays,
    direction: int,
) -> bool {
    let traps = before.trap_stack_spec();
    let t = next_focus_target(cycle_order(reg, arrays, traps), before.focused_spec(), direction);
    &&& focus_step_moves(before.focused_spec(), reg, arrays, traps, direction) ==> after.focused_spec() == t
        && after.history_spec() == saved_history(before.history_spec(), before.focused_spec(), reg)
    &&& !focus_step_moves(before.focused_spec(), reg, arrays, traps, direction) ==> after.focused_spec()
        == before.focused_spec() && after.history_spec() == before.history_spec()
}

/// Move focus to the next focusable component (Tab), wrapping around;
/// while a trap is active focus stays within the trap's descendants.
pub fn focus_next<F: Fn()>(state: &mut FocusState<F>, reg: &Registry, arrays: &Arrays) -> (r: bool)
    requires
        old(state).wf(),
        reg.wf(),
    ensures
        final(state).wf(),
        r == focus_step_moves(old(state).focused_spec(), reg, arrays, old(state).trap_stack_spec(), 1),
        focus_step_done(*old(state), *final(state), reg, arrays, 1),
        final(state).trap_stack_spec() == old(state).trap_stack_spec(),
        final(state).callback_indices() == old(state).callback_indices(),
{
    let current = state.focused_index;
    let next = find_next_focusable(reg, arrays, &state.trap_stack, current, 1);
    if next != -1 && next != current {
        save_focus_to_history(state, reg);
        set_focus_with_callbacks(state, next);
        return true;
    }
    false
}

/// Move focus to the previous focusable component (Shift+Tab), wrapping
/// around; while a trap is active focus stays within the trap's descendants.
pub fn focus_previous<F: Fn()>(state: &mut FocusState<F>, reg: &Registry, arrays: &Arrays) -> (r: bool)
    requires
        old(state).wf(),
        reg.wf(),
    ensures
        final(state).wf(),
        r == focus_step_moves(old(state).focused_spec(), reg, arrays, old(state).trap_stack_spec(), -1),
        focus_step_done(*old(state), *final(state), reg, arrays, -1),
        final(state).trap_stack_spec() == old(state).trap_stack_spec(),
        final(state).callback_indices() == old(state).callback_indices(),
{
    let current = state.focused_index;
    let prev = find_next_focusable(reg, arrays, &state.trap_stack, current, -1);
    if prev != -1 && prev != current {
        save_focus_to_history(state, reg);
        set_focus_with_callbacks(state, prev);
        return true;
    }
    false
}

/// Whether a component can take focus: focusable and visible.
pub open spec fn can_focus(arrays: &Arrays, index: usize) -> bool {
    arrays.interaction.focusable.at(index as int) && arrays.core.visible.at(index as int)
}

/// Focusing `index`: when it can take focus it becomes focused, the
/// previous focus saved to the history if it changes; otherwise focus and
/// history stay. Traps and callbacks stay.
pub open spec fn focus_done<F: Fn()>(
    before: FocusState<F>,
    after: FocusState<F>,
    reg: &Registry,
    arrays: &Arrays,
    index: usize,
) -> bool {
    let moved = can_focus(arrays, index) && before.focused_spec() != (index as i32) as int;
    &&& can_focus(arrays, index) ==> after.focused_spec() == (index as i32) as int
    &&& moved ==> after.history_spec() == saved_history(before.history_spec(), before.focused_spec(), reg)
    &&& !moved ==> after.focused_spec() == before.focused_spec() && after.history_spec() == before.history_spec()
    &&& after.trap_stack_spec() == before.trap_stack_spec()
    &&& after.callback_indices() == before.callback_indices()
}

/// Focus a component if it is focusable and visible; the previous focus is
/// saved to history when focus changes.
pub fn focus<F: Fn()>(state: &mut FocusState<F>, reg: &Registry, arrays: &Arrays, index: usize) -> (r: bool)
    requires
        old(state).wf(),
    ensures
        final(state).wf(),
        r == can_focus(arrays, index),
        focus_done(*old(state), *final(state), reg, arrays, index),
        final(state).callbacks_spec() == old(state).callbacks_spec(),
        can_focus(arrays, index) && old(state).focused_spec() != (index as i32) as int ==> {
            &&& old(state).focused_spec() >= 0 ==> fired(old(state).callbacks_spec(), old(state).focused_spec() as usize, true)
            &&& (index as i32) >= 0 ==> fired(old(state).callbacks_spec(), (index as i32) as usize, false)
        },
{
    let is_visible = get_visible(&arrays.core, index);
    let is_focusable = get_focusable(&arrays.interaction, index);
    if is_focusable && is_visible {
        let current = state.focused_index;
        if current != index as i32 {
            save_focus_to_history(state, reg);
            let ghost mid = *state;
            set_focus_with_callbacks(state, index as i32);
            assert(mid.callbacks_spec() == old(state).callbacks_spec());
            assert(mid.focused_spec() == old(state).focused_spec());
        }
        return true;
    }
    false
}

/// Clear focus; the previous focus is saved to history.
pub fn blur<F: Fn()>(state: &mut FocusState<F>, reg: &Registry)
    requires
        old(state).wf(),
    ensures
        final(state).wf(),
        final(state).focused_spec() == if old(state).focused_spec() >= 0 { -1 } else { old(state).focused_spec() },
        final(state).history_spec() == saved_history(old(state).history_spec(), old(state).focused_spec(), reg),
        final(state).trap_stack_spec() == old(state).trap_stack_spec(),
        final(state).callback_indices() == old(state).callback_indices(),
{
    if state.focused_index >= 0 {
        save_focus_to_history(state, reg);
        set_focus_with_callbacks(state, -1);
    }
}

/// Focus the first component in tab order.
pub fn focus_first<F: Fn()>(state: &mut FocusState<F>, reg: &Registry, arrays: &Arrays) -> (r: bool)
    requires
        old(state).wf(),
        reg.wf(),
    ensures
        final(state).wf(),
        r == (focus_order(reg, arrays).len() > 0),
        r ==> final(state).focused_spec() == (focus_order(reg, arrays)[0] as i32) as int,
        !r ==> final(state).focused_spec() == old(state).focused_spec() && final(state).history_spec()
            == old(state).history_spec(),
        final(state).trap_stack_spec() == old(state).trap_stack_spec(),
        final(state).callback_indices() == old(state).callback_indices(),
{
    let focusables = get_focusable_indices(reg, arrays);
    if focusables.len() > 0 {
        assert(focusables@.contains(focusables@[0]));
        return focus(state, reg, arrays, focusables[0]);
    }
    false
}

/// Focus the last component in tab order.
pub fn focus_last<F: Fn()>(state: &mut FocusState<F>, reg: &Registry, arrays: &Arrays) -> (r: bool)
    requires
        old(state).wf(),
        reg.wf(),
    ensures
        final(state).wf(),
        r == (focus_order(reg, arrays).len() > 0),
        r ==> final(state).focused_spec() == (focus_order(reg, arrays).last() as i32) as int,
        !r ==> final(state).focused_spec() == old(state).focused_spec() && final(state).history_spec()
            == old(state).history_spec(),
        final(state).trap_stack_spec() == old(state).trap_stack_spec(),
        final(state).callback_indices() == old(state).callback_indices(),
{
    let focusables = get_focusable_indices(reg, arrays);
    if focusables.len() > 0 {
        let last = focusables[focusables.len() - 1];
        assert(focusables@.contains(last));
        return focus(state, reg, arrays, last);
    }
    false
}

/// Reset all focus state: focus is cleared (firing blur callbacks), and traps,
/// history and callbacks are dropped.
pub fn reset_focus_state<F: Fn()>(state: &mut FocusState<F>)
    requires
        old(state).wf(),
    ensures
        final(state).wf(),
        final(state).focused_spec() == -1,
        final(state).trap_stack_spec().len() == 0,
        final(state).history_spec().len() == 0,
        final(state).callback_indices().len() == 0,
{
    set_focus_with_callbacks(state, -1);
    state.trap_stack.clear();
    state.history.clear();
    state.callbacks.clear();
    proof {
        assert(state.history_spec() =~= Seq::empty());
        assert(state.callback_indices() =~= Seq::empty());
    }
}

/// Tab then Shift+Tab comes back: from a focused component in the focus
/// order, moving forward then backward returns to it, and so does moving
/// backward then forward (component indices fitting in `i32`). `order` is a
/// witness of the focus order, such as `get_focusable_indices` returns.
pub proof fn lemma_focus_next_then_previous(reg: &Registry, arrays: &Arrays, order: Seq<usize>, focused: int)
    requires
        is_focus_order(reg, arrays, order),
        focused >= 0,
        order.contains(focused as usize),
        forall|k: int| 0 <= k < order.len() ==> #[trigger] order[k] <= i32::MAX,
        focused <= i32::MAX,
    ensures
        next_focus_target(
            focus_order(reg, arrays),
            next_focus_target(focus_order(reg, arrays), focused, 1),
            -1,
        ) == focused,
        next_focus_target(
            focus_order(reg, arrays),
            next_focus_target(focus_order(reg, arrays), focused, -1),
            1,
        ) == focused,
{
    lemma_focus_order_is(reg, arrays, order);
    lemma_sorted_distinct(arrays, order);
    let len = order.len() as int;
    let p = position_in(order, focused as usize);
    lemma_position_of(order, p);
    let n = if p + 1 == len { 0 } else { p + 1 };
    let b = if p == 0 { len - 1 } else { p - 1 };
    assert(((p + 1) % len + len) % len == n) by (nonlinear_arith)
        requires 0 <= p < len, n == if p + 1 == len { 0 } else { p + 1 };
    assert(((p - 1) % len + len) % len == b) by (nonlinear_arith)
        requires 0 <= p < len, b == if p == 0 { len - 1 } else { p - 1 };
    lemma_position_of(order, n);
    lemma_position_of(order, b);
    assert(((n - 1) % len + len) % len == p) by (nonlinear_arith)
        requires 0 <= p < len, n == if p + 1 == len { 0 } else { p + 1 };
    assert(((b + 1) % len + len) % len == p) by (nonlinear_arith)
        requires 0 <= p < len, b == if p == 0 { len - 1 } else { p - 1 };
}


/// Every member of `keep_below(s, ..)` is a member of `s` below `t`.
proof fn lemma_keep_below_members(s: Seq<usize>, core: &CoreArrays, t: usize, k: nat)
    ensures
        forall|m: int| 0 <= m < keep_below(s, core, t, k).len() ==> s.contains(#[trigger] keep_below(s, core, t, k)[m])
            && below_within(core, keep_below(s, core, t, k)[m], t, k),
    decreases s.len(),
{
    if s.len() > 0 {
        lemma_keep_below_members(s.drop_last(), core, t, k);
        let r = keep_below(s.drop_last(), core, t, k);
        assert forall|m: int| 0 <= m < keep_below(s, core, t, k).len() implies s.contains(
            #[trigger] keep_below(s, core, t, k)[m],
        ) && below_within(core, keep_below(s, core, t, k)[m], t, k) by {
            if m < r.len() {
                assert(keep_below(s, core, t, k)[m] == r[m]);
                let j = choose|j: int| 0 <= j < s.drop_last().len() && s.drop_last()[j] == r[m];
                assert(s[j] == r[m]);
            } else {
                assert(s[s.len() - 1] == s.last());
            }
        }
    }
}

/// A focus trap keeps focus inside: while a trap is active, Tab and
/// Shift+Tab only ever move focus to a focusable descendant of the
/// innermost trap container.
pub proof fn lemma_trap_keeps_focus(reg: &Registry, arrays: &Arrays, traps: Seq<usize>, focused: int, direction: int)
    requires
        traps.len() > 0,
        next_focus_target(cycle_order(reg, arrays, traps), focused, direction) != -1,
    ensures
        ({
            let order = cycle_order(reg, arrays, traps);
            exists|m: int|
                0 <= m < order.len() && next_focus_target(order, focused, direction) == (order[m] as i32) as int
                    && below_within(&arrays.core, #[trigger] order[m], traps.last(), reg.allocated_spec().len())
                    && focus_order(reg, arrays).contains(order[m])
        }),
{
    let order = cycle_order(reg, arrays, traps);
    lemma_keep_below_members(focus_order(reg, arrays), &arrays.core, traps.last(), reg.allocated_spec().len());
    let len = order.len() as int;
    let pos = if focused >= 0 { position_in(order, focused as usize) } else { -1 };
    if pos < 0 {
        if direction == 1 {
            assert(below_within(&arrays.core, order[0], traps.last(), reg.allocated_spec().len()));
        } else {
            assert(below_within(&arrays.core, order[len - 1], traps.last(), reg.allocated_spec().len()));
        }
    } else {
        let q = ((pos + direction) % len + len) % len;
        assert(0 <= q < len) by (nonlinear_arith) requires len > 0, q == ((pos + direction) % len + len) % len;
        assert(below_within(&arrays.core, order[q], traps.last(), reg.allocated_spec().len()));
    }
}

} // verus!
