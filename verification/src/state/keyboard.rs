//! Keyboard event state and handler registry: the last event, global
//! handlers, key-specific handlers and handlers of the focused component.

use vstd::prelude::*;
use crate::handler_list::{not_id, remove_id, lemma_filter_keeps};

verus! {

broadcast use vstd::string::group_string_axioms;

/// Keyboard modifier state.
#[derive(Clone, Copy, Debug, Default, PartialEq, Eq, Structural)]
pub struct Modifiers {
    pub ctrl: bool,
    pub alt: bool,
    pub shift: bool,
    pub meta: bool,
}

impl Modifiers {
    /// No modifiers.
    pub fn none() -> (m: Modifiers)
        ensures
            m == (Modifiers { ctrl: false, alt: false, shift: false, meta: false }),
    {
        Modifiers { ctrl: false, alt: false, shift: false, meta: false }
    }

    /// Ctrl only.
    pub fn ctrl() -> (m: Modifiers)
        ensures
            m == (Modifiers { ctrl: true, alt: false, shift: false, meta: false }),
    {
        Modifiers { ctrl: true, alt: false, shift: false, meta: false }
    }

    /// Alt only.
    pub fn alt() -> (m: Modifiers)
        ensures
            m == (Modifiers { ctrl: false, alt: true, shift: false, meta: false }),
    {
        Modifiers { ctrl: false, alt: true, shift: false, meta: false }
    }

    /// Shift only.
    pub fn shift() -> (m: Modifiers)
        ensures
            m == (Modifiers { ctrl: false, alt: false, shift: true, meta: false }),
    {
        Modifiers { ctrl: false, alt: false, shift: true, meta: false }
    }
}

/// Key event state.
#[derive(Clone, Copy, Debug, PartialEq, Eq, Structural)]
pub enum KeyState {
    Press,
    Repeat,
    Release,
}

impl Default for KeyState {
    fn default() -> (s: KeyState)
        ensures
            s == KeyState::Press,
    {
        KeyState::Press
    }
}

/// A keyboard event.
#[derive(Clone, Debug, PartialEq)]
pub struct KeyboardEvent {
    /// The key, such as "a", "Enter" or "ArrowUp".
    pub key: String,
    pub modifiers: Modifiers,
    pub state: KeyState,
    /// The raw escape sequence, when known.
    pub raw: Option<String>,
}

/// The characters of an optional string.
pub open spec fn opt_string_view(s: Option<String>) -> Option<Seq<char>> {
    match s {
        Some(t) => Some(t@),
        None => None,
    }
}

impl KeyboardEvent {
    /// The event as plain values: key, modifiers, state and raw sequence.
    pub open spec fn view_tuple(&self) -> (Seq<char>, Modifiers, KeyState, Option<Seq<char>>) {
        (self.key@, self.modifiers, self.state, opt_string_view(self.raw))
    }

    /// A key press without modifiers.
    pub fn new(key: &str) -> (e: KeyboardEvent)
        ensures
            e.key@ == key@,
            e.modifiers == Modifiers::none_spec(),
            e.state == KeyState::Press,
            e.raw is None,
    {
        KeyboardEvent { key: key.to_string(), modifiers: Modifiers::none(), state: KeyState::Press, raw: None }
    }

    /// A key press with modifiers.
    pub fn with_modifiers(key: &str, modifiers: Modifiers) -> (e: KeyboardEvent)
        ensures
            e.key@ == key@,
            e.modifiers == modifiers,
            e.state == KeyState::Press,
            e.raw is None,
    {
        KeyboardEvent { key: key.to_string(), modifiers, state: KeyState::Press, raw: None }
    }

    /// Whether this is a press (not a repeat or release).
    pub fn is_press(&self) -> (b: bool)
        ensures
            b == (self.state == KeyState::Press),
    {
        self.state == KeyState::Press
    }

    /// A copy of the event.
    pub fn duplicate(&self) -> (e: KeyboardEvent)
        ensures
            e.view_tuple() == self.view_tuple(),
    {
        let raw = match &self.raw {
            Some(r) => Some(r.clone()),
            None => None,
        };
        KeyboardEvent { key: self.key.clone(), modifiers: self.modifiers, state: self.state, raw }
    }
}

impl Modifiers {
    /// No modifiers, as a value.
    pub open spec fn none_spec() -> Modifiers {
        Modifiers { ctrl: false, alt: false, shift: false, meta: false }
    }
}

/// Keyboard state: the last event and the registered handlers. `G` handles
/// events (global and focused handlers), `K` handles a specific key.
pub struct KeyboardState<G, K> {
    last: Option<KeyboardEvent>,
    global_handlers: Vec<(usize, G)>,
    key_handlers: Vec<(usize, (String, K))>,
    focused_handlers: Vec<(usize, (usize, G))>,
    next_id: usize,
}

impl<G: Fn(&KeyboardEvent) -> bool, K: Fn() -> bool> KeyboardState<G, K> {
    /// The last event seen.
    pub closed spec fn last_spec(&self) -> Option<(Seq<char>, Modifiers, KeyState, Option<Seq<char>>)> {
        match self.last {
            Some(e) => Some(e.view_tuple()),
            None => None,
        }
    }

    /// Global handlers in registration order: (id, handler).
    pub closed spec fn global_spec(&self) -> Seq<(usize, G)> {
        self.global_handlers@
    }

    /// Key handlers in registration order: (id, (key, handler)).
    pub closed spec fn keys_spec(&self) -> Seq<(usize, (String, K))> {
        self.key_handlers@
    }

    /// Focused-component handlers in registration order: (id, (index, handler)).
    pub closed spec fn focused_spec(&self) -> Seq<(usize, (usize, G))> {
        self.focused_handlers@
    }

    /// The id the next registration gets.
    pub closed spec fn next_id_spec(&self) -> usize {
        self.next_id
    }

    /// Every handler may be called on any event.
    pub closed spec fn wf(&self) -> bool {
        &&& forall|k: int, e: &KeyboardEvent|
            0 <= k < self.global_handlers@.len() ==> #[trigger] call_requires(self.global_handlers@[k].1, (e,))
        &&& forall|k: int| 0 <= k < self.key_handlers@.len() ==> #[trigger] call_requires(self.key_handlers@[k].1.1, ())
        &&& forall|k: int, e: &KeyboardEvent|
            0 <= k < self.focused_handlers@.len() ==> #[trigger] call_requires(self.focused_handlers@[k].1.1, (e,))
    }

    /// No event seen, no handlers.
    pub fn new() -> (s: KeyboardState<G, K>)
        ensures
            s.wf(),
            s.last_spec() is None,
            s.global_spec().len() == 0,
            s.keys_spec().len() == 0,
            s.focused_spec().len() == 0,
            s.next_id_spec() == 0,
    {
        let s = KeyboardState {
            last: None,
            global_handlers: Vec::new(),
            key_handlers: Vec::new(),
            focused_handlers: Vec::new(),
            next_id: 0,
        };
        assert(s.keys_spec() =~= Seq::empty());
        s
    }
}

/// A key handler entry with the given id, key and handler.
pub open spec fn key_entry_is<K>(e: (usize, (String, K)), id: usize, key: Seq<char>, handler: K) -> bool {
    e.0 == id && e.1.0@ == key && e.1.1 == handler
}

// =============================================================================
// State
// =============================================================================

/// The last keyboard event.
pub fn last_event<G: Fn(&KeyboardEvent) -> bool, K: Fn() -> bool>(state: &KeyboardState<G, K>) -> (r: Option<KeyboardEvent>)
    ensures
        match r {
            Some(e) => state.last_spec() == Some(e.view_tuple()),
            None => state.last_spec() is None,
        },
{
    match &state.last {
        Some(e) => Some(e.duplicate()),
        None => None,
    }
}

/// The key of the last event, empty when there was none.
pub fn last_key<G: Fn(&KeyboardEvent) -> bool, K: Fn() -> bool>(state: &KeyboardState<G, K>) -> (r: String)
    ensures
        r@ == match state.last_spec() {
            Some(t) => t.0,
            None => Seq::empty(),
        },
{
    match &state.last {
        Some(e) => e.key.clone(),
        None => String::new(),
    }
}

/// Record the last event without dispatching it.
pub fn update_last_event<G: Fn(&KeyboardEvent) -> bool, K: Fn() -> bool>(state: &mut KeyboardState<G, K>, event: KeyboardEvent)
    requires
        old(state).wf(),
    ensures
        final(state).wf(),
        final(state).last_spec() == Some(event.view_tuple()),
        final(state).global_spec() == old(state).global_spec(),
        final(state).keys_spec() == old(state).keys_spec(),
        final(state).focused_spec() == old(state).focused_spec(),
        final(state).next_id_spec() == old(state).next_id_spec(),
{
    state.last = Some(event);
    assert(state.keys_spec() =~= old(state).keys_spec());
}

// =============================================================================
// Dispatch
// =============================================================================

/// Whether key handler `k` listens for `key`.
pub open spec fn key_listens<K>(keys: Seq<(usize, (String, K))>, k: int, key: Seq<char>) -> bool {
    0 <= k < keys.len() && keys[k].1.0@ == key
}

/// What dispatching to key and global handlers promises: the handlers for
/// the event's key are called in registration order, then the global ones,
/// until one returns true. Consumed means some handler returned true and
/// every handler called before it (the earlier key handlers, and for a
/// global handler all key handlers and the earlier global ones) returned
/// false; not consumed means every one of them returned false.
pub open spec fn handlers_outcome<G: Fn(&KeyboardEvent) -> bool, K: Fn() -> bool>(
    keys: Seq<(usize, (String, K))>,
    global: Seq<(usize, G)>,
    event: &KeyboardEvent,
    r: bool,
) -> bool {
    &&& r ==> (exists|k: int|
        key_listens(keys, k, event.key@) && #[trigger] call_ensures(keys[k].1.1, (), true) && forall|j: int|
            0 <= j < k && key_listens(keys, j, event.key@) ==> call_ensures(keys[j].1.1, (), false)) || ((forall|j: int|
        key_listens(keys, j, event.key@) ==> call_ensures(keys[j].1.1, (), false)) && exists|k: int|
        0 <= k < global.len() && #[trigger] call_ensures(global[k].1, (event,), true) && forall|j: int|
            0 <= j < k ==> call_ensures(global[j].1, (event,), false))
    &&& !r ==> (forall|k: int| key_listens(keys, k, event.key@) ==> #[trigger] call_ensures(keys[k].1.1, (), false))
        && (forall|k: int| 0 <= k < global.len() ==> #[trigger] call_ensures(global[k].1, (event,), false))
}

/// Dispatch to key-specific handlers (of the event's key), then global
/// handlers, in registration order, stopping at the first that consumes.
pub fn dispatch_to_handlers<G: Fn(&KeyboardEvent) -> bool, K: Fn() -> bool>(state: &KeyboardState<G, K>, event: &KeyboardEvent) -> (r: bool)
    requires
        state.wf(),
    ensures
        handlers_outcome(state.keys_spec(), state.global_spec(), event, r),
{
    let ghost keys = state.keys_spec();
    let mut k: usize = 0;
    while k < state.key_handlers.len()
        invariant
            k <= state.key_handlers@.len(),
            keys == state.keys_spec(),
            keys.len() == state.key_handlers@.len(),
            state.wf(),
            forall|j: int| 0 <= j < k && key_listens(keys, j, event.key@) ==> #[trigger] call_ensures(keys[j].1.1, (), false),
        decreases state.key_handlers.len() - k,
    {
        let entry = &state.key_handlers[k];
        if entry.1.0 == event.key {
            let consumed = (entry.1.1)();
            if consumed {
                assert(key_listens(keys, k as int, event.key@));
                assert(call_ensures(keys[k as int].1.1, (), true));
                return true;
            }
        }
        k = k + 1;
    }
    let mut g: usize = 0;
    while g < state.global_handlers.len()
        invariant
            g <= state.global_handlers@.len(),
            state.wf(),
            keys == state.keys_spec(),
            forall|j: int| key_listens(keys, j, event.key@) ==> #[trigger] call_ensures(keys[j].1.1, (), false),
            forall|j: int| 0 <= j < g ==> #[trigger] call_ensures(state.global_spec()[j].1, (event,), false),
        decreases state.global_handlers.len() - g,
    {
        let consumed = (state.global_handlers[g].1)(event);
        if consumed {
            assert(0 <= g < state.global_spec().len());
            return true;
        }
        g = g + 1;
    }
    false
}

/// Dispatch an event: it becomes the last event, and a press goes to the key
/// and global handlers (see `dispatch_to_handlers`); other states are not
/// dispatched.
pub fn dispatch<G: Fn(&KeyboardEvent) -> bool, K: Fn() -> bool>(state: &mut KeyboardState<G, K>, event: KeyboardEvent) -> (r: bool)
    requires
        old(state).wf(),
    ensures
        final(state).wf(),
        final(state).last_spec() == Some(event.view_tuple()),
        event.state != KeyState::Press ==> !r,
        event.state == KeyState::Press ==> handlers_outcome(old(state).keys_spec(), old(state).global_spec(), &event, r),
        final(state).global_spec() == old(state).global_spec(),
        final(state).keys_spec() == old(state).keys_spec(),
        final(state).focused_spec() == old(state).focused_spec(),
        final(state).next_id_spec() == old(state).next_id_spec(),
{
    let copy = event.duplicate();
    update_last_event(state, copy);
    if event.state != KeyState::Press {
        return false;
    }
    dispatch_to_handlers(state, &event)
}

/// Dispatch to the handlers of the focused component (index `focused_index`),
/// in registration order, stopping at the first that consumes. Nothing is
/// dispatched when nothing is focused or the event is not a press.
pub fn dispatch_focused<G: Fn(&KeyboardEvent) -> bool, K: Fn() -> bool>(
    state: &KeyboardState<G, K>,
    focused_index: i32,
    event: &KeyboardEvent,
) -> (r: bool)
    requires
        state.wf(),
    ensures
        (focused_index < 0 || event.state != KeyState::Press) ==> !r,
        r ==> exists|k: int|
            0 <= k < state.focused_spec().len() && state.focused_spec()[k].1.0 == focused_index as usize
                && #[trigger] call_ensures(state.focused_spec()[k].1.1, (event,), true) && forall|j: int|
                0 <= j < k && state.focused_spec()[j].1.0 == focused_index as usize ==> call_ensures(
                    state.focused_spec()[j].1.1,
                    (event,),
                    false,
                ),
        !r && focused_index >= 0 && event.state == KeyState::Press ==> forall|k: int|
            0 <= k < state.focused_spec().len() && state.focused_spec()[k].1.0 == focused_index as usize
                ==> #[trigger] call_ensures(state.focused_spec()[k].1.1, (event,), false),
{
    if focused_index < 0 {
        return false;
    }
    if event.state != KeyState::Press {
        return false;
    }
    let target = focused_index as usize;
    let mut k: usize = 0;
    while k < state.focused_handlers.len()
        invariant
            k <= state.focused_handlers@.len(),
            state.wf(),
            focused_index >= 0,
            event.state == KeyState::Press,
            target == focused_index as usize,
            forall|j: int|
                0 <= j < k && state.focused_spec()[j].1.0 == target ==> #[trigger] call_ensures(
                    state.focused_spec()[j].1.1,
                    (event,),
                    false,
                ),
        decreases state.focused_handlers.len() - k,
    {
        if state.focused_handlers[k].1.0 == target {
            let consumed = (state.focused_handlers[k].1.1)(event);
            if consumed {
                assert(0 <= k < state.focused_spec().len());
                return true;
            }
        }
        k = k + 1;
    }
    false
}

// =============================================================================
// Registration
// =============================================================================

/// Subscribe to all keyboard events; returns the registration id.
pub fn on<G: Fn(&KeyboardEvent) -> bool, K: Fn() -> bool>(state: &mut KeyboardState<G, K>, handler: G) -> (id: usize)
    requires
        old(state).wf(),
        old(state).next_id_spec() < usize::MAX,
        forall|e: &KeyboardEvent| call_requires(handler, (e,)),
    ensures
        final(state).wf(),
        id == old(state).next_id_spec(),
        final(state).next_id_spec() == id + 1,
        final(state).global_spec() == old(state).global_spec().push((id, handler)),
        final(state).keys_spec() == old(state).keys_spec(),
        final(state).focused_spec() == old(state).focused_spec(),
        final(state).last_spec() == old(state).last_spec(),
{
    let id = state.next_id;
    state.next_id = id + 1;
    state.global_handlers.push((id, handler));
    assert(state.keys_spec() =~= old(state).keys_spec());
    id
}

/// Subscribe to one key; returns the registration id.
pub fn on_key<G: Fn(&KeyboardEvent) -> bool, K: Fn() -> bool>(state: &mut KeyboardState<G, K>, key: &str, handler: K) -> (id: usize)
    requires
        old(state).wf(),
        old(state).next_id_spec() < usize::MAX,
        call_requires(handler, ()),
    ensures
        final(state).wf(),
        id == old(state).next_id_spec(),
        final(state).next_id_spec() == id + 1,
        final(state).keys_spec().len() == old(state).keys_spec().len() + 1,
        final(state).keys_spec().drop_last() == old(state).keys_spec(),
        final(state).keys_spec().last().0 == id,
        final(state).keys_spec().last().1.0@ == key@,
        final(state).keys_spec().last().1.1 == handler,
        final(state).global_spec() == old(state).global_spec(),
        final(state).focused_spec() == old(state).focused_spec(),
        final(state).last_spec() == old(state).last_spec(),
{
    let id = state.next_id;
    state.next_id = id + 1;
    state.key_handlers.push((id, (key.to_string(), handler)));
    assert(state.keys_spec().drop_last() =~= old(state).keys_spec());
    id
}

/// Subscribe one handler to several keys; returns the registration ids, one
/// per key in order.
pub fn on_keys<G: Fn(&KeyboardEvent) -> bool, K: Fn() -> bool + Copy>(
    state: &mut KeyboardState<G, K>,
    keys: &[&str],
    handler: K,
) -> (ids: Vec<usize>)
    requires
        old(state).wf(),
        old(state).next_id_spec() + keys@.len() < usize::MAX,
        call_requires(handler, ()),
    ensures
        final(state).wf(),
        final(state).next_id_spec() == old(state).next_id_spec() + keys@.len(),
        ids@.len() == keys@.len(),
        final(state).keys_spec().len() == old(state).keys_spec().len() + keys@.len(),
        final(state).keys_spec().take(old(state).keys_spec().len() as int) == old(state).keys_spec(),
        forall|j: int| 0 <= j < keys@.len() ==> #[trigger] ids@[j] == old(state).next_id_spec() + j,
        forall|j: int|
            0 <= j < keys@.len() ==> key_entry_is(
                #[trigger] final(state).keys_spec()[old(state).keys_spec().len() + j],
                ids@[j],
                keys@[j]@,
                handler,
            ),
        final(state).global_spec() == old(state).global_spec(),
        final(state).focused_spec() == old(state).focused_spec(),
        final(state).last_spec() == old(state).last_spec(),
{
    let mut ids: Vec<usize> = Vec::new();
    let mut k: usize = 0;
    let ghost n0 = old(state).keys_spec().len();
    while k < keys.len()
        invariant
            k <= keys@.len(),
            state.wf(),
            call_requires(handler, ()),
            n0 == old(state).keys_spec().len(),
            state.next_id_spec() == old(state).next_id_spec() + k,
            old(state).next_id_spec() + keys@.len() < usize::MAX,
            ids@.len() == k,
            state.keys_spec().len() == n0 + k,
            state.keys_spec().take(n0 as int) == old(state).keys_spec(),
            forall|j: int| 0 <= j < k ==> #[trigger] ids@[j] == old(state).next_id_spec() + j,
            forall|j: int| 0 <= j < k ==> key_entry_is(#[trigger] state.keys_spec()[n0 + j], ids@[j], keys@[j]@, handler),
            state.global_spec() == old(state).global_spec(),
            state.focused_spec() == old(state).focused_spec(),
            state.last_spec() == old(state).last_spec(),
        decreases keys.len() - k,
    {
        let ghost before = state.keys_spec();
        let ghost ids_before = ids@;
        let id = on_key(state, keys[k], handler);
        ids.push(id);
        proof {
            assert(state.keys_spec().take(n0 as int) =~= before.take(n0 as int));
            assert forall|j: int| 0 <= j < k + 1 implies key_entry_is(#[trigger] state.keys_spec()[n0 + j], ids@[j], keys@[j]@, handler) by {
                if j < k {
                    assert(state.keys_spec()[n0 + j] == before[n0 + j]);
                    assert(ids@[j] == ids_before[j]);
                    assert(key_entry_is(before[n0 + j], ids_before[j], keys@[j]@, handler));
                } else {
                    assert(state.keys_spec()[n0 + k] == state.keys_spec().last());
                }
            }
        }
        k = k + 1;
    }
    assert forall|j: int| 0 <= j < keys@.len() implies key_entry_is(#[trigger] state.keys_spec()[old(state).keys_spec().len() + j], ids@[j], keys@[j]@, handler) by {
        assert(key_entry_is(state.keys_spec()[n0 + j], ids@[j], keys@[j]@, handler));
    }
    ids
}

/// Subscribe to events while component `index` has focus; returns the
/// registration id.
pub fn on_focused<G: Fn(&KeyboardEvent) -> bool, K: Fn() -> bool>(state: &mut KeyboardState<G, K>, index: usize, handler: G) -> (id: usize)
    requires
        old(state).wf(),
        old(state).next_id_spec() < usize::MAX,
        forall|e: &KeyboardEvent| call_requires(handler, (e,)),
    ensures
        final(state).wf(),
        id == old(state).next_id_spec(),
        final(state).next_id_spec() == id + 1,
        final(state).focused_spec() == old(state).focused_spec().push((id, (index, handler))),
        final(state).global_spec() == old(state).global_spec(),
        final(state).keys_spec() == old(state).keys_spec(),
        final(state).last_spec() == old(state).last_spec(),
{
    let id = state.next_id;
    state.next_id = id + 1;
    state.focused_handlers.push((id, (index, handler)));
    assert(state.keys_spec() =~= old(state).keys_spec());
    id
}

/// Remove the registration with the given id, whichever kind it is; the
/// other registrations keep their order.
pub fn unsubscribe<G: Fn(&KeyboardEvent) -> bool, K: Fn() -> bool>(state: &mut KeyboardState<G, K>, id: usize)
    requires
        old(state).wf(),
    ensures
        final(state).wf(),
        final(state).global_spec() == old(state).global_spec().filter(not_id::<G>(id)),
        final(state).keys_spec() == old(state).keys_spec().filter(not_id::<(String, K)>(id)),
        final(state).focused_spec() == old(state).focused_spec().filter(not_id::<(usize, G)>(id)),
        final(state).last_spec() == old(state).last_spec(),
        final(state).next_id_spec() == old(state).next_id_spec(),
{
    remove_id(&mut state.global_handlers, id);
    remove_id(&mut state.key_handlers, id);
    remove_id(&mut state.focused_handlers, id);
    proof {
        lemma_filter_keeps(old(state).global_handlers@, not_id::<G>(id));
        lemma_filter_keeps(old(state).key_handlers@, not_id::<(String, K)>(id));
        lemma_filter_keeps(old(state).focused_handlers@, not_id::<(usize, G)>(id));
    }
}

/// Drop the focused-component handlers of a component (when it is released).
pub fn cleanup_index<G: Fn(&KeyboardEvent) -> bool, K: Fn() -> bool>(state: &mut KeyboardState<G, K>, index: usize)
    requires
        old(state).wf(),
    ensures
        final(state).wf(),
        final(state).focused_spec() == old(state).focused_spec().filter(
            |e: (usize, (usize, G))| e.1.0 != index,
        ),
        final(state).global_spec() == old(state).global_spec(),
        final(state).keys_spec() == old(state).keys_spec(),
        final(state).last_spec() == old(state).last_spec(),
        final(state).next_id_spec() == old(state).next_id_spec(),
{
    let ghost p = |e: (usize, (usize, G))| e.1.0 != index;
    let mut k: usize = 0;
    while k < state.focused_handlers.len()
        invariant
            state.wf(),
            p == (|e: (usize, (usize, G))| e.1.0 != index),
            k <= state.focused_handlers@.len(),
            state.focused_handlers@.filter(p) == old(state).focused_handlers@.filter(p),
            forall|j: int| 0 <= j < k ==> p(#[trigger] state.focused_handlers@[j]),
            state.global_handlers == old(state).global_handlers,
            state.key_handlers == old(state).key_handlers,
            state.last == old(state).last,
            state.next_id == old(state).next_id,
        decreases state.focused_handlers@.len() - k,
    {
        if state.focused_handlers[k].1.0 == index {
            let ghost before = state.focused_handlers@;
            proof {
                crate::handler_list::lemma_filter_remove_failing(before, k as int, p);
            }
            state.focused_handlers.remove(k);
            assert(state.focused_handlers@ =~= before.remove(k as int));
            assert forall|j: int| 0 <= j < k implies p(#[trigger] state.focused_handlers@[j]) by {
                assert(state.focused_handlers@[j] == before[j]);
            }
            assert forall|j: int, e: &KeyboardEvent|
                0 <= j < state.focused_handlers@.len() implies #[trigger] call_requires(
                state.focused_handlers@[j].1.1,
                (e,),
            ) by {
                if j < k {
                    assert(state.focused_handlers@[j] == before[j]);
                } else {
                    assert(state.focused_handlers@[j] == before[j + 1]);
                }
            }
        } else {
            k = k + 1;
        }
    }
    proof {
        crate::handler_list::lemma_filter_all_pass(state.focused_handlers@, p);
    }
}

/// Drop every handler and forget the last event.
pub fn cleanup<G: Fn(&KeyboardEvent) -> bool, K: Fn() -> bool>(state: &mut KeyboardState<G, K>)
    ensures
        final(state).wf(),
        final(state).global_spec().len() == 0,
        final(state).keys_spec().len() == 0,
        final(state).focused_spec().len() == 0,
        final(state).last_spec() is None,
        final(state).next_id_spec() == old(state).next_id_spec(),
{
    state.global_handlers.clear();
    state.key_handlers.clear();
    state.focused_handlers.clear();
    state.last = None;
}

/// Reset keyboard state: no handlers, no last event, ids start again at 0.
pub fn reset_keyboard_state<G: Fn(&KeyboardEvent) -> bool, K: Fn() -> bool>(state: &mut KeyboardState<G, K>)
    ensures
        final(state).wf(),
        final(state).global_spec().len() == 0,
        final(state).keys_spec().len() == 0,
        final(state).focused_spec().len() == 0,
        final(state).last_spec() is None,
        final(state).next_id_spec() == 0,
{
    cleanup(state);
    state.next_id = 0;
}

} // verus!
