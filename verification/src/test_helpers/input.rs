//! Simulated keyboard input for tests: a queue of key events and the
//! current pressed state of the movement keys.
use vstd::prelude::*;
use std::collections::VecDeque;

verus! {

/// The keys that movement and jumping use.
#[derive(Debug, Clone, Copy, PartialEq, Eq, Hash, Structural)]
pub enum KeyCode {
    /// Forward.
    W,
    /// Left.
    A,
    /// Backward.
    S,
    /// Right.
    D,
    /// Jump.
    Space,
}

/// A single key press or release.
#[derive(Debug, Clone, Copy, PartialEq, Eq, Structural)]
pub struct InputEvent {
    /// The key that was pressed or released.
    pub key: KeyCode,
    /// True for a press, false for a release.
    pub pressed: bool,
}

impl InputEvent {
    /// The event for `key` going down (`pressed`) or up.
    pub fn new(key: KeyCode, pressed: bool) -> (r: InputEvent)
        ensures
            r == (InputEvent { key, pressed }),
    {
        InputEvent { key, pressed }
    }
}

/// An input simulator as a mathematical value: the queued events, oldest
/// first, and the set of keys currently held down.
#[verifier::ext_equal]
pub struct InputModel {
    pub events: Seq<InputEvent>,
    pub pressed: Set<KeyCode>,
}

impl InputModel {
    /// No events queued and no key held.
    pub open spec fn initial() -> InputModel {
        InputModel { events: Seq::empty(), pressed: Set::empty() }
    }

    /// After pressing `key`: a press event is queued and the key is held.
    pub open spec fn press(self, key: KeyCode) -> InputModel {
        InputModel {
            events: self.events.push(InputEvent { key, pressed: true }),
            pressed: self.pressed.insert(key),
        }
    }

    /// After releasing `key`: a release event is queued and the key is up.
    pub open spec fn release(self, key: KeyCode) -> InputModel {
        InputModel {
            events: self.events.push(InputEvent { key, pressed: false }),
            pressed: self.pressed.remove(key),
        }
    }

    /// After taking the oldest event off the queue (nothing when it is empty).
    pub open spec fn popped(self) -> InputModel {
        InputModel {
            events: if self.events.len() == 0 { self.events } else { self.events.drop_first() },
            pressed: self.pressed,
        }
    }

    /// The oldest queued event, if any.
    pub open spec fn front(self) -> Option<InputEvent> {
        if self.events.len() == 0 { None } else { Some(self.events[0]) }
    }
}

/// One call that changes an input simulator.
pub enum InputOp {
    /// `press_key` of the key.
    Press(KeyCode),
    /// `release_key` of the key.
    Release(KeyCode),
    /// `pop_event`.
    Pop,
    /// `clear`.
    Clear,
}

impl InputModel {
    /// After the call `op`.
    pub open spec fn apply(self, op: InputOp) -> InputModel {
        match op {
            InputOp::Press(k) => self.press(k),
            InputOp::Release(k) => self.release(k),
            InputOp::Pop => self.popped(),
            InputOp::Clear => InputModel::initial(),
        }
    }

    /// After the calls `ops`, in order.
    pub open spec fn run(self, ops: Seq<InputOp>) -> InputModel
        decreases ops.len(),
    {
        if ops.len() == 0 {
            self
        } else {
            self.run(ops.drop_last()).apply(ops.last())
        }
    }
}

/// Whether, among the presses and releases of `key` in `ops` since the last
/// clear, there is one and the latest is a press.
pub open spec fn last_press_since_clear(ops: Seq<InputOp>, key: KeyCode) -> bool
    decreases ops.len(),
{
    if ops.len() == 0 {
        false
    } else {
        match ops.last() {
            InputOp::Clear => false,
            InputOp::Press(k) => if k == key {
                true
            } else {
                last_press_since_clear(ops.drop_last(), key)
            },
            InputOp::Release(k) => if k == key {
                false
            } else {
                last_press_since_clear(ops.drop_last(), key)
            },
            InputOp::Pop => last_press_since_clear(ops.drop_last(), key),
        }
    }
}

/// The number of events still queued after `ops`, starting from an empty
/// queue: each press and release since the last clear queues one, and each
/// pop since then that found an event takes one off.
pub open spec fn queued_after(ops: Seq<InputOp>) -> nat
    decreases ops.len(),
{
    if ops.len() == 0 {
        0
    } else {
        let n = queued_after(ops.drop_last());
        match ops.last() {
            InputOp::Clear => 0,
            InputOp::Press(_) => n + 1,
            InputOp::Release(_) => n + 1,
            InputOp::Pop => if n > 0 {
                (n - 1) as nat
            } else {
                0
            },
        }
    }
}

/// Simulates keyboard input for tests: tests queue key presses and releases
/// and read the keys' state without a window or an input device.
pub struct InputSimulator {
    /// Queue of input events, oldest first.
    event_queue: VecDeque<InputEvent>,
    w: bool,
    a: bool,
    s: bool,
    d: bool,
    space: bool,
}

impl View for InputSimulator {
    type V = InputModel;

    closed spec fn view(&self) -> InputModel {
        InputModel {
            events: self.event_queue@,
            pressed: Set::new(
                |k: KeyCode|
                    match k {
                        KeyCode::W => self.w,
                        KeyCode::A => self.a,
                        KeyCode::S => self.s,
                        KeyCode::D => self.d,
                        KeyCode::Space => self.space,
                    },
            ),
        }
    }
}

impl InputSimulator {
    /// A simulator with no events queued and no key pressed.
    pub fn new() -> (r: InputSimulator)
        ensures
            r@ == InputModel::initial(),
    {
        let r = InputSimulator {
            event_queue: VecDeque::new(),
            w: false,
            a: false,
            s: false,
            d: false,
            space: false,
        };
        assert(r@.pressed =~= Set::<KeyCode>::empty());
        r
    }

    /// Sets the held state of `key`.
    fn set_key(&mut self, key: KeyCode, down: bool)
        ensures
            final(self).event_queue@ == old(self).event_queue@,
            final(self)@.pressed == if down {
                old(self)@.pressed.insert(key)
            } else {
                old(self)@.pressed.remove(key)
            },
    {
        match key {
            KeyCode::W => self.w = down,
            KeyCode::A => self.a = down,
            KeyCode::S => self.s = down,
            KeyCode::D => self.d = down,
            KeyCode::Space => self.space = down,
        }
        proof {
            if down {
                assert(self@.pressed =~= old(self)@.pressed.insert(key));
            } else {
                assert(self@.pressed =~= old(self)@.pressed.remove(key));
            }
        }
    }

    /// Presses `key`: queues a press event and marks the key held.
    pub fn press_key(&mut self, key: KeyCode)
        ensures
            final(self)@ == old(self)@.press(key),
    {
        self.event_queue.push_back(InputEvent::new(key, true));
        self.set_key(key, true);
    }

    /// Releases `key`: queues a release event and marks the key up.
    pub fn release_key(&mut self, key: KeyCode)
        ensures
            final(self)@ == old(self)@.release(key),
    {
        self.event_queue.push_back(InputEvent::new(key, false));
        self.set_key(key, false);
    }

    /// Whether `key` is currently held.
    pub fn is_key_pressed(&self, key: KeyCode) -> (r: bool)
        ensures
            r == self@.pressed.contains(key),
    {
        match key {
            KeyCode::W => self.w,
            KeyCode::A => self.a,
            KeyCode::S => self.s,
            KeyCode::D => self.d,
            KeyCode::Space => self.space,
        }
    }

    /// The held state of the movement keys, in the order
    /// (W, A, S, D, Space).
    pub fn get_movement_state(&self) -> (r: (bool, bool, bool, bool, bool))
        ensures
            r == (
                self@.pressed.contains(KeyCode::W),
                self@.pressed.contains(KeyCode::A),
                self@.pressed.contains(KeyCode::S),
                self@.pressed.contains(KeyCode::D),
                self@.pressed.contains(KeyCode::Space),
            ),
    {
        (
            self.is_key_pressed(KeyCode::W),
            self.is_key_pressed(KeyCode::A),
            self.is_key_pressed(KeyCode::S),
            self.is_key_pressed(KeyCode::D),
            self.is_key_pressed(KeyCode::Space),
        )
    }

    /// Takes the oldest queued event off the queue, if there is one.
    pub fn pop_event(&mut self) -> (r: Option<InputEvent>)
        ensures
            r == old(self)@.front(),
            final(self)@ == old(self)@.popped(),
    {
        let r = self.event_queue.pop_front();
        proof {
            if old(self).event_queue@.len() > 0 {
                assert(self.event_queue@ =~= old(self).event_queue@.drop_first());
            }
            assert(self@.pressed =~= old(self)@.pressed);
        }
        r
    }

    /// The number of queued events.
    pub fn event_count(&self) -> (r: usize)
        ensures
            r == self@.events.len(),
    {
        self.event_queue.len()
    }

    /// Releases every key and empties the event queue (without queueing
    /// release events).
    pub fn clear(&mut self)
        ensures
            final(self)@ == InputModel::initial(),
    {
        self.event_queue.clear();
        self.w = false;
        self.a = false;
        self.s = false;
        self.d = false;
        self.space = false;
        assert(self@.pressed =~= Set::<KeyCode>::empty());
    }
}

impl Default for InputSimulator {
    fn default() -> (r: InputSimulator)
        ensures
            r@ == InputModel::initial(),
    {
        InputSimulator::new()
    }
}

/// A key that was pressed is held until it is released.
pub proof fn law_pressed_key_is_held(m: InputModel, key: KeyCode)
    ensures
        m.press(key).pressed.contains(key),
        !m.press(key).release(key).pressed.contains(key),
{
}

/// Pressing or releasing one key leaves every other key as it was.
pub proof fn law_other_keys_unaffected(m: InputModel, key: KeyCode, other: KeyCode)
    requires
        other != key,
    ensures
        m.press(key).pressed.contains(other) == m.pressed.contains(other),
        m.release(key).pressed.contains(other) == m.pressed.contains(other),
{
}

/// The event queue is first in, first out: on an empty queue, the first
/// event queued is the first one taken off, and it is taken off before the
/// second.
pub proof fn law_events_first_in_first_out(m: InputModel, k1: KeyCode, k2: KeyCode)
    requires
        m.events.len() == 0,
    ensures
        m.press(k1).release(k2).front() == Some(InputEvent { key: k1, pressed: true }),
        m.press(k1).release(k2).popped().front() == Some(InputEvent { key: k2, pressed: false }),
        m.press(k1).release(k2).popped().popped().front() == None::<InputEvent>,
{
    let m2 = m.press(k1).release(k2);
    assert(m2.events =~= seq![InputEvent { key: k1, pressed: true }, InputEvent { key: k2, pressed: false }]);
    assert(m2.popped().events =~= seq![InputEvent { key: k2, pressed: false }]);
    assert(m2.popped().popped().events.len() == 0);
}

/// From a new simulator, after any sequence of calls a key reads pressed
/// exactly when its latest press or release since the last clear was a
/// press; popping events never changes it.
pub proof fn law_key_state_follows_latest_press(ops: Seq<InputOp>, key: KeyCode)
    ensures
        InputModel::initial().run(ops).pressed.contains(key) == last_press_since_clear(ops, key),
    decreases ops.len(),
{
    if ops.len() > 0 {
        law_key_state_follows_latest_press(ops.drop_last(), key);
    }
}

/// From a new simulator, after any sequence of calls the number of queued
/// events is the number of presses and releases since the last clear, less
/// the pops since then that found an event.
pub proof fn law_event_count_follows_calls(ops: Seq<InputOp>)
    ensures
        InputModel::initial().run(ops).events.len() == queued_after(ops),
    decreases ops.len(),
{
    if ops.len() > 0 {
        law_event_count_follows_calls(ops.drop_last());
    }
}

} // verus!
