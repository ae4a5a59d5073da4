use vstd::prelude::*;
use vstd::std_specs::cmp::PartialEqSpecImpl;

verus! {

/// The longest time between a pointer going down and coming up that still
/// makes a click, in the units of the timestamps.
pub const CLICK_WINDOW: u128 = 500;

/// One occurrence of input: where the pointer was, what happened, which key
/// it concerned, and when.
#[derive(Debug)]
pub struct Event {
    pub mouse_x: i32,
    pub mouse_y: i32,
    pub key: Option<String>,
    pub key_pressed: bool,
    pub key_up: bool,
    pub key_down: bool,
    pub mouse_up: bool,
    pub mouse_down: bool,
    pub mouse_moved: bool,
    pub timestamp: u128,
}

/// Whether two key names are the same text, or both absent.
pub open spec fn same_key(a: Option<String>, b: Option<String>) -> bool {
    match (a, b) {
        (Some(s), Some(t)) => s@ == t@,
        (None, None) => true,
        _ => false,
    }
}

/// Whether two events report the same occurrence: the same time, the same
/// six flags and the same key. Where the pointer was is not compared.
pub open spec fn same_occurrence(a: Event, b: Event) -> bool {
    &&& a.timestamp == b.timestamp
    &&& a.key_down == b.key_down
    &&& a.key_up == b.key_up
    &&& a.key_pressed == b.key_pressed
    &&& a.mouse_down == b.mouse_down
    &&& a.mouse_up == b.mouse_up
    &&& a.mouse_moved == b.mouse_moved
    &&& same_key(a.key, b.key)
}

/// An event of the pointer at `(x, y)` with no flag set.
pub open spec fn pointer_event(x: i32, y: i32, ts: u128) -> Event {
    Event {
        mouse_x: x,
        mouse_y: y,
        key: None,
        key_pressed: false,
        key_up: false,
        key_down: false,
        mouse_up: false,
        mouse_down: false,
        mouse_moved: false,
        timestamp: ts,
    }
}

/// An event of the key `key` with no flag set.
pub open spec fn key_event(key: String, ts: u128) -> Event {
    Event {
        mouse_x: 0,
        mouse_y: 0,
        key: Some(key),
        key_pressed: false,
        key_up: false,
        key_down: false,
        mouse_up: false,
        mouse_down: false,
        mouse_moved: false,
        timestamp: ts,
    }
}

/// Whether `event`, coming after `last`, completes a click: `last` was the
/// pointer going down, `event` is the pointer coming up, and `event` is no
/// earlier than `last` and no more than the click window later.
pub open spec fn completes_click(event: Event, last: Option<Event>) -> bool {
    match last {
        Some(down) => {
            &&& down.mouse_down
            &&& event.mouse_up
            &&& down.timestamp <= event.timestamp
            &&& event.timestamp - down.timestamp <= CLICK_WINDOW
        },
        None => false,
    }
}

/// Whether the event is one of the pointer: a move, a press or a release.
pub open spec fn of_pointer(event: Event) -> bool {
    event.mouse_moved || event.mouse_down || event.mouse_up
}

fn keys_match(a: &Option<String>, b: &Option<String>) -> (r: bool)
    ensures
        r == same_key(*a, *b),
{
    match (a, b) {
        (Some(s), Some(t)) => *s == *t,
        (None, None) => true,
        _ => false,
    }
}

impl PartialEq for Event {
    fn eq(&self, other: &Self) -> (r: bool) {
        (self.timestamp == other.timestamp) && (self.key_down == other.key_down) && (self.key_up
            == other.key_up) && (self.key_pressed == other.key_pressed) && (self.mouse_down
            == other.mouse_down) && (self.mouse_up == other.mouse_up) && (self.mouse_moved
            == other.mouse_moved) && keys_match(&self.key, &other.key)
    }
}

impl PartialEqSpecImpl for Event {
    open spec fn obeys_eq_spec() -> bool {
        true
    }

    open spec fn eq_spec(&self, other: &Self) -> bool {
        same_occurrence(*self, *other)
    }
}

impl Clone for Event {
    fn clone(&self) -> (r: Self)
        ensures
            r == *self,
    {
        Event {
            mouse_x: self.mouse_x,
            mouse_y: self.mouse_y,
            key: match &self.key {
                Some(k) => Some(k.clone()),
                None => None,
            },
            key_pressed: self.key_pressed,
            key_up: self.key_up,
            key_down: self.key_down,
            mouse_up: self.mouse_up,
            mouse_down: self.mouse_down,
            mouse_moved: self.mouse_moved,
            timestamp: self.timestamp,
        }
    }
}

impl Event {
    pub fn from_mouse_up(x: i32, y: i32, ts: u128) -> (r: Self)
        ensures
            r == (Event { mouse_up: true, ..pointer_event(x, y, ts) }),
    {
        Event {
            mouse_x: x,
            mouse_y: y,
            key: None,
            key_pressed: false,
            key_up: false,
            key_down: false,
            mouse_up: true,
            mouse_down: false,
            mouse_moved: false,
            timestamp: ts,
        }
    }

    pub fn from_mouse_down(x: i32, y: i32, ts: u128) -> (r: Self)
        ensures
            r == (Event { mouse_down: true, ..pointer_event(x, y, ts) }),
    {
        Event {
            mouse_x: x,
            mouse_y: y,
            key: None,
            key_pressed: false,
            key_up: false,
            key_down: false,
            mouse_up: false,
            mouse_down: true,
            mouse_moved: false,
            timestamp: ts,
        }
    }

    pub fn from_mouse_move(x: i32, y: i32, ts: u128) -> (r: Self)
        ensures
            r == (Event { mouse_moved: true, ..pointer_event(x, y, ts) }),
    {
        Event {
            mouse_x: x,
            mouse_y: y,
            key: None,
            key_pressed: false,
            key_up: false,
            key_down: false,
            mouse_up: false,
            mouse_down: false,
            mouse_moved: true,
            timestamp: ts,
        }
    }

    pub fn from_key_down(key: String, ts: u128) -> (r: Self)
        ensures
            r == (Event { key_down: true, ..key_event(key, ts) }),
    {
        Event {
            mouse_x: 0,
            mouse_y: 0,
            key: Some(key),
            key_pressed: false,
            key_up: false,
            key_down: true,
            mouse_up: false,
            mouse_down: false,
            mouse_moved: false,
            timestamp: ts,
        }
    }

    pub fn from_key_up(key: String, ts: u128) -> (r: Self)
        ensures
            r == (Event { key_up: true, ..key_event(key, ts) }),
    {
        Event {
            mouse_x: 0,
            mouse_y: 0,
            key: Some(key),
            key_pressed: false,
            key_up: true,
            key_down: false,
            mouse_up: false,
            mouse_down: false,
            mouse_moved: false,
            timestamp: ts,
        }
    }

    pub fn from_key_press(key: String, ts: u128) -> (r: Self)
        ensures
            r == (Event { key_pressed: true, ..key_event(key, ts) }),
    {
        Event {
            mouse_x: 0,
            mouse_y: 0,
            key: Some(key),
            key_pressed: true,
            key_up: false,
            key_down: false,
            mouse_up: false,
            mouse_down: false,
            mouse_moved: false,
            timestamp: ts,
        }
    }

    /// Tells whether this event completes a click begun by the event that
    /// `last_event_opt` holds, and uses that event up either way.
    pub fn is_click(&self, last_event_opt: &mut Option<Event>) -> (r: bool)
        ensures
            r == completes_click(*self, *old(last_event_opt)),
            *final(last_event_opt) == None::<Event>,
    {
        match last_event_opt.take() {
            Some(last) => {
                last.mouse_down && self.mouse_up && last.timestamp <= self.timestamp
                    && self.timestamp - last.timestamp <= CLICK_WINDOW
            },
            None => false,
        }
    }
}

} // verus!
