//! Input events that the client forwards to the host.
use crate::wire::{
    append_str, append_u32, append_u64, append_u8, decode_u32, decode_u64, decode_u8,
    read_string,
    le32, le64, lemma_le32_roundtrip, lemma_skip_front, lemma_skip_skip, lemma_str_canonical,
    lemma_str_roundtrip, lemma_u32_at_canonical, lemma_u32_field, lemma_u32_field_canonical,
    lemma_u64_field, lemma_u64_field_canonical, parse_str, str_fits, u32_at, u64_at, wire_str,
};
use vstd::prelude::*;

verus! {

broadcast use lemma_skip_skip, lemma_skip_front;

/// What happened to a key or a mouse button.
#[derive(Debug, Clone, Copy, PartialEq, Eq, Structural)]
pub enum KeyAction {
    Press,
    Release,
    Repeat,
}

/// A mouse button; `Other` carries the raw button number.
#[derive(Debug, Clone, Copy, PartialEq, Eq, Structural)]
pub enum MouseButton {
    Left,
    Middle,
    Right,
    Back,
    Forward,
    Other(u8),
}

/// A mouse event. Coordinates, deltas and scroll amounts are double-precision
/// numbers; each field holds the IEEE-754 bit pattern of that number
/// (`f64::to_bits`), which is also how it travels on the wire.
#[derive(Debug, Clone, Copy, PartialEq, Eq, Structural)]
pub enum MouseEvent {
    MotionAbsolute { x: u64, y: u64, width: u32, height: u32 },
    MotionRelative { dx: u64, dy: u64 },
    Button { button: MouseButton, state: KeyAction },
    AxisScroll { horizontal: u64, vertical: u64 },
}

/// An input event forwarded from the client to the host.
#[derive(Debug, Clone, PartialEq)]
pub enum InputEvent {
    Mouse(MouseEvent),
    Keyboard { keycode: u32, action: KeyAction, modifiers: u32 },
    ClipboardText(String),
    KeepAlive,
}

/// The mathematical value of an [`InputEvent`]: clipboard text as characters.
pub enum InputEventView {
    Mouse(MouseEvent),
    Keyboard { keycode: u32, action: KeyAction, modifiers: u32 },
    ClipboardText(Seq<char>),
    KeepAlive,
}

impl View for InputEvent {
    type V = InputEventView;

    open spec fn view(&self) -> InputEventView {
        match self {
            InputEvent::Mouse(m) => InputEventView::Mouse(*m),
            InputEvent::Keyboard { keycode, action, modifiers } => InputEventView::Keyboard {
                keycode: *keycode,
                action: *action,
                modifiers: *modifiers,
            },
            InputEvent::ClipboardText(s) => InputEventView::ClipboardText(s@),
            InputEvent::KeepAlive => InputEventView::KeepAlive,
        }
    }
}

// ----------------------------------------------------------------------------
// Variant numbers on the wire: an enum travels as the position of its variant,
// a little-endian `u32`, followed by the variant's fields in order.
// ----------------------------------------------------------------------------
pub open spec fn key_action_tag(a: KeyAction) -> u32 {
    match a {
        KeyAction::Press => 0,
        KeyAction::Release => 1,
        KeyAction::Repeat => 2,
    }
}

pub open spec fn key_action_of_tag(t: u32) -> Option<KeyAction> {
    if t == 0 {
        Some(KeyAction::Press)
    } else if t == 1 {
        Some(KeyAction::Release)
    } else if t == 2 {
        Some(KeyAction::Repeat)
    } else {
        None
    }
}

/// Variant number of a button without payload; `Other` is variant 5.
pub open spec fn button_tag(b: MouseButton) -> u32 {
    match b {
        MouseButton::Left => 0,
        MouseButton::Middle => 1,
        MouseButton::Right => 2,
        MouseButton::Back => 3,
        MouseButton::Forward => 4,
        MouseButton::Other(_) => 5,
    }
}

pub open spec fn button_of_tag(t: u32) -> MouseButton
    recommends
        t < 5,
{
    if t == 0 {
        MouseButton::Left
    } else if t == 1 {
        MouseButton::Middle
    } else if t == 2 {
        MouseButton::Right
    } else if t == 3 {
        MouseButton::Back
    } else {
        MouseButton::Forward
    }
}

pub open spec fn wire_key_action(a: KeyAction) -> Seq<u8> {
    le32(key_action_tag(a))
}

pub open spec fn wire_button(b: MouseButton) -> Seq<u8> {
    match b {
        MouseButton::Other(c) => le32(5) + seq![c],
        _ => le32(button_tag(b)),
    }
}

pub open spec fn wire_mouse(m: MouseEvent) -> Seq<u8> {
    match m {
        MouseEvent::MotionAbsolute { x, y, width, height } => le32(0) + le64(x) + le64(y) + le32(
            width,
        ) + le32(height),
        MouseEvent::MotionRelative { dx, dy } => le32(1) + le64(dx) + le64(dy),
        MouseEvent::Button { button, state } => le32(2) + wire_button(button) + wire_key_action(
            state,
        ),
        MouseEvent::AxisScroll { horizontal, vertical } => le32(3) + le64(horizontal) + le64(
            vertical,
        ),
    }
}

pub open spec fn wire_input(e: InputEventView) -> Seq<u8> {
    match e {
        InputEventView::Mouse(m) => le32(0) + wire_mouse(m),
        InputEventView::Keyboard { keycode, action, modifiers } => le32(1) + le32(keycode)
            + wire_key_action(action) + le32(modifiers),
        InputEventView::ClipboardText(s) => le32(2) + wire_str(s),
        InputEventView::KeepAlive => le32(3),
    }
}

/// Whether the event's text fits the wire's length prefix.
pub open spec fn input_fits(e: InputEventView) -> bool {
    match e {
        InputEventView::ClipboardText(s) => str_fits(s),
        _ => true,
    }
}

pub open spec fn parse_key_action(b: Seq<u8>) -> Option<(int, KeyAction)> {
    if b.len() >= 4 {
        match key_action_of_tag(u32_at(b)) {
            Some(a) => Some((4, a)),
            None => None,
        }
    } else {
        None
    }
}

pub open spec fn parse_button(b: Seq<u8>) -> Option<(int, MouseButton)> {
    if b.len() >= 4 && u32_at(b) < 5 {
        Some((4, button_of_tag(u32_at(b))))
    } else if b.len() >= 5 && u32_at(b) == 5 {
        Some((5, MouseButton::Other(b[4])))
    } else {
        None
    }
}

#[verifier::opaque]
pub open spec fn parse_mouse(b: Seq<u8>) -> Option<(int, MouseEvent)> {
    if b.len() < 4 {
        None
    } else if u32_at(b) == 0 {
        if b.len() >= 28 {
            Some(
                (
                    28,
                    MouseEvent::MotionAbsolute {
                        x: u64_at(b.skip(4)),
                        y: u64_at(b.skip(12)),
                        width: u32_at(b.skip(20)),
                        height: u32_at(b.skip(24)),
                    },
                ),
            )
        } else {
            None
        }
    } else if u32_at(b) == 1 {
        if b.len() >= 20 {
            Some((20, MouseEvent::MotionRelative { dx: u64_at(b.skip(4)), dy: u64_at(b.skip(12)) }))
        } else {
            None
        }
    } else if u32_at(b) == 2 {
        match parse_button(b.skip(4)) {
            Some((n1, button)) => match parse_key_action(b.skip(4 + n1)) {
                Some((n2, state)) => Some((4 + n1 + n2, MouseEvent::Button { button, state })),
                None => None,
            },
            None => None,
        }
    } else if u32_at(b) == 3 {
        if b.len() >= 20 {
            Some(
                (
                    20,
                    MouseEvent::AxisScroll {
                        horizontal: u64_at(b.skip(4)),
                        vertical: u64_at(b.skip(12)),
                    },
                ),
            )
        } else {
            None
        }
    } else {
        None
    }
}

#[verifier::opaque]
pub open spec fn parse_input(b: Seq<u8>) -> Option<(int, InputEventView)> {
    if b.len() < 4 {
        None
    } else if u32_at(b) == 0 {
        match parse_mouse(b.skip(4)) {
            Some((n, m)) => Some((4 + n, InputEventView::Mouse(m))),
            None => None,
        }
    } else if u32_at(b) == 1 {
        if b.len() >= 16 && key_action_of_tag(u32_at(b.skip(8))) is Some {
            Some(
                (
                    16,
                    InputEventView::Keyboard {
                        keycode: u32_at(b.skip(4)),
                        action: key_action_of_tag(u32_at(b.skip(8)))->0,
                        modifiers: u32_at(b.skip(12)),
                    },
                ),
            )
        } else {
            None
        }
    } else if u32_at(b) == 2 {
        match parse_str(b.skip(4)) {
            Some((n, s)) => Some((4 + n, InputEventView::ClipboardText(s))),
            None => None,
        }
    } else if u32_at(b) == 3 {
        Some((4, InputEventView::KeepAlive))
    } else {
        None
    }
}

// ----------------------------------------------------------------------------
// Reading back what was written, and writing back what was read.
// ----------------------------------------------------------------------------
pub proof fn lemma_key_action_roundtrip(a: KeyAction, rest: Seq<u8>)
    ensures
        parse_key_action(wire_key_action(a) + rest) == Some((4int, a)),
{
    lemma_le32_roundtrip(key_action_tag(a), rest);
}

pub proof fn lemma_key_action_canonical(b: Seq<u8>)
    requires
        parse_key_action(b) is Some,
    ensures
        parse_key_action(b) matches Some((n, a)) && b.take(n) == wire_key_action(a),
{
    lemma_u32_at_canonical(b);
}

pub proof fn lemma_button_roundtrip(bt: MouseButton, rest: Seq<u8>)
    ensures
        parse_button(wire_button(bt) + rest) == Some((wire_button(bt).len() as int, bt)),
{
    match bt {
        MouseButton::Other(c) => {
            let b = wire_button(bt) + rest;
            assert(b =~= le32(5) + (seq![c] + rest));
            lemma_le32_roundtrip(5, seq![c] + rest);
        },
        _ => {
            lemma_le32_roundtrip(button_tag(bt), rest);
        },
    }
}

pub proof fn lemma_button_canonical(b: Seq<u8>)
    requires
        parse_button(b) is Some,
    ensures
        parse_button(b) matches Some((n, bt)) && b.take(n) == wire_button(bt),
{
    lemma_u32_at_canonical(b);
    if u32_at(b) == 5 {
        assert(b.take(5) =~= b.take(4) + seq![b[4]]);
    }
}

pub proof fn lemma_mouse_roundtrip(m: MouseEvent, rest: Seq<u8>)
    ensures
        parse_mouse(wire_mouse(m) + rest) == Some((wire_mouse(m).len() as int, m)),
{
    reveal(parse_mouse);
    let b = wire_mouse(m) + rest;
    match m {
        MouseEvent::MotionAbsolute { x, y, width, height } => {
            assert(b.subrange(0, 4) =~= le32(0));
            assert(b.subrange(4, 12) =~= le64(x));
            assert(b.subrange(12, 20) =~= le64(y));
            assert(b.subrange(20, 24) =~= le32(width));
            assert(b.subrange(24, 28) =~= le32(height));
            lemma_u32_field(b, 0, 0);
            lemma_u64_field(b, 4, x);
            lemma_u64_field(b, 12, y);
            lemma_u32_field(b, 20, width);
            lemma_u32_field(b, 24, height);
        },
        MouseEvent::MotionRelative { dx, dy } => {
            assert(b.subrange(0, 4) =~= le32(1));
            assert(b.subrange(4, 12) =~= le64(dx));
            assert(b.subrange(12, 20) =~= le64(dy));
            lemma_u32_field(b, 0, 1);
            lemma_u64_field(b, 4, dx);
            lemma_u64_field(b, 12, dy);
        },
        MouseEvent::Button { button, state } => {
            assert(b.subrange(0, 4) =~= le32(2));
            lemma_u32_field(b, 0, 2);
            let wb = wire_button(button);
            assert(b.skip(4) =~= wb + (wire_key_action(state) + rest));
            lemma_button_roundtrip(button, wire_key_action(state) + rest);
            assert(b.skip(4 + wb.len() as int) =~= wire_key_action(state) + rest);
            lemma_key_action_roundtrip(state, rest);
        },
        MouseEvent::AxisScroll { horizontal, vertical } => {
            assert(b.subrange(0, 4) =~= le32(3));
            assert(b.subrange(4, 12) =~= le64(horizontal));
            assert(b.subrange(12, 20) =~= le64(vertical));
            lemma_u32_field(b, 0, 3);
            lemma_u64_field(b, 4, horizontal);
            lemma_u64_field(b, 12, vertical);
        },
    }
}

pub proof fn lemma_mouse_canonical(b: Seq<u8>)
    requires
        parse_mouse(b) is Some,
    ensures
        parse_mouse(b) matches Some((n, m)) && 0 <= n <= b.len() && b.take(n) == wire_mouse(m),
{
    reveal(parse_mouse);
    lemma_u32_field_canonical(b, 0);
    let t = u32_at(b);
    if t == 0 {
        lemma_u64_field_canonical(b, 4);
        lemma_u64_field_canonical(b, 12);
        lemma_u32_field_canonical(b, 20);
        lemma_u32_field_canonical(b, 24);
        assert(b.take(28) =~= b.subrange(0, 4) + b.subrange(4, 12) + b.subrange(12, 20)
            + b.subrange(20, 24) + b.subrange(24, 28));
    } else if t == 1 || t == 3 {
        lemma_u64_field_canonical(b, 4);
        lemma_u64_field_canonical(b, 12);
        assert(b.take(20) =~= b.subrange(0, 4) + b.subrange(4, 12) + b.subrange(12, 20));
    } else {
        let (n1, bt) = parse_button(b.skip(4)).unwrap();
        lemma_button_canonical(b.skip(4));
        lemma_key_action_canonical(b.skip(4 + n1));
        let (n2, a) = parse_key_action(b.skip(4 + n1)).unwrap();
        assert(b.take(4 + n1 + n2) =~= b.subrange(0, 4) + b.skip(4).take(n1) + b.skip(
            4 + n1,
        ).take(n2));
    }
}

proof fn lemma_input_mouse_roundtrip(m: MouseEvent, rest: Seq<u8>)
    ensures
        parse_input(wire_input(InputEventView::Mouse(m)) + rest) == Some(
            (wire_input(InputEventView::Mouse(m)).len() as int, InputEventView::Mouse(m)),
        ),
{
    reveal(parse_input);
    let b = wire_input(InputEventView::Mouse(m)) + rest;
    assert(b.subrange(0, 4) =~= le32(0));
    lemma_u32_field(b, 0, 0);
    assert(b.skip(4) =~= wire_mouse(m) + rest);
    lemma_mouse_roundtrip(m, rest);
}

proof fn lemma_input_keyboard_roundtrip(keycode: u32, action: KeyAction, modifiers: u32, rest: Seq<u8>)
    ensures
        ({
            let e = InputEventView::Keyboard { keycode, action, modifiers };
            parse_input(wire_input(e) + rest) == Some((wire_input(e).len() as int, e))
        }),
{
    reveal(parse_input);
    let e = InputEventView::Keyboard { keycode, action, modifiers };
    let b = wire_input(e) + rest;
    assert(b.subrange(0, 4) =~= le32(1));
    assert(b.subrange(4, 8) =~= le32(keycode));
    assert(b.subrange(8, 12) =~= le32(key_action_tag(action)));
    assert(b.subrange(12, 16) =~= le32(modifiers));
    lemma_u32_field(b, 0, 1);
    lemma_u32_field(b, 4, keycode);
    lemma_u32_field(b, 8, key_action_tag(action));
    lemma_u32_field(b, 12, modifiers);
}

proof fn lemma_input_text_roundtrip(s: Seq<char>, rest: Seq<u8>)
    requires
        str_fits(s),
    ensures
        parse_input(wire_input(InputEventView::ClipboardText(s)) + rest) == Some(
            (
                wire_input(InputEventView::ClipboardText(s)).len() as int,
                InputEventView::ClipboardText(s),
            ),
        ),
{
    reveal(parse_input);
    let b = wire_input(InputEventView::ClipboardText(s)) + rest;
    assert(b.subrange(0, 4) =~= le32(2));
    lemma_u32_field(b, 0, 2);
    assert(b.skip(4) =~= wire_str(s) + rest);
    lemma_str_roundtrip(s, rest);
}

pub proof fn lemma_input_roundtrip(e: InputEventView, rest: Seq<u8>)
    requires
        input_fits(e),
    ensures
        parse_input(wire_input(e) + rest) == Some((wire_input(e).len() as int, e)),
{
    reveal(parse_input);
    match e {
        InputEventView::Mouse(m) => lemma_input_mouse_roundtrip(m, rest),
        InputEventView::Keyboard { keycode, action, modifiers } => lemma_input_keyboard_roundtrip(
            keycode,
            action,
            modifiers,
            rest,
        ),
        InputEventView::ClipboardText(s) => lemma_input_text_roundtrip(s, rest),
        InputEventView::KeepAlive => {
            let b = wire_input(e) + rest;
            assert(b.subrange(0, 4) =~= le32(3));
            lemma_u32_field(b, 0, 3);
        },
    }
}

pub proof fn lemma_input_canonical(b: Seq<u8>)
    requires
        parse_input(b) is Some,
    ensures
        parse_input(b) matches Some((n, e)) && 0 <= n <= b.len() && input_fits(e) && b.take(n)
            == wire_input(e),
{
    reveal(parse_input);
    lemma_u32_field_canonical(b, 0);
    let t = u32_at(b);
    if t == 0 {
        lemma_mouse_canonical(b.skip(4));
        let (n, m) = parse_mouse(b.skip(4)).unwrap();
        assert(b.take(4 + n) =~= b.subrange(0, 4) + b.skip(4).take(n));
    } else if t == 1 {
        lemma_u32_field_canonical(b, 4);
        lemma_u32_field_canonical(b, 8);
        lemma_u32_field_canonical(b, 12);
        let a = key_action_of_tag(u32_at(b.skip(8)))->0;
        assert(key_action_tag(a) == u32_at(b.skip(8)));
        assert(b.take(16) =~= b.subrange(0, 4) + b.subrange(4, 8) + b.subrange(8, 12)
            + b.subrange(12, 16));
    } else if t == 2 {
        lemma_str_canonical(b.skip(4));
        let (n, s) = parse_str(b.skip(4)).unwrap();
        assert(b.take(4 + n) =~= b.subrange(0, 4) + b.skip(4).take(n));
    } else {
        assert(b.take(4) =~= b.subrange(0, 4));
    }
}


// ----------------------------------------------------------------------------
// Writing and reading.
// ----------------------------------------------------------------------------
impl KeyAction {
    /// The variant number that stands for this action on the wire.
    pub fn wire_tag(&self) -> (t: u32)
        ensures
            t == key_action_tag(*self),
    {
        match self {
            KeyAction::Press => 0,
            KeyAction::Release => 1,
            KeyAction::Repeat => 2,
        }
    }

    /// The action with this variant number, if there is one.
    pub fn from_wire_tag(t: u32) -> (r: Option<KeyAction>)
        ensures
            r == key_action_of_tag(t),
    {
        if t == 0 {
            Some(KeyAction::Press)
        } else if t == 1 {
            Some(KeyAction::Release)
        } else if t == 2 {
            Some(KeyAction::Repeat)
        } else {
            None
        }
    }

    /// Appends the wire form of the action.
    pub fn encode_into(&self, buf: &mut Vec<u8>)
        ensures
            final(buf)@ == old(buf)@ + wire_key_action(*self),
    {
        append_u32(buf, self.wire_tag());
    }

    /// Reads an action at `pos`; the result also gives the number of bytes taken.
    pub fn decode_at(bytes: &[u8], pos: usize) -> (r: Option<(usize, KeyAction)>)
        requires
            pos <= bytes@.len(),
        ensures
            r matches Some((m, _)) ==> pos + m <= bytes@.len(),
            r == (match parse_key_action(bytes@.skip(pos as int)) {
                Some((n, v)) => Some((n as usize, v)),
                None => None,
            }),
    {
        match decode_u32(bytes, pos) {
            Some(t) => match KeyAction::from_wire_tag(t) {
                Some(a) => Some((4, a)),
                None => None,
            },
            None => None,
        }
    }
}

impl MouseButton {
    /// Appends the wire form of the button.
    pub fn encode_into(&self, buf: &mut Vec<u8>)
        ensures
            final(buf)@ == old(buf)@ + wire_button(*self),
    {
        match self {
            MouseButton::Left => append_u32(buf, 0),
            MouseButton::Middle => append_u32(buf, 1),
            MouseButton::Right => append_u32(buf, 2),
            MouseButton::Back => append_u32(buf, 3),
            MouseButton::Forward => append_u32(buf, 4),
            MouseButton::Other(c) => {
                append_u32(buf, 5);
                append_u8(buf, *c);
            },
        }
    }

    /// Reads a button at `pos`; the result also gives the number of bytes taken.
    pub fn decode_at(bytes: &[u8], pos: usize) -> (r: Option<(usize, MouseButton)>)
        requires
            pos <= bytes@.len(),
        ensures
            r matches Some((m, _)) ==> pos + m <= bytes@.len(),
            r == (match parse_button(bytes@.skip(pos as int)) {
                Some((n, v)) => Some((n as usize, v)),
                None => None,
            }),
    {
        let t = match decode_u32(bytes, pos) {
            Some(t) => t,
            None => return None,
        };
        let avail = bytes.len() - pos;
        if t == 0 {
            Some((4, MouseButton::Left))
        } else if t == 1 {
            Some((4, MouseButton::Middle))
        } else if t == 2 {
            Some((4, MouseButton::Right))
        } else if t == 3 {
            Some((4, MouseButton::Back))
        } else if t == 4 {
            Some((4, MouseButton::Forward))
        } else if t == 5 {
            if avail < 5 {
                return None;
            }
            let c = decode_u8(bytes, pos + 4).unwrap();
            Some((5, MouseButton::Other(c)))
        } else {
            None
        }
    }
}

impl MouseEvent {
    /// Appends the wire form of the event.
    pub fn encode_into(&self, buf: &mut Vec<u8>)
        ensures
            final(buf)@ == old(buf)@ + wire_mouse(*self),
    {
        match self {
            MouseEvent::MotionAbsolute { x, y, width, height } => {
                append_u32(buf, 0);
                append_u64(buf, *x);
                append_u64(buf, *y);
                append_u32(buf, *width);
                append_u32(buf, *height);
            },
            MouseEvent::MotionRelative { dx, dy } => {
                append_u32(buf, 1);
                append_u64(buf, *dx);
                append_u64(buf, *dy);
            },
            MouseEvent::Button { button, state } => {
                append_u32(buf, 2);
                button.encode_into(buf);
                state.encode_into(buf);
            },
            MouseEvent::AxisScroll { horizontal, vertical } => {
                append_u32(buf, 3);
                append_u64(buf, *horizontal);
                append_u64(buf, *vertical);
            },
        }
    }

    /// Reads an event at `pos`; the result also gives the number of bytes taken.
    pub fn decode_at(bytes: &[u8], pos: usize) -> (r: Option<(usize, MouseEvent)>)
        requires
            pos <= bytes@.len(),
        ensures
            r matches Some((m, _)) ==> pos + m <= bytes@.len(),
            match parse_mouse(bytes@.skip(pos as int)) {
                Some((n, v)) => r matches Some((m, w)) && m == n && w == v,
                None => r is None,
            },
    {
        proof {
            reveal(parse_mouse);
        }
        let t = match decode_u32(bytes, pos) {
            Some(t) => t,
            None => return None,
        };
        let avail = bytes.len() - pos;
        if t == 0 {
            if avail < 28 {
                return None;
            }
            let x = decode_u64(bytes, pos + 4).unwrap();
            let y = decode_u64(bytes, pos + 12).unwrap();
            let width = decode_u32(bytes, pos + 20).unwrap();
            let height = decode_u32(bytes, pos + 24).unwrap();
            Some((28, MouseEvent::MotionAbsolute { x, y, width, height }))
        } else if t == 1 || t == 3 {
            if avail < 20 {
                return None;
            }
            let a = decode_u64(bytes, pos + 4).unwrap();
            let b = decode_u64(bytes, pos + 12).unwrap();
            if t == 1 {
                Some((20, MouseEvent::MotionRelative { dx: a, dy: b }))
            } else {
                Some((20, MouseEvent::AxisScroll { horizontal: a, vertical: b }))
            }
        } else if t == 2 {
            let (n1, button) = match MouseButton::decode_at(bytes, pos + 4) {
                Some(v) => v,
                None => return None,
            };
            let (n2, state) = match KeyAction::decode_at(bytes, pos + 4 + n1) {
                Some(v) => v,
                None => return None,
            };
            Some((4 + n1 + n2, MouseEvent::Button { button, state }))
        } else {
            None
        }
    }
}

impl InputEvent {
    /// Appends the wire form of the event.
    pub fn encode_into(&self, buf: &mut Vec<u8>)
        ensures
            final(buf)@ == old(buf)@ + wire_input(self@),
    {
        match self {
            InputEvent::Mouse(m) => {
                append_u32(buf, 0);
                m.encode_into(buf);
            },
            InputEvent::Keyboard { keycode, action, modifiers } => {
                append_u32(buf, 1);
                append_u32(buf, *keycode);
                action.encode_into(buf);
                append_u32(buf, *modifiers);
            },
            InputEvent::ClipboardText(text) => {
                append_u32(buf, 2);
                append_str(buf, text.as_str());
            },
            InputEvent::KeepAlive => {
                append_u32(buf, 3);
            },
        }
    }

    /// Reads an event at `pos`; the result also gives the number of bytes taken.
    pub fn decode_at(bytes: &[u8], pos: usize) -> (r: Option<(usize, InputEvent)>)
        requires
            pos <= bytes@.len(),
        ensures
            r matches Some((m, _)) ==> pos + m <= bytes@.len(),
            match parse_input(bytes@.skip(pos as int)) {
                Some((n, v)) => r matches Some((m, e)) && m == n && e@ == v,
                None => r is None,
            },
    {
        proof {
            reveal(parse_input);
        }
        let t = match decode_u32(bytes, pos) {
            Some(t) => t,
            None => return None,
        };
        let avail = bytes.len() - pos;
        if t == 0 {
            match MouseEvent::decode_at(bytes, pos + 4) {
                Some((n, m)) => Some((4 + n, InputEvent::Mouse(m))),
                None => None,
            }
        } else if t == 1 {
            if avail < 16 {
                return None;
            }
            let keycode = decode_u32(bytes, pos + 4).unwrap();
            let tag = decode_u32(bytes, pos + 8).unwrap();
            let modifiers = decode_u32(bytes, pos + 12).unwrap();
            match KeyAction::from_wire_tag(tag) {
                Some(action) => Some((16, InputEvent::Keyboard { keycode, action, modifiers })),
                None => None,
            }
        } else if t == 2 {
            match read_string(bytes, pos + 4) {
                Some((n, text)) => Some((4 + n, InputEvent::ClipboardText(text))),
                None => None,
            }
        } else if t == 3 {
            Some((4, InputEvent::KeepAlive))
        } else {
            None
        }
    }
}

// ----------------------------------------------------------------------------
// The variant numbers, as the wire carries them.
// ----------------------------------------------------------------------------
/// A key action travels as the position of its variant in the declaration
/// `Press, Release, Repeat`, counted from 0, as a little-endian `u32`; and
/// each of those numbers, and no other, reads back as that action.
pub proof fn law_key_action_numbers(a: KeyAction, t: u32)
    ensures
        wire_key_action(a) == le32(
            match a {
                KeyAction::Press => 0u32,
                KeyAction::Release => 1u32,
                KeyAction::Repeat => 2u32,
            },
        ),
        key_action_of_tag(t) is Some <==> t < 3,
        key_action_of_tag(t) matches Some(b) ==> key_action_tag(b) == t,
{
}

/// A mouse button travels as the position of its variant in the declaration
/// `Left, Middle, Right, Back, Forward, Other`, counted from 0, as a
/// little-endian `u32`; `Other` is followed by its raw button number. The
/// numbers below 5 read back as the button of that position.
pub proof fn law_button_numbers(bt: MouseButton, t: u32)
    ensures
        wire_button(bt) == match bt {
            MouseButton::Left => le32(0),
            MouseButton::Middle => le32(1),
            MouseButton::Right => le32(2),
            MouseButton::Back => le32(3),
            MouseButton::Forward => le32(4),
            MouseButton::Other(c) => le32(5) + seq![c],
        },
        t < 5 ==> button_tag(button_of_tag(t)) == t && !(button_of_tag(t) is Other),
{
}

/// A mouse event starts with the position of its variant in the declaration
/// `MotionAbsolute, MotionRelative, Button, AxisScroll`, counted from 0, as a
/// little-endian `u32`.
pub proof fn law_mouse_numbers(m: MouseEvent)
    ensures
        wire_mouse(m).take(4) == le32(
            match m {
                MouseEvent::MotionAbsolute { .. } => 0u32,
                MouseEvent::MotionRelative { .. } => 1u32,
                MouseEvent::Button { .. } => 2u32,
                MouseEvent::AxisScroll { .. } => 3u32,
            },
        ),
{
    let n: u32 = match m {
        MouseEvent::MotionAbsolute { .. } => 0u32,
        MouseEvent::MotionRelative { .. } => 1u32,
        MouseEvent::Button { .. } => 2u32,
        MouseEvent::AxisScroll { .. } => 3u32,
    };
    assert(wire_mouse(m) =~= le32(n) + wire_mouse(m).skip(4));
    assert(wire_mouse(m).take(4) =~= le32(n));
}

/// An input event starts with the position of its variant in the declaration
/// `Mouse, Keyboard, ClipboardText, KeepAlive`, counted from 0, as a
/// little-endian `u32`.
pub proof fn law_input_numbers(e: InputEventView)
    ensures
        wire_input(e).take(4) == le32(
            match e {
                InputEventView::Mouse(_) => 0u32,
                InputEventView::Keyboard { .. } => 1u32,
                InputEventView::ClipboardText(_) => 2u32,
                InputEventView::KeepAlive => 3u32,
            },
        ),
{
    let n: u32 = match e {
        InputEventView::Mouse(_) => 0u32,
        InputEventView::Keyboard { .. } => 1u32,
        InputEventView::ClipboardText(_) => 2u32,
        InputEventView::KeepAlive => 3u32,
    };
    assert(wire_input(e) =~= le32(n) + wire_input(e).skip(4));
    assert(wire_input(e).take(4) =~= le32(n));
}

} // verus!
