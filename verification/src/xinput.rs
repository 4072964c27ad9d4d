//! The sequence-numbered snapshot backend's capability and report
//! decoding: which canonical buttons a reported capability mask offers,
//! the device's display name by subtype, and the fixed-point normalization
//! of the stick axes.
//!
//! The calls that fetch capabilities and state snapshots are I/O and live
//! outside the crate; this module turns their plain values into the
//! runtime's model.
use vstd::prelude::*;

verus! {

use vstd::arithmetic::div_mod::lemma_div_is_ordered;
use vstd::arithmetic::div_mod::lemma_div_multiples_vanish;

use crate::ControllerInfo;
use crate::GamepadButton;

pub const XINPUT_GAMEPAD_DPAD_UP: u16 = 0x0001;

pub const XINPUT_GAMEPAD_DPAD_DOWN: u16 = 0x0002;

pub const XINPUT_GAMEPAD_DPAD_LEFT: u16 = 0x0004;

pub const XINPUT_GAMEPAD_DPAD_RIGHT: u16 = 0x0008;

pub const XINPUT_GAMEPAD_START: u16 = 0x0010;

pub const XINPUT_GAMEPAD_BACK: u16 = 0x0020;

pub const XINPUT_GAMEPAD_LEFT_THUMB: u16 = 0x0040;

pub const XINPUT_GAMEPAD_RIGHT_THUMB: u16 = 0x0080;

pub const XINPUT_GAMEPAD_LEFT_SHOULDER: u16 = 0x0100;

pub const XINPUT_GAMEPAD_RIGHT_SHOULDER: u16 = 0x0200;

pub const XINPUT_GAMEPAD_A: u16 = 0x1000;

pub const XINPUT_GAMEPAD_B: u16 = 0x2000;

pub const XINPUT_GAMEPAD_X: u16 = 0x4000;

pub const XINPUT_GAMEPAD_Y: u16 = 0x8000;

pub const XINPUT_DEVSUBTYPE_GAMEPAD: u8 = 0x01;

pub const XINPUT_DEVSUBTYPE_WHEEL: u8 = 0x02;

pub const XINPUT_DEVSUBTYPE_ARCADE_STICK: u8 = 0x03;

pub const XINPUT_DEVSUBTYPE_FLIGHT_SICK: u8 = 0x04;

pub const XINPUT_DEVSUBTYPE_DANCE_PAD: u8 = 0x05;

pub const XINPUT_DEVSUBTYPE_GUITAR: u8 = 0x06;

pub const XINPUT_DEVSUBTYPE_DRUM_KIT: u8 = 0x08;

/// What the snapshot backend reports a device can do.
#[derive(Debug, Clone, Copy, PartialEq, Eq, Structural)]
pub struct XInputCapabilities {
    pub sub_type: u8,
    pub w_buttons: u16,
    pub left_trigger: u8,
    pub right_trigger: u8,
    pub thumb_lx: i16,
    pub thumb_ly: i16,
    pub thumb_rx: i16,
    pub thumb_ry: i16,
}

/// One full state snapshot with its packet sequence.
#[derive(Debug, Clone, Copy, PartialEq, Eq, Structural)]
pub struct XInputState {
    pub packet: usize,
    pub w_buttons: u16,
    pub left_trigger: u8,
    pub right_trigger: u8,
    pub thumb_lx: i16,
    pub thumb_ly: i16,
    pub thumb_rx: i16,
    pub thumb_ry: i16,
}

/// The display-name suffix a device subtype carries.
pub open spec fn spec_subtype_suffix(sub_type: u8) -> Seq<u8> {
    if sub_type == XINPUT_DEVSUBTYPE_GAMEPAD {
        seq![32u8, 103u8, 97u8, 109u8, 101u8, 112u8, 97u8, 100u8]  // " gamepad"
    } else if sub_type == XINPUT_DEVSUBTYPE_WHEEL {
        seq![32u8, 119u8, 104u8, 101u8, 101u8, 108u8]  // " wheel"
    } else if sub_type == XINPUT_DEVSUBTYPE_ARCADE_STICK {
        seq![32u8, 97u8, 114u8, 99u8, 97u8, 100u8, 101u8, 32u8, 115u8, 116u8, 105u8, 99u8, 107u8]  // " arcade stick"
    } else if sub_type == XINPUT_DEVSUBTYPE_FLIGHT_SICK {
        seq![32u8, 102u8, 108u8, 105u8, 103u8, 104u8, 116u8, 32u8, 115u8, 116u8, 105u8, 99u8, 107u8]  // " flight stick"
    } else if sub_type == XINPUT_DEVSUBTYPE_DANCE_PAD {
        seq![32u8, 100u8, 97u8, 110u8, 99u8, 101u8, 32u8, 112u8, 97u8, 100u8]  // " dance pad"
    } else if sub_type == XINPUT_DEVSUBTYPE_GUITAR {
        seq![32u8, 103u8, 117u8, 105u8, 116u8, 97u8, 114u8]  // " guitar"
    } else if sub_type == XINPUT_DEVSUBTYPE_DRUM_KIT {
        seq![32u8, 100u8, 114u8, 117u8, 109u8]  // " drum"
    } else {
        Seq::<u8>::empty()
    }
}

/// The display name of a snapshot-backend device by its subtype.
pub open spec fn spec_capability_name(sub_type: u8) -> Seq<u8> {
    seq![88u8, 66u8, 79u8, 88u8, 51u8, 54u8, 48u8]  // "XBOX360"
        + spec_subtype_suffix(sub_type)
        + seq![32u8, 99u8, 111u8, 110u8, 116u8, 114u8, 111u8, 108u8, 108u8, 101u8, 114u8]  // " controller"
}

/// Build the display name of a device from its subtype.
pub fn capability_name(sub_type: u8) -> (r: Vec<u8>)
    ensures
        r@ == spec_capability_name(sub_type),
{
    let mut name: Vec<u8> = Vec::new();
    name.push(88);  // 'X'
    name.push(66);  // 'B'
    name.push(79);  // 'O'
    name.push(88);  // 'X'
    name.push(51);  // '3'
    name.push(54);  // '6'
    name.push(48);  // '0'
    if sub_type == XINPUT_DEVSUBTYPE_GAMEPAD {
        name.push(32);  // ' '
        name.push(103);  // 'g'
        name.push(97);  // 'a'
        name.push(109);  // 'm'
        name.push(101);  // 'e'
        name.push(112);  // 'p'
        name.push(97);  // 'a'
        name.push(100);  // 'd'
    } else if sub_type == XINPUT_DEVSUBTYPE_WHEEL {
        name.push(32);  // ' '
        name.push(119);  // 'w'
        name.push(104);  // 'h'
        name.push(101);  // 'e'
        name.push(101);  // 'e'
        name.push(108);  // 'l'
    } else if sub_type == XINPUT_DEVSUBTYPE_ARCADE_STICK {
        name.push(32);  // ' '
        name.push(97);  // 'a'
        name.push(114);  // 'r'
        name.push(99);  // 'c'
        name.push(97);  // 'a'
        name.push(100);  // 'd'
        name.push(101);  // 'e'
        name.push(32);  // ' '
        name.push(115);  // 's'
        name.push(116);  // 't'
        name.push(105);  // 'i'
        name.push(99);  // 'c'
        name.push(107);  // 'k'
    } else if sub_type == XINPUT_DEVSUBTYPE_FLIGHT_SICK {
        name.push(32);  // ' '
        name.push(102);  // 'f'
        name.push(108);  // 'l'
        name.push(105);  // 'i'
        name.push(103);  // 'g'
        name.push(104);  // 'h'
        name.push(116);  // 't'
        name.push(32);  // ' '
        name.push(115);  // 's'
        name.push(116);  // 't'
        name.push(105);  // 'i'
        name.push(99);  // 'c'
        name.push(107);  // 'k'
    } else if sub_type == XINPUT_DEVSUBTYPE_DANCE_PAD {
        name.push(32);  // ' '
        name.push(100);  // 'd'
        name.push(97);  // 'a'
        name.push(110);  // 'n'
        name.push(99);  // 'c'
        name.push(101);  // 'e'
        name.push(32);  // ' '
        name.push(112);  // 'p'
        name.push(97);  // 'a'
        name.push(100);  // 'd'
    } else if sub_type == XINPUT_DEVSUBTYPE_GUITAR {
        name.push(32);  // ' '
        name.push(103);  // 'g'
        name.push(117);  // 'u'
        name.push(105);  // 'i'
        name.push(116);  // 't'
        name.push(97);  // 'a'
        name.push(114);  // 'r'
    } else if sub_type == XINPUT_DEVSUBTYPE_DRUM_KIT {
        name.push(32);  // ' '
        name.push(100);  // 'd'
        name.push(114);  // 'r'
        name.push(117);  // 'u'
        name.push(109);  // 'm'
    } else {
    }
    name.push(32);  // ' '
    name.push(99);  // 'c'
    name.push(111);  // 'o'
    name.push(110);  // 'n'
    name.push(116);  // 't'
    name.push(114);  // 'r'
    name.push(111);  // 'o'
    name.push(108);  // 'l'
    name.push(108);  // 'l'
    name.push(101);  // 'e'
    name.push(114);  // 'r'
    proof {
        assert(name@ =~= spec_capability_name(sub_type));
    }
    name
}

/// The fixed order in which a capability mask is probed for buttons,
/// each with its mask bit.
pub open spec fn spec_probe_order() -> Seq<(u16, GamepadButton)> {
    seq![
        (XINPUT_GAMEPAD_A, GamepadButton::A),
        (XINPUT_GAMEPAD_B, GamepadButton::B),
        (XINPUT_GAMEPAD_X, GamepadButton::X),
        (XINPUT_GAMEPAD_Y, GamepadButton::Y),
        (XINPUT_GAMEPAD_START, GamepadButton::Start),
        (XINPUT_GAMEPAD_BACK, GamepadButton::Back),
        (XINPUT_GAMEPAD_LEFT_THUMB, GamepadButton::ThumbLeft),
        (XINPUT_GAMEPAD_RIGHT_THUMB, GamepadButton::ThumbRight),
        (XINPUT_GAMEPAD_LEFT_SHOULDER, GamepadButton::BumperLeft),
        (XINPUT_GAMEPAD_RIGHT_SHOULDER, GamepadButton::BumperRight),
    ]
}

/// The probe-order entries a capability mask offers, in order.
pub open spec fn spec_offered(order: Seq<(u16, GamepadButton)>, w_buttons: u16)
    -> Seq<(u16, GamepadButton)>
    decreases order.len(),
{
    if order.len() == 0 {
        Seq::empty()
    } else {
        spec_offered(order.drop_last(), w_buttons) + if order.last().0 & w_buttons != 0 {
            seq![order.last()]
        } else {
            Seq::<(u16, GamepadButton)>::empty()
        }
    }
}

/// The canonical buttons a capability mask offers, in the fixed probe
/// order.
pub open spec fn spec_capability_buttons(w_buttons: u16) -> Seq<GamepadButton> {
    spec_offered(spec_probe_order(), w_buttons).map_values(|p: (u16, GamepadButton)| p.1)
}

/// The mask bit of each offered button, in the same order.
pub open spec fn spec_capability_masks(w_buttons: u16) -> Seq<u16> {
    spec_offered(spec_probe_order(), w_buttons).map_values(|p: (u16, GamepadButton)| p.0)
}

/// The probe order as a value.
fn probe_order() -> (r: Vec<(u16, GamepadButton)>)
    ensures
        r@ == spec_probe_order(),
{
    let mut out: Vec<(u16, GamepadButton)> = Vec::new();
    out.push((XINPUT_GAMEPAD_A, GamepadButton::A));
    out.push((XINPUT_GAMEPAD_B, GamepadButton::B));
    out.push((XINPUT_GAMEPAD_X, GamepadButton::X));
    out.push((XINPUT_GAMEPAD_Y, GamepadButton::Y));
    out.push((XINPUT_GAMEPAD_START, GamepadButton::Start));
    out.push((XINPUT_GAMEPAD_BACK, GamepadButton::Back));
    out.push((XINPUT_GAMEPAD_LEFT_THUMB, GamepadButton::ThumbLeft));
    out.push((XINPUT_GAMEPAD_RIGHT_THUMB, GamepadButton::ThumbRight));
    out.push((XINPUT_GAMEPAD_LEFT_SHOULDER, GamepadButton::BumperLeft));
    out.push((XINPUT_GAMEPAD_RIGHT_SHOULDER, GamepadButton::BumperRight));
    proof {
        assert(out@ =~= spec_probe_order());
    }
    out
}

/// Decode a capability mask into the offered canonical buttons and, in
/// step, the mask bit of each.
pub fn capability_buttons(w_buttons: u16) -> (r: (Vec<GamepadButton>, Vec<u16>))
    ensures
        r.0@ == spec_capability_buttons(w_buttons),
        r.1@ == spec_capability_masks(w_buttons),
        r.0@.len() == r.1@.len(),
{
    let order = probe_order();
    let mut buttons: Vec<GamepadButton> = Vec::new();
    let mut masks: Vec<u16> = Vec::new();
    let mut k: usize = 0;
    proof {
        assert(order@.subrange(0, 0) =~= Seq::<(u16, GamepadButton)>::empty());
        assert(buttons@ =~= spec_offered(order@.subrange(0, 0), w_buttons)
            .map_values(|p: (u16, GamepadButton)| p.1));
        assert(masks@ =~= spec_offered(order@.subrange(0, 0), w_buttons)
            .map_values(|p: (u16, GamepadButton)| p.0));
    }
    while k < order.len()
        invariant
            k <= order@.len(),
            order@ == spec_probe_order(),
            buttons@ == spec_offered(order@.subrange(0, k as int), w_buttons)
                .map_values(|p: (u16, GamepadButton)| p.1),
            masks@ == spec_offered(order@.subrange(0, k as int), w_buttons)
                .map_values(|p: (u16, GamepadButton)| p.0),
        decreases order@.len() - k,
    {
        proof {
            assert(order@.subrange(0, k + 1).drop_last() =~= order@.subrange(0, k as int));
            assert(order@.subrange(0, k + 1).last() == order@[k as int]);
        }
        let entry = order[k];
        if entry.0 & w_buttons != 0 {
            buttons.push(entry.1);
            masks.push(entry.0);
        }
        proof {
            assert(buttons@ =~= spec_offered(order@.subrange(0, k + 1), w_buttons)
                .map_values(|p: (u16, GamepadButton)| p.1));
            assert(masks@ =~= spec_offered(order@.subrange(0, k + 1), w_buttons)
                .map_values(|p: (u16, GamepadButton)| p.0));
        }
        k = k + 1;
    }
    proof {
        assert(order@.subrange(0, order@.len() as int) =~= order@);
    }
    (buttons, masks)
}

/// How many analog channels a capability report offers: one per nonzero
/// trigger or stick capability field.
pub fn capability_analog_count(caps: &XInputCapabilities) -> (r: usize)
    ensures
        r == (if caps.left_trigger != 0 { 1int } else { 0int })
            + (if caps.right_trigger != 0 { 1int } else { 0int })
            + (if caps.thumb_lx != 0 { 1int } else { 0int })
            + (if caps.thumb_ly != 0 { 1int } else { 0int })
            + (if caps.thumb_rx != 0 { 1int } else { 0int })
            + (if caps.thumb_ry != 0 { 1int } else { 0int }),
{
    let mut n: usize = 0;
    if caps.left_trigger != 0 {
        n = n + 1;
    }
    if caps.right_trigger != 0 {
        n = n + 1;
    }
    if caps.thumb_lx != 0 {
        n = n + 1;
    }
    if caps.thumb_ly != 0 {
        n = n + 1;
    }
    if caps.thumb_rx != 0 {
        n = n + 1;
    }
    if caps.thumb_ry != 0 {
        n = n + 1;
    }
    n
}

/// The immutable-per-connection info a capability report denotes: the
/// subtype's display name, the offered buttons, and the analog channel
/// count.
pub fn capability_info(caps: &XInputCapabilities) -> (r: ControllerInfo)
    ensures
        r.name@ == spec_capability_name(caps.sub_type),
        r.buttons@ == spec_capability_buttons(caps.w_buttons),
        r.analog_count == (if caps.left_trigger != 0 { 1int } else { 0int })
            + (if caps.right_trigger != 0 { 1int } else { 0int })
            + (if caps.thumb_lx != 0 { 1int } else { 0int })
            + (if caps.thumb_ly != 0 { 1int } else { 0int })
            + (if caps.thumb_rx != 0 { 1int } else { 0int })
            + (if caps.thumb_ry != 0 { 1int } else { 0int }),
{
    let name = capability_name(caps.sub_type);
    let (buttons, _masks) = capability_buttons(caps.w_buttons);
    let analog_count = capability_analog_count(caps);
    ControllerInfo { name, buttons, analog_count }
}

/// The fixed-point value one 16-bit stick sample normalizes to: its
/// position in the signed 16-bit range rescaled onto the axis scale.
pub open spec fn spec_thumb_axis(v: int) -> int {
    (v + 32768) * 65536 / 65535 - 32768
}

/// Normalize one 16-bit stick sample.
pub fn thumb_axis(v: i16) -> (r: i32)
    ensures
        r == spec_thumb_axis(v as int),
        -32768 <= r <= 32768,
{
    let offset: u64 = ((v as i64) + 32768) as u64;
    let q: u64 = offset * 65536 / 65535;
    proof {
        lemma_thumb_bounds(offset as int);
    }
    ((q as i64) - 32768) as i32
}

/// The stick rescaling quotient stays within one full scale.
proof fn lemma_thumb_bounds(offset: int)
    requires
        0 <= offset <= 65535,
    ensures
        0 <= offset * 65536 / 65535 <= 65536,
{
    lemma_div_is_ordered(0, offset * 65536, 65535);
    assert(offset * 65536 <= 65535int * 65536) by (nonlinear_arith)
        requires offset <= 65535;
    lemma_div_is_ordered(offset * 65536, 65535int * 65536, 65535);
    lemma_div_multiples_vanish(65536, 65535);
    assert(65535int * 65536 == 65536int * 65535) by (nonlinear_arith);
}

/// Sample each offered button out of a snapshot's button mask, in the
/// capability order.
pub fn snapshot_digital(masks: &Vec<u16>, w_buttons: u16) -> (r: Vec<bool>)
    ensures
        r@.len() == masks@.len(),
        forall|k: int| 0 <= k < r@.len() ==> #[trigger] r@[k] == ((masks@[k] & w_buttons) != 0),
{
    let mut out: Vec<bool> = Vec::new();
    let mut k: usize = 0;
    while k < masks.len()
        invariant
            k <= masks@.len(),
            out@.len() == k,
            forall|j: int| 0 <= j < k ==> #[trigger] out@[j] == ((masks@[j] & w_buttons) != 0),
        decreases masks@.len() - k,
    {
        out.push(masks[k] & w_buttons != 0);
        k = k + 1;
    }
    out
}

/// The four stick axes of one snapshot, normalized, in the fixed analog
/// order.
pub fn snapshot_analog(state: &XInputState) -> (r: Vec<i32>)
    ensures
        r@ == seq![
            spec_thumb_axis(state.thumb_lx as int) as i32,
            spec_thumb_axis(state.thumb_ly as int) as i32,
            spec_thumb_axis(state.thumb_rx as int) as i32,
            spec_thumb_axis(state.thumb_ry as int) as i32,
        ],
{
    let mut out: Vec<i32> = Vec::new();
    out.push(thumb_axis(state.thumb_lx));
    out.push(thumb_axis(state.thumb_ly));
    out.push(thumb_axis(state.thumb_rx));
    out.push(thumb_axis(state.thumb_ry));
    proof {
        assert(out@ =~= seq![
            spec_thumb_axis(state.thumb_lx as int) as i32,
            spec_thumb_axis(state.thumb_ly as int) as i32,
            spec_thumb_axis(state.thumb_rx as int) as i32,
            spec_thumb_axis(state.thumb_ry as int) as i32,
        ]);
    }
    out
}

} // verus!
