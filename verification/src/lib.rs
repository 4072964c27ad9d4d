//! Platform-independent game-controller model.
//!
//! Heterogeneous controller input streams are normalized into one model: a
//! closed set of canonical digital buttons and fixed-point analog axes,
//! sampled once per caller-driven update.  The crate derives a stable device
//! identifier from hardware descriptors, resolves a community-style mapping
//! database against it, and reconciles the three backend delivery models
//! (edge-triggered event queues, level-triggered snapshots and
//! sequence-numbered snapshots) into one edge-detectable per-slot state.
//! The OS calls that obtain the raw reports live outside this crate; they
//! hand plain values in and take plain values back.
use vstd::prelude::*;

pub mod analog;
pub mod guid;
pub mod hid;
pub mod io_kit;
pub mod ioctl;
pub mod mapping;
pub mod runtime;
pub mod text;
pub mod xinput;

verus! {

/// Number of controller slots the runtime tracks.
pub const MAX_DEVICES: usize = 8;

/// Length of the per-slot digital state arrays (one entry per canonical button).
pub const MAX_DIGITAL: usize = 16;

/// Length of the per-slot analog state array.
pub const MAX_ANALOG: usize = 8;

/// One of the fixed logical buttons shared across all platforms.
#[derive(Debug, Clone, Copy, PartialEq, Eq, Hash, Structural)]
pub enum GamepadButton {
    /// Also Cross
    A,
    /// Also Circle
    B,
    /// Also Square
    X,
    /// Also Triangle
    Y,
    DpadUp,
    DpadDown,
    DpadRight,
    DpadLeft,
    BumperLeft,
    BumperRight,
    ThumbLeft,
    ThumbRight,
    Select,
    Start,
    Back,
    Unknown,
    /// Marker for the size of the digital state arrays; never reported.
    Max,
}

impl GamepadButton {
    /// Position of the button in the digital state arrays.
    pub open spec fn spec_index(self) -> int {
        match self {
            GamepadButton::A => 0,
            GamepadButton::B => 1,
            GamepadButton::X => 2,
            GamepadButton::Y => 3,
            GamepadButton::DpadUp => 4,
            GamepadButton::DpadDown => 5,
            GamepadButton::DpadRight => 6,
            GamepadButton::DpadLeft => 7,
            GamepadButton::BumperLeft => 8,
            GamepadButton::BumperRight => 9,
            GamepadButton::ThumbLeft => 10,
            GamepadButton::ThumbRight => 11,
            GamepadButton::Select => 12,
            GamepadButton::Start => 13,
            GamepadButton::Back => 14,
            GamepadButton::Unknown => 15,
            GamepadButton::Max => 16,
        }
    }

    /// Position of the button in the digital state arrays.
    pub fn index(self) -> (r: usize)
        ensures
            r == self.spec_index(),
            self != GamepadButton::Max ==> r < MAX_DIGITAL,
    {
        match self {
            GamepadButton::A => 0,
            GamepadButton::B => 1,
            GamepadButton::X => 2,
            GamepadButton::Y => 3,
            GamepadButton::DpadUp => 4,
            GamepadButton::DpadDown => 5,
            GamepadButton::DpadRight => 6,
            GamepadButton::DpadLeft => 7,
            GamepadButton::BumperLeft => 8,
            GamepadButton::BumperRight => 9,
            GamepadButton::ThumbLeft => 10,
            GamepadButton::ThumbRight => 11,
            GamepadButton::Select => 12,
            GamepadButton::Start => 13,
            GamepadButton::Back => 14,
            GamepadButton::Unknown => 15,
            GamepadButton::Max => 16,
        }
    }
}

/// Connection status of one controller slot.
#[derive(Debug, Clone, Copy, PartialEq, Eq, Structural)]
pub enum ControllerStatus {
    Disconnected,
    Connected,
}

/// Immutable-per-connection description of one controller.
///
/// `buttons` holds one canonical button per raw digital input, in raw-index
/// order; `analog_count` is the number of analog axes the device reports.
#[derive(Debug, Clone)]
pub struct ControllerInfo {
    pub name: Vec<u8>,
    pub buttons: Vec<GamepadButton>,
    pub analog_count: usize,
}

impl ControllerInfo {
    /// The neutral value reported for slots that never connected: the
    /// placeholder name, no buttons, no axes.
    pub fn new() -> (r: Self)
        ensures
            r.name@ == seq![110u8, 117u8, 108u8, 108u8],
            r.buttons@ == Seq::<GamepadButton>::empty(),
            r.analog_count == 0,
    {
        let mut name: Vec<u8> = Vec::new();
        name.push(110);  // 'n'
        name.push(117);  // 'u'
        name.push(108);  // 'l'
        name.push(108);  // 'l'
        let r = ControllerInfo { name, buttons: Vec::new(), analog_count: 0 };
        proof {
            assert(r.name@ =~= seq![110u8, 117u8, 108u8, 108u8]);
            assert(r.buttons@ =~= Seq::<GamepadButton>::empty());
        }
        r
    }

    /// Whether this is the neutral info value of a slot that never
    /// connected.
    pub open spec fn is_neutral(self) -> bool {
        &&& self.name@ == seq![110u8, 117u8, 108u8, 108u8]
        &&& self.buttons@ == Seq::<GamepadButton>::empty()
        &&& self.analog_count == 0
    }
}

/// The mathematical model of a [`ControllerState`].
#[verifier::ext_equal]
pub struct StateModel {
    pub status: ControllerStatus,
    pub sequence: int,
    pub digital_prev: Seq<bool>,
    pub digital: Seq<bool>,
    pub analog: Seq<i32>,
}

/// Mutable per-slot controller state.
///
/// `digital_state` and `digital_state_prev` always hold [`MAX_DIGITAL`]
/// entries, one per canonical button position; `analog_state` always holds
/// [`MAX_ANALOG`] fixed-point axis values (see [`analog`]).
/// `digital_state_prev` is the previous frame's `digital_state`, which
/// makes edge detection a comparison of the two.
#[derive(Debug, Clone)]
pub struct ControllerState {
    pub status: ControllerStatus,
    pub sequence: usize,
    pub digital_state_prev: Vec<bool>,
    pub digital_state: Vec<bool>,
    pub analog_state: Vec<i32>,
}

impl View for ControllerState {
    type V = StateModel;

    open spec fn view(&self) -> StateModel {
        StateModel {
            status: self.status,
            sequence: self.sequence as int,
            digital_prev: self.digital_state_prev@,
            digital: self.digital_state@,
            analog: self.analog_state@,
        }
    }
}

impl StateModel {
    /// The state arrays have their fixed lengths and every analog value is
    /// a valid fixed-point axis value.
    pub open spec fn wf(self) -> bool {
        &&& self.digital.len() == MAX_DIGITAL
        &&& self.digital_prev.len() == MAX_DIGITAL
        &&& self.analog.len() == MAX_ANALOG
        &&& forall|j: int| 0 <= j < self.analog.len()
            ==> -32768 <= #[trigger] self.analog[j] <= 32768
    }

    /// The defined neutral value: disconnected, sequence zero, nothing
    /// pressed now or before, all axes centered.
    pub open spec fn is_neutral(self) -> bool {
        &&& self.status == ControllerStatus::Disconnected
        &&& self.sequence == 0
        &&& self.digital =~= Seq::new(MAX_DIGITAL as nat, |i: int| false)
        &&& self.digital_prev =~= Seq::new(MAX_DIGITAL as nat, |i: int| false)
        &&& self.analog =~= Seq::new(MAX_ANALOG as nat, |i: int| 0i32)
    }

    /// Whether the button at position `i` went from released to pressed
    /// between the previous frame and this one.
    pub open spec fn spec_just_pressed(self, i: int) -> bool {
        self.digital[i] && !self.digital_prev[i]
    }
}

impl ControllerState {
    /// The neutral state: disconnected, nothing pressed, axes centered.
    pub fn new() -> (r: Self)
        ensures
            r@.wf(),
            r@.is_neutral(),
    {
        let mut digital: Vec<bool> = Vec::new();
        let mut i: usize = 0;
        while i < MAX_DIGITAL
            invariant
                i <= MAX_DIGITAL,
                digital@.len() == i,
                forall|j: int| 0 <= j < i ==> !(#[trigger] digital@[j]),
            decreases MAX_DIGITAL - i,
        {
            digital.push(false);
            i = i + 1;
        }
        let mut prev: Vec<bool> = Vec::new();
        let mut p: usize = 0;
        while p < MAX_DIGITAL
            invariant
                p <= MAX_DIGITAL,
                prev@.len() == p,
                forall|j: int| 0 <= j < p ==> !(#[trigger] prev@[j]),
            decreases MAX_DIGITAL - p,
        {
            prev.push(false);
            p = p + 1;
        }
        let mut analog: Vec<i32> = Vec::new();
        let mut k: usize = 0;
        while k < MAX_ANALOG
            invariant
                k <= MAX_ANALOG,
                analog@.len() == k,
                forall|j: int| 0 <= j < k ==> #[trigger] analog@[j] == 0i32,
            decreases MAX_ANALOG - k,
        {
            analog.push(0);
            k = k + 1;
        }
        let r = ControllerState {
            status: ControllerStatus::Disconnected,
            sequence: 0,
            digital_state_prev: prev,
            digital_state: digital,
            analog_state: analog,
        };
        proof {
            assert(r@.digital =~= Seq::new(MAX_DIGITAL as nat, |i: int| false));
            assert(r@.digital_prev =~= Seq::new(MAX_DIGITAL as nat, |i: int| false));
            assert(r@.analog =~= Seq::new(MAX_ANALOG as nat, |i: int| 0i32));
        }
        r
    }

    /// Whether the given button went from released to pressed between the
    /// previous frame and this one.
    pub fn just_pressed(&self, button: GamepadButton) -> (r: bool)
        requires
            self@.wf(),
            button != GamepadButton::Max,
        ensures
            r == self@.spec_just_pressed(button.spec_index()),
    {
        let i = button.index();
        self.digital_state[i] && !self.digital_state_prev[i]
    }
}

} // verus!
