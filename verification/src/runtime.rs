//! The controller runtime: fixed per-slot state, mapping application,
//! normalization and edge detection.
//!
//! The runtime owns [`MAX_DEVICES`] slots.  A backend driver (outside this
//! crate) enumerates devices and hands the runtime plain values: a
//! [`DeviceDescriptor`] on connection, and per frame either a queue of
//! [`RawEvent`]s, a level-triggered snapshot, or a sequence-numbered
//! snapshot.  The runtime reconciles all three delivery models into one
//! edge-detectable current/previous state per slot.  Its accessors are
//! total: out-of-range or never-connected slots read as the defined
//! neutral value, never an error.
use vstd::prelude::*;

verus! {

use crate::ControllerInfo;
use crate::ControllerState;
use crate::ControllerStatus;
use crate::GamepadButton;
use crate::MAX_ANALOG;
use crate::MAX_DEVICES;
use crate::MAX_DIGITAL;
use crate::StateModel;
use crate::analog::normalize;
use crate::analog::spec_normalize;
use crate::guid::derive_guid;
use crate::guid::guid_of;
use crate::mapping::MAX_BTNS;
use crate::mapping::Mapping;
use crate::mapping::MappingModel;
use crate::mapping::MappingsMap;
use crate::mapping::default_buttons;
use crate::mapping::resolve;
use crate::mapping::spec_resolve;

/// One analog axis as the backend reports it at capability time: its raw
/// index, its native reporting range, and whether it is a hat-switch
/// channel (whose samples are pre-scaled small integers and pass through
/// unscaled).
#[derive(Debug, Clone, Copy, PartialEq, Eq, Structural)]
pub struct AxisInfo {
    pub raw_index: usize,
    pub minimum: i32,
    pub maximum: i32,
    pub hat: bool,
}

/// What a backend reports about one enumerated device: identity bytes for
/// the GUID, the device name, the ordered raw digital indices present, and
/// the ordered analog axes present.
#[derive(Debug, Clone)]
pub struct DeviceDescriptor {
    pub bus: u16,
    pub vendor: u16,
    pub product: u16,
    pub version: u16,
    pub name: Vec<u8>,
    pub digital_indices: Vec<usize>,
    pub analog_axes: Vec<AxisInfo>,
}

/// One raw report from a queue-delivery backend.
#[derive(Debug, Clone, Copy, PartialEq, Eq, Structural)]
pub enum RawEvent {
    Digital { raw_index: usize, pressed: bool },
    Analog { raw_index: usize, value: i32 },
    Disconnected,
}

/// The canonical button a raw digital index translates to: the first
/// matching entry of the slot's translation table, if any.
pub open spec fn spec_find_button(table: Seq<(usize, GamepadButton)>, raw: usize)
    -> Option<GamepadButton>
    decreases table.len(),
{
    if table.len() == 0 {
        None
    } else if table[0].0 == raw {
        Some(table[0].1)
    } else {
        spec_find_button(table.subrange(1, table.len() as int), raw)
    }
}

/// The analog slot a raw axis index translates to: the position of the
/// first matching tracked axis, if any.
pub open spec fn spec_find_axis(axes: Seq<AxisInfo>, raw: usize) -> Option<int>
    decreases axes.len(),
{
    if axes.len() == 0 {
        None
    } else if axes[0].raw_index == raw {
        Some(0)
    } else {
        match spec_find_axis(axes.subrange(1, axes.len() as int), raw) {
            Some(j) => Some(j + 1),
            None => None,
        }
    }
}

/// A hat-switch sample passes through unscaled: its small integer becomes
/// the same number of full scales, held inside the representable range.
pub open spec fn spec_hat_value(v: int) -> i32 {
    if v < -1 {
        (-32768) as i32
    } else if v > 1 {
        32768 as i32
    } else {
        (v * 32768) as i32
    }
}

/// The fixed-point value one raw sample of an axis normalizes to.
pub open spec fn spec_axis_value(a: AxisInfo, value: int) -> i32 {
    if a.hat {
        spec_hat_value(value)
    } else {
        spec_normalize(value, a.minimum as int, a.maximum as int) as i32
    }
}

/// A raw hat-switch sample passed through unscaled.
pub fn hat_value(v: i32) -> (r: i32)
    ensures
        r == spec_hat_value(v as int),
        -32768 <= r <= 32768,
{
    if v < -1 {
        -32768
    } else if v > 1 {
        32768
    } else {
        v * 32768
    }
}

/// The per-frame copy of the digital state into the previous-frame state
/// that makes edge detection possible.
pub open spec fn spec_begin_frame(s: StateModel) -> StateModel {
    StateModel {
        status: s.status,
        sequence: s.sequence,
        digital_prev: s.digital,
        digital: s.digital,
        analog: s.analog,
    }
}

/// The effect of one raw event on a slot's state.  A raw index with no
/// table entry, or one translating outside the tracked range, is ignored,
/// never a fault; a `Disconnected` report demotes the slot and leaves the
/// last-known arrays untouched.
pub open spec fn spec_apply_event(
    table: Seq<(usize, GamepadButton)>,
    axes: Seq<AxisInfo>,
    s: StateModel,
    e: RawEvent,
) -> StateModel {
    match e {
        RawEvent::Digital { raw_index, pressed } => match spec_find_button(table, raw_index) {
            Some(b) => if 0 <= b.spec_index() < MAX_DIGITAL {
                StateModel {
                    status: s.status,
                    sequence: s.sequence,
                    digital_prev: s.digital_prev,
                    digital: s.digital.update(b.spec_index(), pressed),
                    analog: s.analog,
                }
            } else {
                s
            },
            None => s,
        },
        RawEvent::Analog { raw_index, value } => match spec_find_axis(axes, raw_index) {
            Some(j) => if j < MAX_ANALOG {
                StateModel {
                    status: s.status,
                    sequence: s.sequence,
                    digital_prev: s.digital_prev,
                    digital: s.digital,
                    analog: s.analog.update(j, spec_axis_value(axes[j], value as int)),
                }
            } else {
                s
            },
            None => s,
        },
        RawEvent::Disconnected => StateModel {
            status: ControllerStatus::Disconnected,
            sequence: s.sequence,
            digital_prev: s.digital_prev,
            digital: s.digital,
            analog: s.analog,
        },
    }
}

/// A frame's worth of queued events applied in order, last write per raw
/// index winning.  A `Disconnected` report ends the frame.
pub open spec fn spec_apply_events(
    table: Seq<(usize, GamepadButton)>,
    axes: Seq<AxisInfo>,
    s: StateModel,
    events: Seq<RawEvent>,
) -> StateModel
    decreases events.len(),
{
    if events.len() == 0 {
        s
    } else if events[0] is Disconnected {
        spec_apply_event(table, axes, s, RawEvent::Disconnected)
    } else {
        spec_apply_events(
            table,
            axes,
            spec_apply_event(table, axes, s, events[0]),
            events.subrange(1, events.len() as int),
        )
    }
}

/// The digital array a level-triggered snapshot produces: starting from
/// all-released, the first `upto` raw positions overwrite the canonical
/// position their button translates to, later positions winning.
pub open spec fn spec_fold_digital(buttons: Seq<GamepadButton>, vals: Seq<bool>, upto: int)
    -> Seq<bool>
    decreases upto,
{
    if upto <= 0 {
        Seq::new(MAX_DIGITAL as nat, |i: int| false)
    } else {
        let prior = spec_fold_digital(buttons, vals, upto - 1);
        if upto - 1 < buttons.len() && 0 <= buttons[upto - 1].spec_index() < MAX_DIGITAL {
            prior.update(buttons[upto - 1].spec_index(), vals[upto - 1])
        } else {
            prior
        }
    }
}

/// A fixed-point sample held inside the representable axis range.
pub open spec fn spec_clamp_fixed(v: int) -> i32 {
    if v < -32768 {
        (-32768) as i32
    } else if v > 32768 {
        32768 as i32
    } else {
        v as i32
    }
}

/// The analog array a snapshot produces: every tracked position is
/// overwritten unconditionally, untracked positions read centered.
pub open spec fn spec_snapshot_analog(vals: Seq<i32>) -> Seq<i32> {
    Seq::new(MAX_ANALOG as nat, |j: int|
        if j < vals.len() {
            spec_clamp_fixed(vals[j] as int)
        } else {
            0i32
        })
}

/// The state after a level-triggered snapshot: previous state saved, every
/// tracked element overwritten.
pub open spec fn spec_apply_snapshot(
    buttons: Seq<GamepadButton>,
    s: StateModel,
    digital: Seq<bool>,
    analog: Seq<i32>,
) -> StateModel {
    StateModel {
        status: s.status,
        sequence: s.sequence,
        digital_prev: s.digital,
        digital: spec_fold_digital(buttons, digital, digital.len() as int),
        analog: spec_snapshot_analog(analog),
    }
}

/// The state after a sequence-numbered snapshot: the previous state is
/// always saved, but when the packet sequence is unchanged the rest of the
/// update is skipped and the state stays put.
pub open spec fn spec_apply_sequenced(
    buttons: Seq<GamepadButton>,
    s: StateModel,
    packet: int,
    digital: Seq<bool>,
    analog: Seq<i32>,
) -> StateModel {
    if packet == s.sequence {
        spec_begin_frame(s)
    } else {
        StateModel {
            status: s.status,
            sequence: packet,
            digital_prev: s.digital,
            digital: spec_fold_digital(buttons, digital, digital.len() as int),
            analog: spec_snapshot_analog(analog),
        }
    }
}

/// The raw-index table that lookup of a GUID yields: the resolved entry's
/// table, or the synthesized default one for an unresolved GUID.
pub open spec fn resolved_buttons(db: Seq<MappingModel>, guid: Seq<u8>) -> Seq<GamepadButton> {
    match spec_resolve(db, guid) {
        Some(m) => m.buttons,
        None => default_buttons(),
    }
}

/// The buttons of a freshly connected device: the mapping applied to the
/// raw digital-capability order, one canonical button per raw position;
/// positions past the mapping table read `Unknown`.
pub open spec fn spec_connected_buttons(db: Seq<MappingModel>, guid: Seq<u8>, count: int)
    -> Seq<GamepadButton> {
    Seq::new(count as nat, |k: int|
        if k < MAX_BTNS {
            resolved_buttons(db, guid)[k]
        } else {
            GamepadButton::Unknown
        })
}

/// Whether an axis is usable: hat channels pass through, other axes need a
/// non-degenerate reporting range to normalize against.
pub open spec fn spec_axis_tracked(a: AxisInfo) -> bool {
    a.hat || a.minimum < a.maximum
}

/// The usable axes of a capability list, in order.
pub open spec fn spec_tracked_axes(axes: Seq<AxisInfo>) -> Seq<AxisInfo>
    decreases axes.len(),
{
    if axes.len() == 0 {
        Seq::empty()
    } else {
        spec_tracked_axes(axes.drop_last()) + if spec_axis_tracked(axes.last()) {
            seq![axes.last()]
        } else {
            Seq::<AxisInfo>::empty()
        }
    }
}

/// Every tracked axis is usable, and tracking never invents axes.
pub proof fn lemma_tracked_axes(axes: Seq<AxisInfo>)
    ensures
        spec_tracked_axes(axes).len() <= axes.len(),
        forall|k: int| 0 <= k < spec_tracked_axes(axes).len()
            ==> spec_axis_tracked(#[trigger] spec_tracked_axes(axes)[k]),
    decreases axes.len(),
{
    if axes.len() > 0 {
        lemma_tracked_axes(axes.drop_last());
    }
}

/// Copy a vector of plain values.
fn copy_vec<T: Copy>(v: &Vec<T>) -> (r: Vec<T>)
    ensures
        r@ == v@,
{
    let mut out: Vec<T> = Vec::new();
    let mut i: usize = 0;
    while i < v.len()
        invariant
            i <= v@.len(),
            out@ == v@.subrange(0, i as int),
        decreases v@.len() - i,
    {
        out.push(v[i]);
        proof {
            assert(out@ =~= v@.subrange(0, i + 1));
        }
        i = i + 1;
    }
    proof {
        assert(out@ =~= v@);
    }
    out
}

/// A found analog position always lies inside the table it was found in.
proof fn lemma_find_axis_range(axes: Seq<AxisInfo>, raw: usize)
    ensures
        match spec_find_axis(axes, raw) {
            Some(j) => 0 <= j < axes.len(),
            None => true,
        },
    decreases axes.len(),
{
    if axes.len() > 0 && axes[0].raw_index != raw {
        lemma_find_axis_range(axes.subrange(1, axes.len() as int), raw);
    }
}

/// Translate a raw digital index through a slot's translation table.
fn find_button(table: &Vec<(usize, GamepadButton)>, raw: usize) -> (r: Option<GamepadButton>)
    ensures
        r == spec_find_button(table@, raw),
{
    let mut i: usize = 0;
    proof {
        assert(table@.subrange(0, table@.len() as int) =~= table@);
    }
    while i < table.len()
        invariant
            i <= table@.len(),
            spec_find_button(table@, raw)
                == spec_find_button(table@.subrange(i as int, table@.len() as int), raw),
        decreases table@.len() - i,
    {
        proof {
            let rest = table@.subrange(i as int, table@.len() as int);
            assert(rest[0] == table@[i as int]);
            assert(rest.subrange(1, rest.len() as int)
                =~= table@.subrange(i + 1, table@.len() as int));
        }
        let entry = table[i];
        if entry.0 == raw {
            return Some(entry.1);
        }
        i = i + 1;
    }
    proof {
        assert(table@.subrange(i as int, table@.len() as int) =~= Seq::<(usize,
            GamepadButton)>::empty());
    }
    None
}

/// Translate a raw axis index to its tracked analog position.
fn find_axis(axes: &Vec<AxisInfo>, raw: usize) -> (r: Option<usize>)
    ensures
        match r {
            Some(j) => spec_find_axis(axes@, raw) == Some(j as int) && j < axes@.len(),
            None => spec_find_axis(axes@, raw) is None,
        },
{
    let mut i: usize = 0;
    proof {
        assert(axes@.subrange(0, axes@.len() as int) =~= axes@);
        lemma_find_axis_range(axes@, raw);
    }
    while i < axes.len()
        invariant
            i <= axes@.len(),
            match spec_find_axis(axes@, raw) {
                Some(j) => spec_find_axis(axes@.subrange(i as int, axes@.len() as int), raw)
                    == Some(j - i) && i <= j < axes@.len(),
                None => spec_find_axis(axes@.subrange(i as int, axes@.len() as int), raw)
                    is None,
            },
        decreases axes@.len() - i,
    {
        proof {
            let rest = axes@.subrange(i as int, axes@.len() as int);
            assert(rest[0] == axes@[i as int]);
            assert(rest.subrange(1, rest.len() as int)
                =~= axes@.subrange(i + 1, axes@.len() as int));
            lemma_find_axis_range(rest.subrange(1, rest.len() as int), raw);
        }
        if axes[i].raw_index == raw {
            return Some(i);
        }
        i = i + 1;
    }
    proof {
        assert(axes@.subrange(i as int, axes@.len() as int) =~= Seq::<AxisInfo>::empty());
    }
    None
}

/// A translation table that never names the array-size marker never
/// translates to it either.
proof fn lemma_find_button_not_max(table: Seq<(usize, GamepadButton)>, raw: usize)
    requires
        forall|k: int| 0 <= k < table.len()
            ==> (#[trigger] table[k]).1 != GamepadButton::Max,
    ensures
        match spec_find_button(table, raw) {
            Some(b) => b != GamepadButton::Max,
            None => true,
        },
    decreases table.len(),
{
    if table.len() > 0 && table[0].0 != raw {
        let tail = table.subrange(1, table.len() as int);
        assert(forall|k: int| 0 <= k < tail.len()
            ==> (#[trigger] tail[k]).1 != GamepadButton::Max);
        lemma_find_button_not_max(tail, raw);
    }
}

/// A fresh all-released digital array.
fn all_false() -> (r: Vec<bool>)
    ensures
        r@ == Seq::new(MAX_DIGITAL as nat, |i: int| false),
{
    let mut out: Vec<bool> = Vec::new();
    let mut i: usize = 0;
    while i < MAX_DIGITAL
        invariant
            i <= MAX_DIGITAL,
            out@.len() == i,
            forall|j: int| 0 <= j < i ==> !(#[trigger] out@[j]),
        decreases MAX_DIGITAL - i,
    {
        out.push(false);
        i = i + 1;
    }
    proof {
        assert(out@ =~= Seq::new(MAX_DIGITAL as nat, |i: int| false));
    }
    out
}

/// A fixed-point sample held inside the representable axis range.
fn clamp_fixed(v: i32) -> (r: i32)
    ensures
        r == spec_clamp_fixed(v as int),
        -32768 <= r <= 32768,
{
    if v < -32768 {
        -32768
    } else if v > 32768 {
        32768
    } else {
        v
    }
}

/// The analog array one snapshot produces: every tracked position
/// overwritten, untracked positions centered.
pub fn to_analog_state_array(vals: &Vec<i32>) -> (r: Vec<i32>)
    ensures
        r@ == spec_snapshot_analog(vals@),
        r@.len() == MAX_ANALOG,
        forall|j: int| 0 <= j < r@.len() ==> -32768 <= #[trigger] r@[j] <= 32768,
{
    let mut out: Vec<i32> = Vec::new();
    let mut j: usize = 0;
    while j < MAX_ANALOG
        invariant
            j <= MAX_ANALOG,
            out@.len() == j,
            forall|l: int| 0 <= l < j ==> #[trigger] out@[l] == spec_snapshot_analog(vals@)[l],
            forall|l: int| 0 <= l < j ==> -32768 <= #[trigger] out@[l] <= 32768,
        decreases MAX_ANALOG - j,
    {
        let v = if j < vals.len() {
            clamp_fixed(vals[j])
        } else {
            0
        };
        out.push(v);
        j = j + 1;
    }
    proof {
        assert(out@ =~= spec_snapshot_analog(vals@));
    }
    out
}

/// The controller runtime: fixed-capacity per-slot state, the loaded
/// mapping database, and per-slot translation tables rebuilt at each
/// connection.
pub struct ControllerContext {
    pub mappings: MappingsMap,
    pub info: Vec<ControllerInfo>,
    pub state: Vec<ControllerState>,
    pub buttons_map: Vec<Vec<(usize, GamepadButton)>>,
    pub axis_map: Vec<Vec<AxisInfo>>,
    pub neutral: ControllerState,
}

impl ControllerContext {
    /// The loaded database, as entry models in line order.
    pub open spec fn db(self) -> Seq<MappingModel> {
        self.mappings@.map_values(|m: Mapping| m@)
    }

    /// The translation tables of one slot never name the array-size marker
    /// button, and every tracked non-hat axis has a usable range.
    pub open spec fn valid_tables(self, s: int) -> bool {
        &&& forall|k: int| 0 <= k < self.buttons_map@[s]@.len()
            ==> (#[trigger] self.buttons_map@[s]@[k]).1 != GamepadButton::Max
        &&& forall|k: int| 0 <= k < self.axis_map@[s]@.len()
            ==> ((#[trigger] self.axis_map@[s]@[k]).hat
                || self.axis_map@[s]@[k].minimum < self.axis_map@[s]@[k].maximum)
    }

    /// The runtime's invariant: all per-slot containers have their fixed
    /// capacity, every slot's state is well formed, the translation tables
    /// are usable, and the stored database entries are well formed.
    pub open spec fn wf(self) -> bool {
        &&& self.info@.len() == MAX_DEVICES
        &&& self.state@.len() == MAX_DEVICES
        &&& self.buttons_map@.len() == MAX_DEVICES
        &&& self.axis_map@.len() == MAX_DEVICES
        &&& forall|s: int| 0 <= s < MAX_DEVICES ==> (#[trigger] self.state@[s])@.wf()
        &&& forall|s: int| 0 <= s < MAX_DEVICES ==> self.valid_tables(s)
        &&& forall|k: int| 0 <= k < self.db().len() ==> (#[trigger] self.db()[k]).wf()
        &&& self.neutral@.wf()
        &&& self.neutral@.is_neutral()
    }

    /// Build the runtime over a loaded mapping database: every slot starts
    /// disconnected with neutral info and state.
    pub fn new(mappings: MappingsMap) -> (r: Self)
        requires
            forall|k: int| 0 <= k < mappings@.len() ==> (#[trigger] mappings@[k]).wf(),
        ensures
            r.wf(),
            r.db() == mappings@.map_values(|m: Mapping| m@),
            forall|s: int| 0 <= s < MAX_DEVICES ==> (#[trigger] r.state@[s])@.is_neutral(),
            forall|s: int| 0 <= s < MAX_DEVICES ==> (#[trigger] r.info@[s]).is_neutral(),
    {
        let mut info: Vec<ControllerInfo> = Vec::new();
        let mut state: Vec<ControllerState> = Vec::new();
        let mut buttons_map: Vec<Vec<(usize, GamepadButton)>> = Vec::new();
        let mut axis_map: Vec<Vec<AxisInfo>> = Vec::new();
        let mut i: usize = 0;
        while i < MAX_DEVICES
            invariant
                i <= MAX_DEVICES,
                info@.len() == i,
                state@.len() == i,
                buttons_map@.len() == i,
                axis_map@.len() == i,
                forall|s: int| 0 <= s < i ==> (#[trigger] state@[s])@.wf(),
                forall|s: int| 0 <= s < i ==> (#[trigger] state@[s])@.is_neutral(),
                forall|s: int| 0 <= s < i ==> (#[trigger] info@[s]).is_neutral(),
                forall|s: int| 0 <= s < i ==> (#[trigger] buttons_map@[s])@.len() == 0,
                forall|s: int| 0 <= s < i ==> (#[trigger] axis_map@[s])@.len() == 0,
            decreases MAX_DEVICES - i,
        {
            info.push(ControllerInfo::new());
            state.push(ControllerState::new());
            buttons_map.push(Vec::new());
            axis_map.push(Vec::new());
            i = i + 1;
        }
        let r = ControllerContext {
            mappings,
            info,
            state,
            buttons_map,
            axis_map,
            neutral: ControllerState::new(),
        };
        proof {
            assert(forall|s: int| 0 <= s < MAX_DEVICES ==> r.valid_tables(s));
        }
        r
    }

    /// The canonical button per raw position of one slot's translation
    /// table.
    pub open spec fn slot_buttons(self, s: int) -> Seq<GamepadButton> {
        self.buttons_map@[s]@.map_values(|p: (usize, GamepadButton)| p.1)
    }

    /// Everything but the per-slot state is shared between two runtime
    /// values.
    pub open spec fn same_but_state(self, other: ControllerContext) -> bool {
        &&& other.mappings == self.mappings
        &&& other.info == self.info
        &&& other.buttons_map == self.buttons_map
        &&& other.axis_map == self.axis_map
        &&& other.neutral == self.neutral
    }

    /// Connect a device to a slot: derive its GUID, resolve or synthesize
    /// its mapping, rebuild the slot's info and translation tables from the
    /// device's capabilities, and reset the slot's state to a fresh
    /// connected one.  A slot outside the fixed range is left untouched.
    pub fn connect(&mut self, slot: usize, desc: &DeviceDescriptor)
        requires
            old(self).wf(),
        ensures
            final(self).wf(),
            final(self).mappings == old(self).mappings,
            final(self).neutral == old(self).neutral,
            slot >= MAX_DEVICES ==> *final(self) == *old(self),
            slot < MAX_DEVICES ==> ({
                let guid = guid_of(desc.bus as int, desc.vendor as int, desc.product as int,
                    desc.version as int, desc.name@);
                let btns = spec_connected_buttons(old(self).db(), guid,
                    desc.digital_indices@.len() as int);
                &&& final(self).info@[slot as int].name@ == desc.name@
                &&& final(self).info@[slot as int].buttons@ == btns
                &&& final(self).info@[slot as int].analog_count
                    == spec_tracked_axes(desc.analog_axes@).len()
                &&& final(self).state@[slot as int]@.status == ControllerStatus::Connected
                &&& final(self).state@[slot as int]@.sequence == 0
                &&& final(self).state@[slot as int]@.digital
                    =~= Seq::new(MAX_DIGITAL as nat, |i: int| false)
                &&& final(self).state@[slot as int]@.digital_prev
                    =~= Seq::new(MAX_DIGITAL as nat, |i: int| false)
                &&& final(self).state@[slot as int]@.analog
                    =~= Seq::new(MAX_ANALOG as nat, |i: int| 0i32)
                &&& final(self).buttons_map@[slot as int]@
                    =~= Seq::new(desc.digital_indices@.len(),
                        |k: int| (desc.digital_indices@[k], btns[k]))
                &&& final(self).axis_map@[slot as int]@ == spec_tracked_axes(desc.analog_axes@)
                &&& forall|s: int| 0 <= s < MAX_DEVICES && s != slot
                    ==> (#[trigger] final(self).info@[s]) == old(self).info@[s]
                        && final(self).state@[s] == old(self).state@[s]
                        && final(self).buttons_map@[s] == old(self).buttons_map@[s]
                        && final(self).axis_map@[s] == old(self).axis_map@[s]
            }),
    {
        if slot >= MAX_DEVICES {
            return;
        }
        let guid = derive_guid(desc.bus, desc.vendor, desc.product, desc.version,
            desc.name.as_slice());
        let ghost guid_s = guid@;
        proof {
            crate::mapping::lemma_resolve_wf(self.db(), guid_s);
        }
        let btns_src: Vec<GamepadButton> = match resolve(&self.mappings, guid.as_slice()) {
            Some(m) => copy_vec(&m.buttons),
            None => Mapping::new(guid.as_slice()).buttons,
        };
        proof {
            assert(btns_src@ == resolved_buttons(self.db(), guid_s));
            assert(forall|k: int| 0 <= k < MAX_BTNS
                ==> #[trigger] default_buttons()[k] == crate::mapping::default_button(k));
            assert(btns_src@.len() == MAX_BTNS);
            assert(forall|k: int| 0 <= k < btns_src@.len()
                ==> (#[trigger] btns_src@[k]) != GamepadButton::Max);
        }
        let ghost btns = spec_connected_buttons(self.db(), guid_s,
            desc.digital_indices@.len() as int);
        let mut buttons: Vec<GamepadButton> = Vec::new();
        let mut table: Vec<(usize, GamepadButton)> = Vec::new();
        let mut k: usize = 0;
        while k < desc.digital_indices.len()
            invariant
                k <= desc.digital_indices@.len(),
                btns == spec_connected_buttons(self.db(), guid_s,
                    desc.digital_indices@.len() as int),
                btns_src@ == resolved_buttons(self.db(), guid_s),
                btns_src@.len() == MAX_BTNS,
                forall|j: int| 0 <= j < btns_src@.len()
                    ==> (#[trigger] btns_src@[j]) != GamepadButton::Max,
                buttons@.len() == k,
                table@.len() == k,
                forall|j: int| 0 <= j < k ==> #[trigger] buttons@[j] == btns[j],
                forall|j: int| 0 <= j < k
                    ==> #[trigger] table@[j] == (desc.digital_indices@[j], btns[j]),
            decreases desc.digital_indices@.len() - k,
        {
            let b = if k < MAX_BTNS {
                btns_src[k]
            } else {
                GamepadButton::Unknown
            };
            buttons.push(b);
            table.push((desc.digital_indices[k], b));
            k = k + 1;
        }
        let mut axes: Vec<AxisInfo> = Vec::new();
        let mut j: usize = 0;
        proof {
            assert(desc.analog_axes@.subrange(0, 0) =~= Seq::<AxisInfo>::empty());
            assert(spec_tracked_axes(desc.analog_axes@.subrange(0, 0)) =~= axes@);
        }
        while j < desc.analog_axes.len()
            invariant
                j <= desc.analog_axes@.len(),
                axes@ == spec_tracked_axes(desc.analog_axes@.subrange(0, j as int)),
            decreases desc.analog_axes@.len() - j,
        {
            proof {
                assert(desc.analog_axes@.subrange(0, j + 1).drop_last()
                    =~= desc.analog_axes@.subrange(0, j as int));
                assert(desc.analog_axes@.subrange(0, j + 1).last()
                    == desc.analog_axes@[j as int]);
            }
            let a = desc.analog_axes[j];
            if a.hat || a.minimum < a.maximum {
                axes.push(a);
            }
            proof {
                assert(axes@ =~= spec_tracked_axes(desc.analog_axes@.subrange(0, j + 1)));
            }
            j = j + 1;
        }
        proof {
            assert(desc.analog_axes@.subrange(0, desc.analog_axes@.len() as int)
                =~= desc.analog_axes@);
            lemma_tracked_axes(desc.analog_axes@);
        }
        let analog_count = axes.len();
        let mut st = ControllerState::new();
        st.status = ControllerStatus::Connected;
        let new_info = ControllerInfo {
            name: copy_vec(&desc.name),
            buttons,
            analog_count,
        };
        self.info.set(slot, new_info);
        self.state.set(slot, st);
        self.buttons_map.set(slot, table);
        self.axis_map.set(slot, axes);
        proof {
            assert(self.buttons_map@[slot as int]@
                =~= Seq::new(desc.digital_indices@.len(),
                    |k: int| (desc.digital_indices@[k], btns[k])));
            assert(self.info@[slot as int].buttons@ =~= btns);
            assert(forall|s: int| 0 <= s < MAX_DEVICES ==> (#[trigger] self.state@[s])@.wf());
            assert forall|s: int| 0 <= s < MAX_DEVICES implies self.valid_tables(s) by {
                assert(old(self).valid_tables(s));
            }
        }
    }

    /// Connect a device whose backend reports its offered canonical
    /// buttons directly, as the sequence-numbered snapshot model does from
    /// its capability mask: the slot's info carries the given name, button
    /// list and analog count, and the translation table maps raw position
    /// `k` to the `k`-th offered button, so a snapshot sampled in
    /// capability order lands on exactly those buttons.  A slot outside
    /// the fixed range is left untouched.
    pub fn connect_with_buttons(
        &mut self,
        slot: usize,
        name: &Vec<u8>,
        buttons: &Vec<GamepadButton>,
        analog_count: usize,
    )
        requires
            old(self).wf(),
            forall|k: int| 0 <= k < buttons@.len()
                ==> (#[trigger] buttons@[k]) != GamepadButton::Max,
        ensures
            final(self).wf(),
            final(self).mappings == old(self).mappings,
            final(self).neutral == old(self).neutral,
            slot >= MAX_DEVICES ==> *final(self) == *old(self),
            slot < MAX_DEVICES ==> ({
                &&& final(self).info@[slot as int].name@ == name@
                &&& final(self).info@[slot as int].buttons@ == buttons@
                &&& final(self).info@[slot as int].analog_count == analog_count
                &&& final(self).state@[slot as int]@.status == ControllerStatus::Connected
                &&& final(self).state@[slot as int]@.sequence == 0
                &&& final(self).state@[slot as int]@.digital
                    =~= Seq::new(MAX_DIGITAL as nat, |i: int| false)
                &&& final(self).state@[slot as int]@.digital_prev
                    =~= Seq::new(MAX_DIGITAL as nat, |i: int| false)
                &&& final(self).state@[slot as int]@.analog
                    =~= Seq::new(MAX_ANALOG as nat, |i: int| 0i32)
                &&& final(self).buttons_map@[slot as int]@
                    =~= Seq::new(buttons@.len(), |k: int| (k as usize, buttons@[k]))
                &&& final(self).slot_buttons(slot as int) =~= buttons@
                &&& final(self).axis_map@[slot as int]@ =~= Seq::<AxisInfo>::empty()
                &&& forall|s: int| 0 <= s < MAX_DEVICES && s != slot
                    ==> (#[trigger] final(self).info@[s]) == old(self).info@[s]
                        && final(self).state@[s] == old(self).state@[s]
                        && final(self).buttons_map@[s] == old(self).buttons_map@[s]
                        && final(self).axis_map@[s] == old(self).axis_map@[s]
            }),
    {
        if slot >= MAX_DEVICES {
            return;
        }
        let mut table: Vec<(usize, GamepadButton)> = Vec::new();
        let mut k: usize = 0;
        while k < buttons.len()
            invariant
                k <= buttons@.len(),
                table@.len() == k,
                forall|j: int| 0 <= j < k
                    ==> #[trigger] table@[j] == (j as usize, buttons@[j]),
            decreases buttons@.len() - k,
        {
            table.push((k, buttons[k]));
            k = k + 1;
        }
        let mut st = ControllerState::new();
        st.status = ControllerStatus::Connected;
        let new_info = ControllerInfo {
            name: copy_vec(name),
            buttons: copy_vec(buttons),
            analog_count,
        };
        self.info.set(slot, new_info);
        self.state.set(slot, st);
        self.buttons_map.set(slot, table);
        self.axis_map.set(slot, Vec::new());
        proof {
            assert(self.buttons_map@[slot as int]@
                =~= Seq::new(buttons@.len(), |k: int| (k as usize, buttons@[k])));
            assert(self.slot_buttons(slot as int) =~= buttons@);
            assert(self.axis_map@[slot as int]@ =~= Seq::<AxisInfo>::empty());
            assert forall|s: int| 0 <= s < MAX_DEVICES
                implies (#[trigger] self.state@[s])@.wf() by {
                assert(old(self).state@[s]@.wf());
            }
            assert forall|s: int| 0 <= s < MAX_DEVICES implies self.valid_tables(s) by {
                assert(old(self).valid_tables(s));
            }
            assert(self.db() == old(self).db());
        }
    }

    /// Demote a slot to disconnected, leaving the last-known digital and
    /// analog arrays untouched so the preceding frame's values stay
    /// readable.  Safe to repeat, and a no-op for out-of-range slots.
    pub fn disconnect(&mut self, slot: usize)
        requires
            old(self).wf(),
        ensures
            final(self).wf(),
            old(self).same_but_state(*final(self)),
            slot >= MAX_DEVICES ==> *final(self) == *old(self),
            slot < MAX_DEVICES ==> ({
                &&& final(self).state@[slot as int]@ == (StateModel {
                    status: ControllerStatus::Disconnected,
                    ..old(self).state@[slot as int]@
                })
                &&& forall|s: int| 0 <= s < MAX_DEVICES && s != slot
                    ==> (#[trigger] final(self).state@[s]) == old(self).state@[s]
            }),
    {
        if slot >= MAX_DEVICES {
            return;
        }
        let cur = &self.state[slot];
        let newst = ControllerState {
            status: ControllerStatus::Disconnected,
            sequence: cur.sequence,
            digital_state_prev: copy_vec(&cur.digital_state_prev),
            digital_state: copy_vec(&cur.digital_state),
            analog_state: copy_vec(&cur.analog_state),
        };
        proof {
            assert(newst@ =~= (StateModel {
                status: ControllerStatus::Disconnected,
                ..old(self).state@[slot as int]@
            }));
        }
        self.state.set(slot, newst);
        proof {
            assert forall|s: int| 0 <= s < MAX_DEVICES
                implies (#[trigger] self.state@[s])@.wf() by {
                assert(old(self).state@[s]@.wf());
            }
            assert forall|s: int| 0 <= s < MAX_DEVICES implies self.valid_tables(s) by {
                assert(old(self).valid_tables(s));
            }
            assert(self.db() == old(self).db());
        }
    }

    /// Apply one frame's worth of queued raw events to a slot: the
    /// previous digital state is saved for edge detection, then the events
    /// land in order, the last write per raw index winning; a
    /// `Disconnected` report demotes the slot and ends the frame.  A slot
    /// outside the fixed range is left untouched.
    pub fn update_queued(&mut self, slot: usize, events: &Vec<RawEvent>)
        requires
            old(self).wf(),
        ensures
            final(self).wf(),
            old(self).same_but_state(*final(self)),
            slot >= MAX_DEVICES ==> *final(self) == *old(self),
            slot < MAX_DEVICES ==> ({
                &&& final(self).state@[slot as int]@ == spec_apply_events(
                    old(self).buttons_map@[slot as int]@,
                    old(self).axis_map@[slot as int]@,
                    spec_begin_frame(old(self).state@[slot as int]@),
                    events@,
                )
                &&& forall|s: int| 0 <= s < MAX_DEVICES && s != slot
                    ==> (#[trigger] final(self).state@[s]) == old(self).state@[s]
            }),
    {
        if slot >= MAX_DEVICES {
            return;
        }
        let ghost tbl = self.buttons_map@[slot as int]@;
        let ghost axs = self.axis_map@[slot as int]@;
        let cur = &self.state[slot];
        let prev = copy_vec(&cur.digital_state);
        let mut digital = copy_vec(&cur.digital_state);
        let mut analog = copy_vec(&cur.analog_state);
        let mut status = cur.status;
        let sequence = cur.sequence;
        let ghost s0 = spec_begin_frame(old(self).state@[slot as int]@);
        proof {
            assert(s0 =~= (StateModel {
                status: status,
                sequence: sequence as int,
                digital_prev: prev@,
                digital: digital@,
                analog: analog@,
            }));
            assert(events@.subrange(0, events@.len() as int) =~= events@);
        }
        let mut stopped: bool = false;
        let mut i: usize = 0;
        while i < events.len() && !stopped
            invariant
                i <= events@.len(),
                self == old(self),
                slot < MAX_DEVICES,
                tbl == self.buttons_map@[slot as int]@,
                axs == self.axis_map@[slot as int]@,
                self.wf(),
                prev@.len() == MAX_DIGITAL,
                digital@.len() == MAX_DIGITAL,
                analog@.len() == MAX_ANALOG,
                forall|j: int| 0 <= j < analog@.len()
                    ==> -32768 <= #[trigger] analog@[j] <= 32768,
                !stopped ==> spec_apply_events(tbl, axs, s0, events@)
                    == spec_apply_events(tbl, axs, (StateModel {
                        status: status,
                        sequence: sequence as int,
                        digital_prev: prev@,
                        digital: digital@,
                        analog: analog@,
                    }), events@.subrange(i as int, events@.len() as int)),
                stopped ==> spec_apply_events(tbl, axs, s0, events@) == (StateModel {
                    status: status,
                    sequence: sequence as int,
                    digital_prev: prev@,
                    digital: digital@,
                    analog: analog@,
                }),
            decreases events@.len() - i,
        {
            let ghost before = StateModel {
                status: status,
                sequence: sequence as int,
                digital_prev: prev@,
                digital: digital@,
                analog: analog@,
            };
            proof {
                let rest = events@.subrange(i as int, events@.len() as int);
                assert(rest[0] == events@[i as int]);
                assert(rest.subrange(1, rest.len() as int)
                    =~= events@.subrange(i + 1, events@.len() as int));
            }
            let e = events[i];
            match e {
                RawEvent::Digital { raw_index, pressed } => {
                    proof {
                        assert(self.valid_tables(slot as int));
                        lemma_find_button_not_max(tbl, raw_index);
                    }
                    match find_button(&self.buttons_map[slot], raw_index) {
                        Some(b) => {
                            let bi = b.index();
                            if bi < MAX_DIGITAL {
                                digital.set(bi, pressed);
                            }
                        },
                        None => {},
                    }
                },
                RawEvent::Analog { raw_index, value } => {
                    match find_axis(&self.axis_map[slot], raw_index) {
                        Some(j) => {
                            if j < MAX_ANALOG {
                                let a = self.axis_map[slot][j];
                                proof {
                                    assert(self.valid_tables(slot as int));
                                    assert(spec_axis_tracked(a));
                                }
                                let nv = if a.hat {
                                    hat_value(value)
                                } else {
                                    normalize(value, a.minimum, a.maximum)
                                };
                                proof {
                                    assert(nv == spec_axis_value(a, value as int));
                                }
                                analog.set(j, nv);
                            }
                        },
                        None => {},
                    }
                },
                RawEvent::Disconnected => {
                    status = ControllerStatus::Disconnected;
                    stopped = true;
                },
            }
            proof {
                let after = StateModel {
                    status: status,
                    sequence: sequence as int,
                    digital_prev: prev@,
                    digital: digital@,
                    analog: analog@,
                };
                assert(after =~= spec_apply_event(tbl, axs, before, e));
            }
            i = i + 1;
        }
        proof {
            if !stopped {
                assert(events@.subrange(i as int, events@.len() as int)
                    =~= Seq::<RawEvent>::empty());
            }
        }
        let newst = ControllerState {
            status,
            sequence,
            digital_state_prev: prev,
            digital_state: digital,
            analog_state: analog,
        };
        self.state.set(slot, newst);
        proof {
            assert(newst@ =~= spec_apply_events(tbl, axs, s0, events@));
            assert forall|s: int| 0 <= s < MAX_DEVICES
                implies (#[trigger] self.state@[s])@.wf() by {
                assert(old(self).state@[s]@.wf());
            }
            assert forall|s: int| 0 <= s < MAX_DEVICES implies self.valid_tables(s) by {
                assert(old(self).valid_tables(s));
            }
            assert(self.db() == old(self).db());
        }
    }

    /// Apply one level-triggered snapshot to a slot: the previous digital
    /// state is saved, then every tracked element is overwritten
    /// unconditionally from the snapshot.  `digital` holds the sampled
    /// value of each raw digital position in capability order; `analog`
    /// holds the already-normalized fixed-point sample of each tracked
    /// axis.  A slot outside the fixed range is left untouched.
    pub fn update_snapshot(&mut self, slot: usize, digital: &Vec<bool>, analog: &Vec<i32>)
        requires
            old(self).wf(),
        ensures
            final(self).wf(),
            old(self).same_but_state(*final(self)),
            slot >= MAX_DEVICES ==> *final(self) == *old(self),
            slot < MAX_DEVICES ==> ({
                &&& final(self).state@[slot as int]@ == spec_apply_snapshot(
                    old(self).slot_buttons(slot as int),
                    old(self).state@[slot as int]@,
                    digital@,
                    analog@,
                )
                &&& forall|s: int| 0 <= s < MAX_DEVICES && s != slot
                    ==> (#[trigger] final(self).state@[s]) == old(self).state@[s]
            }),
    {
        if slot >= MAX_DEVICES {
            return;
        }
        let cur = &self.state[slot];
        let prev = copy_vec(&cur.digital_state);
        let status = cur.status;
        let sequence = cur.sequence;
        let new_digital = self.fold_digital(slot, digital);
        let new_analog = to_analog_state_array(analog);
        let newst = ControllerState {
            status,
            sequence,
            digital_state_prev: prev,
            digital_state: new_digital,
            analog_state: new_analog,
        };
        proof {
            assert(newst@ =~= spec_apply_snapshot(old(self).slot_buttons(slot as int),
                old(self).state@[slot as int]@, digital@, analog@));
        }
        self.state.set(slot, newst);
        proof {
            assert forall|s: int| 0 <= s < MAX_DEVICES
                implies (#[trigger] self.state@[s])@.wf() by {
                assert(old(self).state@[s]@.wf());
            }
            assert forall|s: int| 0 <= s < MAX_DEVICES implies self.valid_tables(s) by {
                assert(old(self).valid_tables(s));
            }
            assert(self.db() == old(self).db());
        }
    }

    /// Apply one sequence-numbered snapshot to a slot: the previous
    /// digital state is always saved, but when the packet sequence equals
    /// the last-seen one the whole rest of the update is skipped and the
    /// state stays put.  A slot outside the fixed range is left untouched.
    pub fn update_sequenced(
        &mut self,
        slot: usize,
        packet: usize,
        digital: &Vec<bool>,
        analog: &Vec<i32>,
    )
        requires
            old(self).wf(),
        ensures
            final(self).wf(),
            old(self).same_but_state(*final(self)),
            slot >= MAX_DEVICES ==> *final(self) == *old(self),
            slot < MAX_DEVICES ==> ({
                &&& final(self).state@[slot as int]@ == spec_apply_sequenced(
                    old(self).slot_buttons(slot as int),
                    old(self).state@[slot as int]@,
                    packet as int,
                    digital@,
                    analog@,
                )
                &&& forall|s: int| 0 <= s < MAX_DEVICES && s != slot
                    ==> (#[trigger] final(self).state@[s]) == old(self).state@[s]
            }),
    {
        if slot >= MAX_DEVICES {
            return;
        }
        let cur = &self.state[slot];
        let prev = copy_vec(&cur.digital_state);
        let status = cur.status;
        let sequence = cur.sequence;
        if packet == sequence {
            let newst = ControllerState {
                status,
                sequence,
                digital_state_prev: prev,
                digital_state: copy_vec(&cur.digital_state),
                analog_state: copy_vec(&cur.analog_state),
            };
            proof {
                assert(newst@ =~= spec_begin_frame(old(self).state@[slot as int]@));
            }
            self.state.set(slot, newst);
        } else {
            let new_digital = self.fold_digital(slot, digital);
            let new_analog = to_analog_state_array(analog);
            let newst = ControllerState {
                status,
                sequence: packet,
                digital_state_prev: prev,
                digital_state: new_digital,
                analog_state: new_analog,
            };
            proof {
                assert(newst@ =~= spec_apply_sequenced(old(self).slot_buttons(slot as int),
                    old(self).state@[slot as int]@, packet as int, digital@, analog@));
            }
            self.state.set(slot, newst);
        }
        proof {
            assert forall|s: int| 0 <= s < MAX_DEVICES
                implies (#[trigger] self.state@[s])@.wf() by {
                assert(old(self).state@[s]@.wf());
            }
            assert forall|s: int| 0 <= s < MAX_DEVICES implies self.valid_tables(s) by {
                assert(old(self).valid_tables(s));
            }
            assert(self.db() == old(self).db());
        }
    }

    /// Overwrite a fresh digital array from a snapshot through the slot's
    /// translation table.
    fn fold_digital(&self, slot: usize, vals: &Vec<bool>) -> (r: Vec<bool>)
        requires
            self.wf(),
            slot < MAX_DEVICES,
        ensures
            r@ == spec_fold_digital(self.slot_buttons(slot as int), vals@, vals@.len() as int),
            r@.len() == MAX_DIGITAL,
    {
        let ghost buttons = self.slot_buttons(slot as int);
        let mut out = all_false();
        let table = &self.buttons_map[slot];
        let mut k: usize = 0;
        proof {
            assert(out@ =~= spec_fold_digital(buttons, vals@, 0));
        }
        while k < vals.len()
            invariant
                k <= vals@.len(),
                self.wf(),
                slot < MAX_DEVICES,
                table == &self.buttons_map@[slot as int],
                buttons == self.slot_buttons(slot as int),
                out@.len() == MAX_DIGITAL,
                out@ == spec_fold_digital(buttons, vals@, k as int),
            decreases vals@.len() - k,
        {
            if k < table.len() {
                proof {
                    assert(buttons[k as int] == table@[k as int].1);
                    assert(self.valid_tables(slot as int));
                    assert(table@[k as int].1 != GamepadButton::Max);
                }
                let b = table[k].1;
                let bi = b.index();
                if bi < MAX_DIGITAL {
                    out.set(bi, vals[k]);
                }
            }
            k = k + 1;
        }
        out
    }

    /// Current information of the controller in a slot.  Total: an
    /// out-of-range or never-connected slot reads as the neutral info.
    pub fn info(&self, index: usize) -> (r: ControllerInfo)
        requires
            self.wf(),
        ensures
            index < MAX_DEVICES ==> r.name@ == self.info@[index as int].name@
                && r.buttons@ == self.info@[index as int].buttons@
                && r.analog_count == self.info@[index as int].analog_count,
            index >= MAX_DEVICES ==> r.is_neutral(),
    {
        if index < MAX_DEVICES {
            let src = &self.info[index];
            ControllerInfo {
                name: copy_vec(&src.name),
                buttons: copy_vec(&src.buttons),
                analog_count: src.analog_count,
            }
        } else {
            ControllerInfo::new()
        }
    }

    /// Current state of the controller in a slot.  Total: an out-of-range
    /// slot reads as the defined neutral state.
    pub fn state(&self, index: usize) -> (r: &ControllerState)
        requires
            self.wf(),
        ensures
            index < MAX_DEVICES ==> r@ == self.state@[index as int]@,
            index >= MAX_DEVICES ==> r@.is_neutral(),
            r@.wf(),
    {
        if index < MAX_DEVICES {
            &self.state[index]
        } else {
            &self.neutral
        }
    }
}

/// Translate one raw digital snapshot through a mapping's raw-index table,
/// the way a level-triggered backend rebuilds the digital array each
/// frame: position `i` of the snapshot lands at the canonical position of
/// `mapping.buttons[i]`, later positions winning.
pub fn to_digital_state_array(mapping: &Mapping, state: &Vec<bool>) -> (r: Vec<bool>)
    requires
        mapping.wf(),
        state@.len() <= MAX_BTNS,
    ensures
        r@ == spec_fold_digital(mapping@.buttons, state@, state@.len() as int),
        r@.len() == MAX_DIGITAL,
{
    let mut out = all_false();
    let mut k: usize = 0;
    proof {
        assert(out@ =~= spec_fold_digital(mapping@.buttons, state@, 0));
    }
    while k < state.len()
        invariant
            k <= state@.len() <= MAX_BTNS,
            mapping.wf(),
            out@.len() == MAX_DIGITAL,
            out@ == spec_fold_digital(mapping@.buttons, state@, k as int),
        decreases state@.len() - k,
    {
        proof {
            assert(mapping@.buttons[k as int] != GamepadButton::Max);
        }
        let b = mapping.buttons[k];
        let bi = b.index();
        if bi < MAX_DIGITAL {
            out.set(bi, state[k]);
        }
        k = k + 1;
    }
    out
}

/// Edge detection: after a frame whose poll reports a button pressed, the
/// button reads as just pressed exactly when it was not already down
/// before the frame.  In particular a false-to-true transition reads as
/// just pressed, and a button held across both frames does not.
pub proof fn lemma_edge_detection(
    table: Seq<(usize, GamepadButton)>,
    axes: Seq<AxisInfo>,
    s: StateModel,
    raw: usize,
    b: GamepadButton,
)
    requires
        s.wf(),
        spec_find_button(table, raw) == Some(b),
        0 <= b.spec_index() < MAX_DIGITAL,
    ensures
        ({
            let s2 = spec_apply_events(table, axes, spec_begin_frame(s),
                seq![(RawEvent::Digital { raw_index: raw, pressed: true })]);
            &&& s2.spec_just_pressed(b.spec_index()) == !s.digital[b.spec_index()]
            &&& s.digital[b.spec_index()] ==> !s2.spec_just_pressed(b.spec_index())
        }),
{
    let e = RawEvent::Digital { raw_index: raw, pressed: true };
    let evs = seq![e];
    assert(evs.subrange(1, 1) =~= Seq::<RawEvent>::empty());
    let s1 = spec_begin_frame(s);
    assert(spec_apply_events(table, axes, s1, evs)
        == spec_apply_events(table, axes, spec_apply_event(table, axes, s1, e),
            evs.subrange(1, 1)));
}

/// Sequence dedupe: of two consecutive polls carrying one packet
/// sequence, the second leaves the digital and analog arrays, the status
/// and the stored sequence byte-identical, and only lets the previous
/// frame's digital state catch up -- so `digital_state_prev` lags exactly
/// one frame behind a real change; and a poll whose packet sequence was
/// already current changes nothing but that same catch-up.
pub proof fn lemma_sequence_dedupe(
    buttons: Seq<GamepadButton>,
    s: StateModel,
    packet: int,
    digital: Seq<bool>,
    analog: Seq<i32>,
)
    ensures
        ({
            let s1 = spec_apply_sequenced(buttons, s, packet, digital, analog);
            let s2 = spec_apply_sequenced(buttons, s1, packet, digital, analog);
            &&& s2.digital == s1.digital
            &&& s2.analog == s1.analog
            &&& s2.status == s1.status
            &&& s2.sequence == s1.sequence
            &&& s1.digital_prev == s.digital
            &&& s2.digital_prev == s1.digital
            &&& packet == s.sequence ==> s2 == s1 && s1.digital == s.digital
                && s1.analog == s.analog
        }),
{
    let s1 = spec_apply_sequenced(buttons, s, packet, digital, analog);
    let s2 = spec_apply_sequenced(buttons, s1, packet, digital, analog);
    assert(s1.sequence == packet);
    assert(s2 == spec_begin_frame(s1));
    if packet == s.sequence {
        assert(s2 =~= s1);
    }
}

} // verus!
