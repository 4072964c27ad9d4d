//! The HID device model of the callback-pump backend: elements classified
//! by usage page and usage, deduplicated by cookie, ordered by usage, and
//! axis samples rescaled from the element's observed reporting range.
//!
//! The run-loop pumping, property queries and value reads that feed this
//! model are I/O and live outside the crate; it receives each element's
//! scalars (page, usage, cookie, reported range) and each sample as plain
//! values.
use vstd::prelude::*;

verus! {

use vstd::seq_lib::to_multiset_insert;
use vstd::arithmetic::div_mod::lemma_div_is_ordered;
use vstd::arithmetic::div_mod::lemma_div_multiples_vanish;

use crate::io_kit::kHIDPage_Button;
use crate::io_kit::kHIDPage_Consumer;
use crate::io_kit::kHIDPage_GenericDesktop;
use crate::io_kit::kHIDUsage_GD_Dial;
use crate::io_kit::kHIDUsage_GD_DPadDown;
use crate::io_kit::kHIDUsage_GD_DPadLeft;
use crate::io_kit::kHIDUsage_GD_DPadRight;
use crate::io_kit::kHIDUsage_GD_DPadUp;
use crate::io_kit::kHIDUsage_GD_Hatswitch;
use crate::io_kit::kHIDUsage_GD_Rx;
use crate::io_kit::kHIDUsage_GD_Ry;
use crate::io_kit::kHIDUsage_GD_Rz;
use crate::io_kit::kHIDUsage_GD_Select;
use crate::io_kit::kHIDUsage_GD_Slider;
use crate::io_kit::kHIDUsage_GD_Start;
use crate::io_kit::kHIDUsage_GD_SystemMainMenu;
use crate::io_kit::kHIDUsage_GD_Wheel;
use crate::io_kit::kHIDUsage_GD_X;
use crate::io_kit::kHIDUsage_GD_Y;
use crate::io_kit::kHIDUsage_GD_Z;

/// Failure to bring the HID subsystem up; fatal to runtime construction.
#[derive(Debug)]
pub enum Error {
    Unknown(String),
}

/// One input element of a HID device: its usage page and usage, the cookie
/// that identifies it on the device, and the logical reporting range
/// observed for it so far.
#[derive(Debug, Clone, Copy, PartialEq, Eq, Structural)]
pub struct HIDElement {
    pub usage: u32,
    pub page: u32,
    pub cookie: u32,
    pub min_report: i32,
    pub max_report: i32,
}

/// Where an element belongs in the device model.
#[derive(Debug, Clone, Copy, PartialEq, Eq, Structural)]
pub enum ElementClass {
    Axis,
    Hat,
    Button,
    Ignored,
}

/// How a usage page and usage classify an element: the generic-desktop
/// axes are axes, the hat switch is a hat, the d-pad, start/select and
/// system-menu usages and everything on the button and consumer pages are
/// buttons, and the rest is ignored.
pub open spec fn spec_classify(page: u32, usage: u32) -> ElementClass {
    if page == kHIDPage_GenericDesktop {
        if usage == kHIDUsage_GD_X || usage == kHIDUsage_GD_Y || usage == kHIDUsage_GD_Z
            || usage == kHIDUsage_GD_Rx || usage == kHIDUsage_GD_Ry || usage == kHIDUsage_GD_Rz
            || usage == kHIDUsage_GD_Slider || usage == kHIDUsage_GD_Dial
            || usage == kHIDUsage_GD_Wheel {
            ElementClass::Axis
        } else if usage == kHIDUsage_GD_Hatswitch {
            ElementClass::Hat
        } else if usage == kHIDUsage_GD_DPadUp || usage == kHIDUsage_GD_DPadDown
            || usage == kHIDUsage_GD_DPadRight || usage == kHIDUsage_GD_DPadLeft
            || usage == kHIDUsage_GD_Start || usage == kHIDUsage_GD_Select
            || usage == kHIDUsage_GD_SystemMainMenu {
            ElementClass::Button
        } else {
            ElementClass::Ignored
        }
    } else if page == kHIDPage_Button || page == kHIDPage_Consumer {
        ElementClass::Button
    } else {
        ElementClass::Ignored
    }
}

/// Classify one element by its usage page and usage.
pub fn classify(page: u32, usage: u32) -> (r: ElementClass)
    ensures
        r == spec_classify(page, usage),
{
    if page == kHIDPage_GenericDesktop {
        if usage == kHIDUsage_GD_X || usage == kHIDUsage_GD_Y || usage == kHIDUsage_GD_Z
            || usage == kHIDUsage_GD_Rx || usage == kHIDUsage_GD_Ry || usage == kHIDUsage_GD_Rz
            || usage == kHIDUsage_GD_Slider || usage == kHIDUsage_GD_Dial
            || usage == kHIDUsage_GD_Wheel {
            ElementClass::Axis
        } else if usage == kHIDUsage_GD_Hatswitch {
            ElementClass::Hat
        } else if usage == kHIDUsage_GD_DPadUp || usage == kHIDUsage_GD_DPadDown
            || usage == kHIDUsage_GD_DPadRight || usage == kHIDUsage_GD_DPadLeft
            || usage == kHIDUsage_GD_Start || usage == kHIDUsage_GD_Select
            || usage == kHIDUsage_GD_SystemMainMenu {
            ElementClass::Button
        } else {
            ElementClass::Ignored
        }
    } else if page == kHIDPage_Button || page == kHIDPage_Consumer {
        ElementClass::Button
    } else {
        ElementClass::Ignored
    }
}

/// Whether a device's primary usage page and usage make it a joystick-like
/// device: a generic-desktop joystick, game pad or multi-axis controller.
/// Everything else (keyboards, mice) is filtered out at enumeration.
pub open spec fn spec_is_joystick(page: i32, usage: i32) -> bool {
    &&& page == kHIDPage_GenericDesktop as i32
    &&& (usage == crate::io_kit::kHIDUsage_GD_Joystick as i32
        || usage == crate::io_kit::kHIDUsage_GD_GamePad as i32
        || usage == crate::io_kit::kHIDUsage_GD_MultiAxisController as i32)
}

/// Whether a device's primary usage page and usage make it a joystick-like
/// device worth opening.
pub fn is_joystick_device(page: i32, usage: i32) -> (r: bool)
    ensures
        r == spec_is_joystick(page, usage),
{
    page == kHIDPage_GenericDesktop as i32
        && (usage == crate::io_kit::kHIDUsage_GD_Joystick as i32
            || usage == crate::io_kit::kHIDUsage_GD_GamePad as i32
            || usage == crate::io_kit::kHIDUsage_GD_MultiAxisController as i32)
}

/// The mathematical model of a [`Device`].
#[verifier::ext_equal]
pub struct DeviceModel {
    pub name: Seq<u8>,
    pub guid: Seq<u8>,
    pub axes: Seq<HIDElement>,
    pub hats: Seq<HIDElement>,
    pub buttons: Seq<HIDElement>,
}

/// One HID device's record: its identity and its elements, grouped by
/// class.
#[derive(Debug)]
pub struct Device {
    pub name: Vec<u8>,
    pub guid: Vec<u8>,
    pub axes: Vec<HIDElement>,
    pub hats: Vec<HIDElement>,
    pub buttons: Vec<HIDElement>,
}

impl View for Device {
    type V = DeviceModel;

    open spec fn view(&self) -> DeviceModel {
        DeviceModel {
            name: self.name@,
            guid: self.guid@,
            axes: self.axes@,
            hats: self.hats@,
            buttons: self.buttons@,
        }
    }
}

impl DeviceModel {
    /// Whether some element of the device already carries this cookie.
    pub open spec fn contains_cookie(self, cookie: u32) -> bool {
        (exists|i: int| 0 <= i < self.axes.len() && (#[trigger] self.axes[i]).cookie == cookie)
            || (exists|i: int| 0 <= i < self.hats.len()
                && (#[trigger] self.hats[i]).cookie == cookie)
            || (exists|i: int| 0 <= i < self.buttons.len()
                && (#[trigger] self.buttons[i]).cookie == cookie)
    }
}

/// The device after one element is offered to it: a duplicate cookie or an
/// unclassifiable element changes nothing, anything else joins its class's
/// list.
pub open spec fn spec_add_element(d: DeviceModel, e: HIDElement) -> DeviceModel {
    if d.contains_cookie(e.cookie) {
        d
    } else {
        match spec_classify(e.page, e.usage) {
            ElementClass::Axis => DeviceModel { axes: d.axes.push(e), ..d },
            ElementClass::Hat => DeviceModel { hats: d.hats.push(e), ..d },
            ElementClass::Button => DeviceModel { buttons: d.buttons.push(e), ..d },
            ElementClass::Ignored => d,
        }
    }
}

/// The device after a list of elements is offered to it in order.
pub open spec fn spec_add_elements(d: DeviceModel, elems: Seq<HIDElement>) -> DeviceModel
    decreases elems.len(),
{
    if elems.len() == 0 {
        d
    } else {
        spec_add_elements(spec_add_element(d, elems[0]), elems.subrange(1, elems.len() as int))
    }
}

impl Device {
    /// A device with no elements yet.
    pub fn new(name: Vec<u8>, guid: Vec<u8>) -> (r: Device)
        ensures
            r@ == (DeviceModel {
                name: name@,
                guid: guid@,
                axes: Seq::empty(),
                hats: Seq::empty(),
                buttons: Seq::empty(),
            }),
    {
        let r = Device {
            name,
            guid,
            axes: Vec::new(),
            hats: Vec::new(),
            buttons: Vec::new(),
        };
        proof {
            assert(r@.axes =~= Seq::<HIDElement>::empty());
            assert(r@.hats =~= Seq::<HIDElement>::empty());
            assert(r@.buttons =~= Seq::<HIDElement>::empty());
        }
        r
    }

    /// Whether some element of the device already carries this cookie.
    pub fn contain_element(&self, cookie: u32) -> (r: bool)
        ensures
            r == self@.contains_cookie(cookie),
    {
        let mut i: usize = 0;
        while i < self.axes.len()
            invariant
                i <= self.axes@.len(),
                forall|j: int| 0 <= j < i ==> (#[trigger] self.axes@[j]).cookie != cookie,
            decreases self.axes@.len() - i,
        {
            if self.axes[i].cookie == cookie {
                proof {
                    assert(self@.axes[i as int].cookie == cookie);
                }
                return true;
            }
            i = i + 1;
        }
        let mut i: usize = 0;
        while i < self.hats.len()
            invariant
                i <= self.hats@.len(),
                forall|j: int| 0 <= j < i ==> (#[trigger] self.hats@[j]).cookie != cookie,
            decreases self.hats@.len() - i,
        {
            if self.hats[i].cookie == cookie {
                proof {
                    assert(self@.hats[i as int].cookie == cookie);
                }
                return true;
            }
            i = i + 1;
        }
        let mut i: usize = 0;
        while i < self.buttons.len()
            invariant
                i <= self.buttons@.len(),
                forall|j: int| 0 <= j < i ==> (#[trigger] self.buttons@[j]).cookie != cookie,
            decreases self.buttons@.len() - i,
        {
            if self.buttons[i].cookie == cookie {
                proof {
                    assert(self@.buttons[i as int].cookie == cookie);
                }
                return true;
            }
            i = i + 1;
        }
        false
    }

    /// Offer one element to the device: a duplicate cookie or an
    /// unclassifiable element is dropped, anything else joins its class.
    pub fn add_element(&mut self, e: HIDElement)
        ensures
            final(self)@ == spec_add_element(old(self)@, e),
    {
        if self.contain_element(e.cookie) {
            return;
        }
        match classify(e.page, e.usage) {
            ElementClass::Axis => self.axes.push(e),
            ElementClass::Hat => self.hats.push(e),
            ElementClass::Button => self.buttons.push(e),
            ElementClass::Ignored => {},
        }
    }

    /// Offer a list of elements to the device in order.
    pub fn add_elements(&mut self, elems: &Vec<HIDElement>)
        ensures
            final(self)@ == spec_add_elements(old(self)@, elems@),
    {
        let mut i: usize = 0;
        proof {
            assert(elems@.subrange(0, elems@.len() as int) =~= elems@);
        }
        while i < elems.len()
            invariant
                i <= elems@.len(),
                spec_add_elements(old(self)@, elems@) == spec_add_elements(self@,
                    elems@.subrange(i as int, elems@.len() as int)),
            decreases elems@.len() - i,
        {
            proof {
                let rest = elems@.subrange(i as int, elems@.len() as int);
                assert(rest[0] == elems@[i as int]);
                assert(rest.subrange(1, rest.len() as int)
                    =~= elems@.subrange(i + 1, elems@.len() as int));
            }
            self.add_element(elems[i]);
            i = i + 1;
        }
        proof {
            assert(elems@.subrange(i as int, elems@.len() as int)
                =~= Seq::<HIDElement>::empty());
        }
    }
}

/// Sort elements by usage: the result holds the same elements, ordered by
/// their usage.
pub fn sort_by_usage(v: &mut Vec<HIDElement>)
    ensures
        final(v)@.len() == old(v)@.len(),
        final(v)@.to_multiset() == old(v)@.to_multiset(),
        forall|a: int, b: int| 0 <= a < b < final(v)@.len()
            ==> final(v)@[a].usage <= final(v)@[b].usage,
{
    if v.len() < 2 {
        return;
    }
    let mut i: usize = 1;
    while i < v.len()
        invariant
            1 <= i <= v@.len(),
            v@.len() == old(v)@.len(),
            v@.to_multiset() == old(v)@.to_multiset(),
            forall|a: int, b: int| 0 <= a < b < i ==> v@[a].usage <= v@[b].usage,
        decreases v@.len() - i,
    {
        let ghost pre = v@;
        let x = v.remove(i);
        proof {
            broadcast use vstd::multiset::group_multiset_axioms;
            assert(pre[i as int] == x);
            vstd::seq_lib::to_multiset_remove(pre, i as int);
        }
        let mut k: usize = 0;
        while k < i && v[k].usage <= x.usage
            invariant
                k <= i,
                i < pre.len(),
                v@ == pre.remove(i as int),
                v@.len() == pre.len() - 1,
                forall|a: int| 0 <= a < k ==> v@[a].usage <= x.usage,
            decreases i - k,
        {
            k = k + 1;
        }
        proof {
            // everything at and after the insertion point exceeds the
            // moving element
            assert forall|a: int| k <= a < i implies x.usage < v@[a].usage by {
                assert(v@[k as int].usage <= v@[a].usage);
            }
        }
        v.insert(k, x);
        proof {
            broadcast use vstd::multiset::group_multiset_axioms;
            to_multiset_insert(pre.remove(i as int), k as int, x);
            assert(v@.to_multiset() == pre.to_multiset().remove(x).insert(x));
            assert(pre.contains(x));
            pre.to_multiset_ensures();
            assert(pre.to_multiset().count(x) > 0);
            assert(v@.to_multiset() =~= pre.to_multiset());
        }
        i = i + 1;
    }
}

/// The rescaled value of one raw axis sample: its position inside the
/// element's observed reporting range, mapped onto the device scale
/// `[min, max]`.
pub open spec fn spec_rescale(state: int, min_report: int, max_report: int, min: int, max: int)
    -> int {
    (state - min_report) * (max - min) / (max_report - min_report) + min
}

/// Rescale one raw axis sample from the element's observed reporting range
/// onto the device scale.
pub fn rescale_axis(state: i32, min_report: i32, max_report: i32, min: i32, max: i32)
    -> (r: i32)
    requires
        min_report < max_report,
        min_report <= state <= max_report,
        -32768 <= min <= max <= 32767,
    ensures
        r == spec_rescale(state as int, min_report as int, max_report as int, min as int,
            max as int),
        min <= r <= max,
{
    let offset: u64 = ((state as i64) - (min_report as i64)) as u64;
    let span: u64 = ((max_report as i64) - (min_report as i64)) as u64;
    let scale: u64 = ((max as i64) - (min as i64)) as u64;
    proof {
        assert(offset * scale <= 0x1_0000_0000 * 0x10000) by (nonlinear_arith)
            requires
                0 <= offset <= 0x1_0000_0000,
                0 <= scale <= 0x10000,
        ;
    }
    let q: u64 = offset * scale / span;
    proof {
        lemma_rescale_bounds(offset as int, scale as int, span as int);
    }
    ((q as i64) + (min as i64)) as i32
}

/// The rescaling quotient stays within the device scale.
proof fn lemma_rescale_bounds(offset: int, scale: int, span: int)
    requires
        0 < span,
        0 <= offset <= span,
        0 <= scale,
    ensures
        0 <= offset * scale / span <= scale,
{
    lemma_div_is_ordered(0, offset * scale, span);
    assert(offset * scale <= span * scale) by (nonlinear_arith)
        requires offset <= span && 0 <= scale;
    lemma_div_is_ordered(offset * scale, span * scale, span);
    lemma_div_multiples_vanish(scale, span);
    assert(span * scale == scale * span) by (nonlinear_arith);
}

/// Record one observed sample in an element's reporting range, widening it
/// when the sample falls outside (the backend's auto-calibration).
pub fn observe_report(e: &mut HIDElement, value: i32)
    ensures
        final(e).min_report == if value < old(e).min_report { value as int } else {
            old(e).min_report as int
        },
        final(e).max_report == if value > old(e).max_report { value as int } else {
            old(e).max_report as int
        },
        final(e).usage == old(e).usage,
        final(e).page == old(e).page,
        final(e).cookie == old(e).cookie,
{
    if value < e.min_report {
        e.min_report = value;
    }
    if value > e.max_report {
        e.max_report = value;
    }
}

} // verus!
