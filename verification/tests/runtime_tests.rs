use quad_gamepad::ControllerStatus;
use quad_gamepad::GamepadButton;
use quad_gamepad::MAX_ANALOG;
use quad_gamepad::MAX_DEVICES;
use quad_gamepad::MAX_DIGITAL;
use quad_gamepad::mapping::read_mappings_file;
use quad_gamepad::mapping::Platform;
use quad_gamepad::runtime::AxisInfo;
use quad_gamepad::runtime::ControllerContext;
use quad_gamepad::runtime::DeviceDescriptor;
use quad_gamepad::runtime::RawEvent;
use quad_gamepad::xinput::capability_buttons;
use quad_gamepad::xinput::capability_info;
use quad_gamepad::xinput::snapshot_analog;
use quad_gamepad::xinput::snapshot_digital;
use quad_gamepad::xinput::XInputCapabilities;
use quad_gamepad::xinput::XInputState;
use quad_gamepad::xinput::XINPUT_GAMEPAD_A;
use quad_gamepad::xinput::XINPUT_GAMEPAD_B;
use quad_gamepad::xinput::XINPUT_GAMEPAD_START;

fn empty_context() -> ControllerContext {
    ControllerContext::new(Vec::new())
}

fn simple_descriptor() -> DeviceDescriptor {
    DeviceDescriptor {
        bus: 3,
        vendor: 0x045e,
        product: 0x028e,
        version: 0x0110,
        name: b"Test Pad".to_vec(),
        digital_indices: vec![0, 1, 2],
        analog_axes: vec![
            AxisInfo { raw_index: 0, minimum: 0, maximum: 200, hat: false },
            AxisInfo { raw_index: 16, minimum: -1, maximum: 1, hat: true },
        ],
    }
}

#[test]
fn accessors_are_total_out_of_range() {
    assert_eq!(MAX_DEVICES, 8);
    let ctx = empty_context();
    let info = ctx.info(99);
    assert_eq!(info.name, b"null".to_vec());
    assert!(info.buttons.is_empty());
    assert_eq!(info.analog_count, 0);
    let state = ctx.state(99);
    assert_eq!(state.status, ControllerStatus::Disconnected);
    assert_eq!(state.sequence, 0);
    assert_eq!(state.digital_state, vec![false; MAX_DIGITAL]);
    assert_eq!(state.digital_state_prev, vec![false; MAX_DIGITAL]);
    assert_eq!(state.analog_state, vec![0i32; MAX_ANALOG]);
}

#[test]
fn slots_start_neutral() {
    let ctx = empty_context();
    for i in 0..MAX_DEVICES {
        assert_eq!(ctx.state(i).status, ControllerStatus::Disconnected);
        assert!(ctx.info(i).buttons.is_empty());
    }
}

#[test]
fn connect_builds_info_from_default_mapping() {
    let mut ctx = empty_context();
    ctx.connect(0, &simple_descriptor());
    let info = ctx.info(0);
    assert_eq!(info.name, b"Test Pad".to_vec());
    // no database entry: raw indices follow the default order
    assert_eq!(
        info.buttons,
        vec![GamepadButton::A, GamepadButton::B, GamepadButton::X]
    );
    assert_eq!(info.analog_count, 2);
    let state = ctx.state(0);
    assert_eq!(state.status, ControllerStatus::Connected);
    assert_eq!(state.sequence, 0);
    assert_eq!(state.digital_state, vec![false; MAX_DIGITAL]);
}

#[test]
fn connect_resolves_database_mapping() {
    // the GUID of (bus 3, vendor 0x045e, product 0x028e, version 0x0110)
    let text = b"030000005e0400008e02000010010000,XBox Pad,a:b1,b:b0";
    let db = read_mappings_file(text, Platform::Linux);
    let mut ctx = ControllerContext::new(db);
    ctx.connect(0, &simple_descriptor());
    let info = ctx.info(0);
    // raw index 0 carries B, raw index 1 carries A; the line assigned
    // nothing to raw index 2, so it reads Unknown
    assert_eq!(
        info.buttons,
        vec![GamepadButton::B, GamepadButton::A, GamepadButton::Unknown]
    );
}

#[test]
fn connect_out_of_range_is_a_no_op() {
    let mut ctx = empty_context();
    ctx.connect(99, &simple_descriptor());
    for i in 0..MAX_DEVICES {
        assert_eq!(ctx.state(i).status, ControllerStatus::Disconnected);
    }
}

#[test]
fn edge_detection_just_pressed() {
    let mut ctx = empty_context();
    ctx.connect(0, &simple_descriptor());
    ctx.update_queued(0, &vec![RawEvent::Digital { raw_index: 0, pressed: true }]);
    let state = ctx.state(0);
    let a = GamepadButton::A.index();
    assert!(state.digital_state[a]);
    assert!(!state.digital_state_prev[a]);
    assert!(state.just_pressed(GamepadButton::A));
}

#[test]
fn edge_detection_held_button_is_not_just_pressed() {
    let mut ctx = empty_context();
    ctx.connect(0, &simple_descriptor());
    let press = vec![RawEvent::Digital { raw_index: 0, pressed: true }];
    ctx.update_queued(0, &press);
    ctx.update_queued(0, &press);
    let state = ctx.state(0);
    let a = GamepadButton::A.index();
    assert!(state.digital_state[a]);
    assert!(state.digital_state_prev[a]);
    assert!(!state.just_pressed(GamepadButton::A));
}

#[test]
fn queued_events_last_write_wins() {
    let mut ctx = empty_context();
    ctx.connect(0, &simple_descriptor());
    ctx.update_queued(0, &vec![
        RawEvent::Digital { raw_index: 0, pressed: true },
        RawEvent::Digital { raw_index: 0, pressed: false },
        RawEvent::Digital { raw_index: 1, pressed: true },
    ]);
    let state = ctx.state(0);
    assert!(!state.digital_state[GamepadButton::A.index()]);
    assert!(state.digital_state[GamepadButton::B.index()]);
}

#[test]
fn unknown_raw_index_is_ignored() {
    let mut ctx = empty_context();
    ctx.connect(0, &simple_descriptor());
    ctx.update_queued(0, &vec![
        RawEvent::Digital { raw_index: 77, pressed: true },
        RawEvent::Analog { raw_index: 77, value: 5 },
    ]);
    let state = ctx.state(0);
    assert_eq!(state.digital_state, vec![false; MAX_DIGITAL]);
    assert_eq!(state.analog_state, vec![0i32; MAX_ANALOG]);
}

#[test]
fn analog_normalization_extremes_and_midpoint() {
    let mut ctx = empty_context();
    ctx.connect(0, &simple_descriptor());
    // the tracked axis reports over [0, 200]
    ctx.update_queued(0, &vec![RawEvent::Analog { raw_index: 0, value: 0 }]);
    assert_eq!(ctx.state(0).analog_state[0], -32768);
    ctx.update_queued(0, &vec![RawEvent::Analog { raw_index: 0, value: 200 }]);
    assert_eq!(ctx.state(0).analog_state[0], 32768);
    ctx.update_queued(0, &vec![RawEvent::Analog { raw_index: 0, value: 100 }]);
    assert_eq!(ctx.state(0).analog_state[0], 0);
}

#[test]
fn hat_axis_passes_through_unscaled() {
    let mut ctx = empty_context();
    ctx.connect(0, &simple_descriptor());
    ctx.update_queued(0, &vec![RawEvent::Analog { raw_index: 16, value: -1 }]);
    assert_eq!(ctx.state(0).analog_state[1], -32768);
    ctx.update_queued(0, &vec![RawEvent::Analog { raw_index: 16, value: 0 }]);
    assert_eq!(ctx.state(0).analog_state[1], 0);
    ctx.update_queued(0, &vec![RawEvent::Analog { raw_index: 16, value: 1 }]);
    assert_eq!(ctx.state(0).analog_state[1], 32768);
}

#[test]
fn disconnect_event_freezes_last_known_state() {
    let mut ctx = empty_context();
    ctx.connect(0, &simple_descriptor());
    ctx.update_queued(0, &vec![RawEvent::Digital { raw_index: 0, pressed: true }]);
    ctx.update_queued(0, &vec![RawEvent::Disconnected]);
    let state = ctx.state(0);
    assert_eq!(state.status, ControllerStatus::Disconnected);
    // the last-known digital state stays readable
    assert!(state.digital_state[GamepadButton::A.index()]);
}

#[test]
fn disconnect_is_idempotent() {
    let mut ctx = empty_context();
    ctx.connect(0, &simple_descriptor());
    ctx.disconnect(0);
    assert_eq!(ctx.state(0).status, ControllerStatus::Disconnected);
    ctx.disconnect(0);
    assert_eq!(ctx.state(0).status, ControllerStatus::Disconnected);
    ctx.disconnect(99);
}

#[test]
fn snapshot_overwrites_every_tracked_element() {
    let mut ctx = empty_context();
    ctx.connect(0, &simple_descriptor());
    ctx.update_snapshot(0, &vec![true, false, true], &vec![17, -40000]);
    let state = ctx.state(0);
    assert!(state.digital_state[GamepadButton::A.index()]);
    assert!(!state.digital_state[GamepadButton::B.index()]);
    assert!(state.digital_state[GamepadButton::X.index()]);
    assert_eq!(state.analog_state[0], 17);
    // out-of-scale samples are held at the scale
    assert_eq!(state.analog_state[1], -32768);
    // untracked analog positions read centered
    assert_eq!(state.analog_state[2], 0);
    // a second snapshot releasing a button overwrites it
    ctx.update_snapshot(0, &vec![false, false, true], &vec![0, 0]);
    assert!(!ctx.state(0).digital_state[GamepadButton::A.index()]);
}

#[test]
fn sequence_dedupe_leaves_state_byte_identical() {
    let mut ctx = empty_context();
    ctx.connect(0, &simple_descriptor());
    // a real change under packet 1
    ctx.update_sequenced(0, 1, &vec![true, false, false], &vec![5]);
    let first = ctx.state(0).clone();
    assert_eq!(first.sequence, 1);
    assert!(first.digital_state[GamepadButton::A.index()]);
    // prev lags exactly one frame behind the change
    assert!(!first.digital_state_prev[GamepadButton::A.index()]);
    // the same packet again: digital and analog stay byte-identical, prev
    // catches up
    ctx.update_sequenced(0, 1, &vec![false, false, false], &vec![99]);
    let second = ctx.state(0).clone();
    assert_eq!(second.digital_state, first.digital_state);
    assert_eq!(second.analog_state, first.analog_state);
    assert_eq!(second.sequence, first.sequence);
    assert_eq!(second.digital_state_prev, first.digital_state);
    // and a third poll with the same packet changes nothing at all
    ctx.update_sequenced(0, 1, &vec![false, false, false], &vec![99]);
    let third = ctx.state(0);
    assert_eq!(third.digital_state, second.digital_state);
    assert_eq!(third.digital_state_prev, second.digital_state_prev);
    assert_eq!(third.analog_state, second.analog_state);
    assert_eq!(third.sequence, second.sequence);
    assert_eq!(third.status, second.status);
}

#[test]
fn new_packet_applies_the_snapshot() {
    let mut ctx = empty_context();
    ctx.connect(0, &simple_descriptor());
    ctx.update_sequenced(0, 1, &vec![true, false, false], &vec![5]);
    ctx.update_sequenced(0, 2, &vec![false, true, false], &vec![7]);
    let state = ctx.state(0);
    assert_eq!(state.sequence, 2);
    assert!(!state.digital_state[GamepadButton::A.index()]);
    assert!(state.digital_state[GamepadButton::B.index()]);
    assert_eq!(state.analog_state[0], 7);
    // prev holds the packet-1 frame
    assert!(state.digital_state_prev[GamepadButton::A.index()]);
}

#[test]
fn reconnect_resets_state_and_rebuilds_info() {
    let mut ctx = empty_context();
    ctx.connect(0, &simple_descriptor());
    ctx.update_queued(0, &vec![RawEvent::Digital { raw_index: 0, pressed: true }]);
    ctx.disconnect(0);
    ctx.connect(0, &simple_descriptor());
    let state = ctx.state(0);
    assert_eq!(state.status, ControllerStatus::Connected);
    assert_eq!(state.digital_state, vec![false; MAX_DIGITAL]);
    assert_eq!(state.analog_state, vec![0i32; MAX_ANALOG]);
}

#[test]
fn degenerate_axis_range_is_not_tracked() {
    let mut ctx = empty_context();
    let desc = DeviceDescriptor {
        bus: 3,
        vendor: 1,
        product: 1,
        version: 1,
        name: b"pad".to_vec(),
        digital_indices: vec![0],
        analog_axes: vec![
            AxisInfo { raw_index: 0, minimum: 5, maximum: 5, hat: false },
            AxisInfo { raw_index: 1, minimum: 0, maximum: 10, hat: false },
        ],
    };
    ctx.connect(0, &desc);
    // only the usable axis is tracked, at analog position 0
    assert_eq!(ctx.info(0).analog_count, 1);
    ctx.update_queued(0, &vec![RawEvent::Analog { raw_index: 1, value: 10 }]);
    assert_eq!(ctx.state(0).analog_state[0], 32768);
}

#[test]
fn sequenced_backend_composes_with_capability_order() {
    let caps = XInputCapabilities {
        sub_type: 0x01,
        w_buttons: XINPUT_GAMEPAD_A | XINPUT_GAMEPAD_B | XINPUT_GAMEPAD_START,
        left_trigger: 0,
        right_trigger: 0,
        thumb_lx: 1,
        thumb_ly: 1,
        thumb_rx: 1,
        thumb_ry: 1,
    };
    let info = capability_info(&caps);
    let (buttons, masks) = capability_buttons(caps.w_buttons);
    let mut ctx = empty_context();
    ctx.connect_with_buttons(0, &info.name, &buttons, info.analog_count);
    assert_eq!(ctx.info(0).name, b"XBOX360 gamepad controller".to_vec());
    assert_eq!(ctx.info(0).buttons, buttons);
    assert_eq!(ctx.info(0).analog_count, 4);

    // a snapshot sampled in capability order lands on those buttons
    let state = XInputState {
        packet: 1,
        w_buttons: XINPUT_GAMEPAD_B | XINPUT_GAMEPAD_START,
        left_trigger: 0,
        right_trigger: 0,
        thumb_lx: -32768,
        thumb_ly: 32767,
        thumb_rx: 0,
        thumb_ry: 0,
    };
    let digital = snapshot_digital(&masks, state.w_buttons);
    let analog = snapshot_analog(&state);
    ctx.update_sequenced(0, state.packet, &digital, &analog);
    let slot = ctx.state(0);
    assert!(!slot.digital_state[GamepadButton::A.index()]);
    assert!(slot.digital_state[GamepadButton::B.index()]);
    assert!(slot.digital_state[GamepadButton::Start.index()]);
    assert_eq!(slot.analog_state[0], -32768);
    assert_eq!(slot.analog_state[1], 32768);
    assert_eq!(slot.sequence, 1);

    // the same packet again is a no-op apart from the prev catch-up
    ctx.update_sequenced(0, 1, &vec![false, false, false], &vec![0, 0, 0, 0]);
    let slot = ctx.state(0);
    assert!(slot.digital_state[GamepadButton::B.index()]);
    assert!(slot.digital_state_prev[GamepadButton::B.index()]);
    assert_eq!(slot.analog_state[0], -32768);
}

#[test]
fn connect_with_buttons_out_of_range_is_a_no_op() {
    let mut ctx = empty_context();
    ctx.connect_with_buttons(99, &b"pad".to_vec(), &vec![GamepadButton::A], 0);
    for i in 0..MAX_DEVICES {
        assert_eq!(ctx.state(i).status, ControllerStatus::Disconnected);
    }
}
