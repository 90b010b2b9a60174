use kmsvnc::input::mouse::{
    make_event, AxisRange, DeviceId, KernelEvent, VirtualMouse, ABS_X, ABS_Y, BTN_LEFT, EV_ABS,
    EV_KEY, EV_SYN, SYN_REPORT,
};
use kmsvnc::input::{InputAction, InputEvent, InputRouter};
use kmsvnc::permissions::{
    check_permissions, has_cap_sys_admin, PermissionWarning, UinputState,
};

fn ev(type_: u16, code: u16, value: i32) -> KernelEvent {
    KernelEvent { type_, code, value }
}

#[test]
fn event_numbers_are_those_of_the_kernel() {
    assert_eq!(EV_SYN as i32, input_linux::sys::EV_SYN);
    assert_eq!(EV_KEY as i32, input_linux::sys::EV_KEY);
    assert_eq!(EV_ABS as i32, input_linux::sys::EV_ABS);
    assert_eq!(SYN_REPORT as i32, input_linux::sys::SYN_REPORT);
    assert_eq!(BTN_LEFT as i32, input_linux::sys::BTN_LEFT);
    assert_eq!(ABS_X as i32, input_linux::sys::ABS_X);
    assert_eq!(ABS_Y as i32, input_linux::sys::ABS_Y);
    assert_eq!(make_event(1, 2, -3), ev(1, 2, -3));
}

#[test]
fn mouse_covers_the_screen() {
    let mouse = VirtualMouse::new(1920, 1080);
    assert_eq!(mouse.x_axis, AxisRange { minimum: 0, maximum: 1919 });
    assert_eq!(mouse.y_axis, AxisRange { minimum: 0, maximum: 1079 });
    assert_eq!(
        mouse.id,
        DeviceId { bustype: 0x06, vendor: 0x1234, product: 0x5680, version: 1 }
    );
    assert!(!mouse.button_down);
    assert_eq!(VirtualMouse::new(0, 1).x_axis.maximum, -1);
}

#[test]
fn button_events_come_only_with_changes() {
    let mut mouse = VirtualMouse::new(100, 100);
    let at = |x, y| vec![ev(EV_ABS, ABS_X, x), ev(EV_ABS, ABS_Y, y)];
    let end = ev(EV_SYN, SYN_REPORT, 0);
    let mut expected = at(3, 4);
    expected.push(end);
    // Another button than the left one.
    assert_eq!(mouse.handle_pointer(2, 3, 4), expected);
    let mut expected = at(5, 6);
    expected.push(ev(EV_KEY, BTN_LEFT, 1));
    expected.push(end);
    assert_eq!(mouse.handle_pointer(3, 5, 6), expected);
    assert!(mouse.button_down);
    let mut expected = at(65535, 0);
    expected.push(end);
    assert_eq!(mouse.handle_pointer(1, 65535, 0), expected);
    let mut expected = at(1, 1);
    expected.push(ev(EV_KEY, BTN_LEFT, 0));
    expected.push(end);
    assert_eq!(mouse.handle_pointer(0, 1, 1), expected);
    assert!(!mouse.button_down);
}

#[test]
fn input_goes_to_the_devices_that_are_there() {
    let mut router = InputRouter { mouse: Some(VirtualMouse::new(10, 10)), keyboard: true };
    match router.input_loop(InputEvent::Pointer { button_mask: 1, x: 2, y: 3 }) {
        InputAction::Mouse(events) => assert_eq!(events.len(), 4),
        other => panic!("{other:?}"),
    }
    assert!(router.mouse.unwrap().button_down);
    match router.input_loop(InputEvent::Key { down: true, keysym: 0xff0d }) {
        InputAction::Keyboard { down: true, keysym: 0xff0d } => {}
        other => panic!("{other:?}"),
    }
    let mut router = InputRouter { mouse: None, keyboard: false };
    assert!(matches!(
        router.input_loop(InputEvent::Pointer { button_mask: 1, x: 2, y: 3 }),
        InputAction::Ignore
    ));
    assert!(matches!(
        router.input_loop(InputEvent::Key { down: true, keysym: 1 }),
        InputAction::Ignore
    ));
}

#[test]
fn capability_is_found_in_the_status() {
    let root = "Name:\tx\nCapPrm:\t0000000000000000\nCapEff:\t000001ffffffffff\nCapBnd:\t0\n";
    assert!(has_cap_sys_admin(Some(root)));
    assert!(has_cap_sys_admin(Some("CapEff:\t0000000000200000")));
    assert!(has_cap_sys_admin(Some("CapEff:\t  +200000 \r\nrest")));
    assert!(has_cap_sys_admin(Some("CapEff:\tFFFFFFFFFFFFFFFF")));
}

#[test]
fn capability_is_missing() {
    assert!(!has_cap_sys_admin(None));
    assert!(!has_cap_sys_admin(Some("")));
    assert!(!has_cap_sys_admin(Some("CapEff:\t0000000000000000\n")));
    assert!(!has_cap_sys_admin(Some("CapEff:\tffffffffffdfffff\n")));
    assert!(!has_cap_sys_admin(Some(" CapEff:\t000001ffffffffff\n")));
    assert!(!has_cap_sys_admin(Some("CapEff: 000001ffffffffff\n")));
    assert!(!has_cap_sys_admin(Some("CapEff:\t\n")));
    assert!(!has_cap_sys_admin(Some("CapEff:\t+\n")));
    assert!(!has_cap_sys_admin(Some("CapEff:\txyz\n")));
    assert!(!has_cap_sys_admin(Some("CapEff:\t1ffffffffffffffff\n")));
    // The first matching line decides.
    assert!(!has_cap_sys_admin(Some("CapEff:\tzz\nCapEff:\t200000\n")));
}

#[test]
fn warnings_follow_permissions() {
    assert_eq!(check_permissions(true, UinputState::Usable), vec![]);
    assert_eq!(
        check_permissions(false, UinputState::Missing),
        vec![PermissionWarning::NoSysAdmin, PermissionWarning::UinputMissing]
    );
    assert_eq!(check_permissions(true, UinputState::NotWritable), vec![PermissionWarning::UinputNotWritable]);
}
