//! A virtual mouse.

use vstd::prelude::*;

verus! {

/// Event type: the events before it belong together.
pub const EV_SYN: u16 = 0x00;

/// Event type: a key or button.
pub const EV_KEY: u16 = 0x01;

/// Event type: an absolute position.
pub const EV_ABS: u16 = 0x03;

/// Code of the event that ends a report.
pub const SYN_REPORT: u16 = 0;

/// Code of the left button.
pub const BTN_LEFT: u16 = 0x110;

/// Code of the horizontal position.
pub const ABS_X: u16 = 0x00;

/// Code of the vertical position.
pub const ABS_Y: u16 = 0x01;

/// An event as the kernel takes it.
#[derive(Clone, Copy, Debug, PartialEq, Eq, Structural)]
pub struct KernelEvent {
    pub type_: u16,
    pub code: u16,
    pub value: i32,
}

/// Makes an event.
pub fn make_event(type_: u16, code: u16, value: i32) -> (event: KernelEvent)
    ensures
        event == (KernelEvent { type_, code, value }),
{
    KernelEvent { type_, code, value }
}

/// The values that a position can take.
#[derive(Clone, Copy, Debug, PartialEq, Eq, Structural)]
pub struct AxisRange {
    pub minimum: i32,
    pub maximum: i32,
}

/// What a virtual device says it is.
#[derive(Clone, Copy, Debug, PartialEq, Eq, Structural)]
pub struct DeviceId {
    pub bustype: u16,
    pub vendor: u16,
    pub product: u16,
    pub version: u16,
}

/// Virtual absolute-position mouse.
#[derive(Clone, Copy, Debug, PartialEq, Eq, Structural)]
pub struct VirtualMouse {
    pub id: DeviceId,
    pub x_axis: AxisRange,
    pub y_axis: AxisRange,
    /// Whether the left button is down.
    pub button_down: bool,
}

impl VirtualMouse {
    /// A mouse for a screen of the given size, with the button up.
    pub open spec fn for_screen(width: u32, height: u32) -> VirtualMouse {
        VirtualMouse {
            id: DeviceId { bustype: 0x06, vendor: 0x1234, product: 0x5680, version: 1 },
            x_axis: AxisRange { minimum: 0, maximum: (width as i32 - 1) as i32 },
            y_axis: AxisRange { minimum: 0, maximum: (height as i32 - 1) as i32 },
            button_down: false,
        }
    }

    /// Creates a mouse for a screen of the given size, with the button up.
    pub fn new(width: u32, height: u32) -> (mouse: Self)
        requires
            width as i32 > i32::MIN,
            height as i32 > i32::MIN,
        ensures
            mouse == (VirtualMouse {
                id: DeviceId { bustype: 0x06, vendor: 0x1234, product: 0x5680, version: 1 },
                x_axis: AxisRange { minimum: 0, maximum: (width as i32 - 1) as i32 },
                y_axis: AxisRange { minimum: 0, maximum: (height as i32 - 1) as i32 },
                button_down: false,
            }),
            mouse == VirtualMouse::for_screen(width, height),
    {
        let columns: i32 = #[verifier::truncate] (width as i32);
        let rows: i32 = #[verifier::truncate] (height as i32);
        VirtualMouse {
            id: DeviceId { bustype: 0x06, vendor: 0x1234, product: 0x5680, version: 1 },
            x_axis: AxisRange { minimum: 0, maximum: columns - 1 },
            y_axis: AxisRange { minimum: 0, maximum: rows - 1 },
            button_down: false,
        }
    }

    /// Whether a set of buttons has the left one.
    pub open spec fn left_down(button_mask: u8) -> bool {
        button_mask % 2 == 1
    }

    /// The events of a report: the position, the button if it went up or down, and the end.
    pub open spec fn pointer_events(&self, button_mask: u8, x: u16, y: u16) -> Seq<KernelEvent> {
        let down = Self::left_down(button_mask);
        seq![
            KernelEvent { type_: EV_ABS, code: ABS_X, value: x as i32 },
            KernelEvent { type_: EV_ABS, code: ABS_Y, value: y as i32 },
        ] + (if down != self.button_down {
            seq![
                KernelEvent {
                    type_: EV_KEY,
                    code: BTN_LEFT,
                    value: if down {
                        1
                    } else {
                        0
                    },
                },
            ]
        } else {
            Seq::<KernelEvent>::empty()
        }) + seq![KernelEvent { type_: EV_SYN, code: SYN_REPORT, value: 0 }]
    }

    /// The mouse after a report.
    pub open spec fn after_pointer(&self, button_mask: u8) -> VirtualMouse {
        VirtualMouse { button_down: Self::left_down(button_mask), ..*self }
    }

    /// Takes in the position of the pointer and the buttons that are down, and gives the events of
    /// the report.
    pub fn handle_pointer(&mut self, button_mask: u8, x: u16, y: u16) -> (events: Vec<KernelEvent>)
        ensures
            events@ == old(self).pointer_events(button_mask, x, y),
            *final(self) == old(self).after_pointer(button_mask),
            final(self).button_down == (button_mask & 1 != 0),
    {
        assert((button_mask & 1 != 0) == (button_mask % 2 == 1)) by (bit_vector);
        let left_down: bool = (button_mask & 1) != 0;
        let mut events: Vec<KernelEvent> = Vec::new();
        events.push(make_event(EV_ABS, ABS_X, x as i32));
        events.push(make_event(EV_ABS, ABS_Y, y as i32));
        if left_down != self.button_down {
            events.push(
                make_event(
                    EV_KEY,
                    BTN_LEFT,
                    if left_down {
                        1
                    } else {
                        0
                    },
                ),
            );
            self.button_down = left_down;
        }
        events.push(make_event(EV_SYN, SYN_REPORT, 0));
        assert(events@ =~= old(self).pointer_events(button_mask, x, y));
        events
    }
}

/// Whether the left button is down after events, if it was as given before.
pub open spec fn button_after(down: bool, events: Seq<KernelEvent>) -> bool
    decreases events.len(),
{
    if events.len() == 0 {
        down
    } else {
        let last = events.last();
        if last.type_ == EV_KEY && last.code == BTN_LEFT {
            last.value != 0
        } else {
            button_after(down, events.drop_last())
        }
    }
}

/// The mouse after reports with these buttons.
pub open spec fn after_reports(mouse: VirtualMouse, masks: Seq<u8>) -> VirtualMouse
    decreases masks.len(),
{
    if masks.len() == 0 {
        mouse
    } else {
        after_reports(mouse, masks.drop_last()).after_pointer(masks.last())
    }
}

/// The kernel and the mouse agree on the button: where the kernel holds the button as the mouse
/// does, it still does after the events of a report, and both hold it as the viewer does.
pub proof fn law_kernel_follows_the_button(mouse: VirtualMouse, button_mask: u8, x: u16, y: u16)
    ensures
        button_after(mouse.button_down, mouse.pointer_events(button_mask, x, y))
            == mouse.after_pointer(button_mask).button_down,
        mouse.after_pointer(button_mask).button_down == VirtualMouse::left_down(button_mask),
{
    let events = mouse.pointer_events(button_mask, x, y);
    reveal_with_fuel(button_after, 5);
    assert(events.drop_last().drop_last().len() >= 1);
}

/// A button is never pressed twice or released twice: a report has an event for the button exactly
/// if the button changed.
pub proof fn law_button_events_are_changes(mouse: VirtualMouse, button_mask: u8, x: u16, y: u16)
    ensures
        (exists|i: int|
            0 <= i < mouse.pointer_events(button_mask, x, y).len() && (#[trigger] mouse.pointer_events(
                button_mask,
                x,
                y,
            )[i]).type_ == EV_KEY) <==> VirtualMouse::left_down(button_mask) != mouse.button_down,
{
    let events = mouse.pointer_events(button_mask, x, y);
    if VirtualMouse::left_down(button_mask) != mouse.button_down {
        assert(events[2].type_ == EV_KEY);
    }
}

/// The mouse remembers only the last report: after any reports, the button is as in the last one.
pub proof fn law_last_report_decides(mouse: VirtualMouse, masks: Seq<u8>)
    requires
        masks.len() > 0,
    ensures
        after_reports(mouse, masks).button_down == VirtualMouse::left_down(masks.last()),
{
}

/// The left button is the lowest bit of the mask: after a report it is held down exactly if that bit
/// is set, whatever the other bits are, and the report has an event for it, which says whether it is
/// down, exactly if that changed.
pub proof fn law_left_button_is_the_lowest_bit(mouse: VirtualMouse, button_mask: u8, x: u16, y: u16)
    ensures
        ({
            let down = button_mask & 1 != 0;
            let events = mouse.pointer_events(button_mask, x, y);
            let pressed = KernelEvent { type_: 1, code: 0x110, value: 1 };
            let released = KernelEvent { type_: 1, code: 0x110, value: 0 };
            &&& mouse.after_pointer(button_mask).button_down == down
            &&& events.contains(pressed) <==> (down && !mouse.button_down)
            &&& events.contains(released) <==> (!down && mouse.button_down)
            &&& forall|i: int|
                0 <= i < events.len() ==> ((#[trigger] events[i]).type_ == 1 ==> events[i]
                    == pressed || events[i] == released)
        }),
{
    assert((button_mask & 1 != 0) == (button_mask % 2 == 1)) by (bit_vector);
    let events = mouse.pointer_events(button_mask, x, y);
    if VirtualMouse::left_down(button_mask) != mouse.button_down {
        assert(events[2].type_ == EV_KEY);
    }
}

/// The other buttons do not matter: two masks with the same lowest bit give the same report and leave
/// the mouse the same.
pub proof fn law_other_buttons_do_not_matter(
    mouse: VirtualMouse,
    one: u8,
    other: u8,
    x: u16,
    y: u16,
)
    requires
        one & 1 == other & 1,
    ensures
        mouse.pointer_events(one, x, y) == mouse.pointer_events(other, x, y),
        mouse.after_pointer(one) == mouse.after_pointer(other),
{
    assert((one & 1 != 0) == (one % 2 == 1)) by (bit_vector);
    assert((other & 1 != 0) == (other % 2 == 1)) by (bit_vector);
    assert(one % 2 == other % 2) by (bit_vector)
        requires
            one & 1 == other & 1,
    ;
}

/// Where the kernel holds an axis after events, if it was as given before.
pub open spec fn axis_after(position: int, axis: u16, events: Seq<KernelEvent>) -> int
    decreases events.len(),
{
    if events.len() == 0 {
        position
    } else {
        let last = events.last();
        if last.type_ == 3 && last.code == axis {
            last.value as int
        } else {
            axis_after(position, axis, events.drop_last())
        }
    }
}

/// The kernel's pointer goes where the viewer's is: whatever the buttons, after the events of a
/// report the first axis is at the column and the second at the row. A report is ended by one event
/// that says so, and by nothing after it.
pub proof fn law_kernel_follows_the_pointer(
    mouse: VirtualMouse,
    button_mask: u8,
    x: u16,
    y: u16,
    at_x: int,
    at_y: int,
)
    ensures
        ({
            let events = mouse.pointer_events(button_mask, x, y);
            let end = KernelEvent { type_: 0, code: 0, value: 0 };
            &&& axis_after(at_x, 0, events) == x
            &&& axis_after(at_y, 1, events) == y
            &&& events.last() == end
            &&& forall|i: int|
                0 <= i < events.len() - 1 ==> (#[trigger] events[i]).type_ != 0
        }),
{
    let events = mouse.pointer_events(button_mask, x, y);
    reveal_with_fuel(axis_after, 6);
    let one = events.drop_last();
    let two = one.drop_last();
    assert(events[0] == (KernelEvent { type_: EV_ABS, code: ABS_X, value: x as i32 }));
    assert(events[1] == (KernelEvent { type_: EV_ABS, code: ABS_Y, value: y as i32 }));
    if events.len() == 3 {
        assert(one.last() == events[1]);
        assert(two.last() == events[0]);
    } else {
        assert(one.last() == events[2]);
        assert(two.last() == events[1]);
        assert(two.drop_last().last() == events[0]);
    }
}

/// The axes of a mouse reach every pixel of its screen, and no other place: the first the columns,
/// the second the rows. Its button is up.
pub proof fn law_axes_reach_the_screen(width: u32, height: u32, x: int, y: int)
    requires
        width <= i32::MAX,
        height <= i32::MAX,
    ensures
        ({
            let mouse = VirtualMouse::for_screen(width, height);
            &&& mouse.x_axis.minimum <= x <= mouse.x_axis.maximum <==> 0 <= x < width
            &&& mouse.y_axis.minimum <= y <= mouse.y_axis.maximum <==> 0 <= y < height
            &&& !mouse.button_down
        }),
{
}

} // verus!
