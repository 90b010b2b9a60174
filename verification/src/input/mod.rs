//! Forwarding of input from viewers.

pub mod mouse;

use crate::input::mouse::KernelEvent;
use crate::input::mouse::VirtualMouse;
use vstd::prelude::*;

verus! {

/// Input from a viewer.
#[derive(Clone, Copy, Debug, PartialEq, Eq, Structural)]
pub enum InputEvent {
    Pointer { button_mask: u8, x: u16, y: u16 },
    Key { down: bool, keysym: u32 },
}

/// What to do about input from a viewer.
#[derive(Debug)]
pub enum InputAction {
    /// Write the events to the virtual mouse.
    Mouse(Vec<KernelEvent>),
    /// Hand the key to the virtual keyboard.
    Keyboard { down: bool, keysym: u32 },
    /// Nothing: the virtual device for it is missing.
    Ignore,
}

/// The virtual devices that input goes to, as far as they could be made.
#[derive(Debug)]
pub struct InputRouter {
    pub mouse: Option<VirtualMouse>,
    pub keyboard: bool,
}

impl InputRouter {
    /// What input from a viewer leads to.
    pub open spec fn routes(
        &self,
        event: InputEvent,
        after: InputRouter,
        action: InputAction,
    ) -> bool {
        &&& after.keyboard == self.keyboard
        &&& match event {
            InputEvent::Key { down, keysym } => {
                &&& after.mouse == self.mouse
                &&& if self.keyboard {
                    action == (InputAction::Keyboard { down, keysym })
                } else {
                    action is Ignore
                }
            },
            InputEvent::Pointer { button_mask, x, y } => match self.mouse {
                None => after.mouse is None && action is Ignore,
                Some(mouse) => {
                    &&& after.mouse == Some(mouse.after_pointer(button_mask))
                    &&& action matches InputAction::Mouse(events)
                    &&& events@ == mouse.pointer_events(button_mask, x, y)
                },
            },
        }
    }

    /// Decides what to do about input from a viewer.
    pub fn input_loop(&mut self, event: InputEvent) -> (action: InputAction)
        ensures
            old(self).routes(event, *final(self), action),
            final(self).keyboard == old(self).keyboard,
            match event {
                InputEvent::Key { down, keysym } => {
                    &&& final(self).mouse == old(self).mouse
                    &&& if old(self).keyboard {
                        action == (InputAction::Keyboard { down, keysym })
                    } else {
                        action is Ignore
                    }
                },
                InputEvent::Pointer { button_mask, x, y } => match old(self).mouse {
                    None => final(self).mouse is None && action is Ignore,
                    Some(mouse) => {
                        &&& final(self).mouse == Some(mouse.after_pointer(button_mask))
                        &&& action matches InputAction::Mouse(events)
                        &&& events@ == mouse.pointer_events(button_mask, x, y)
                    },
                },
            },
    {
        match event {
            InputEvent::Pointer { button_mask, x, y } => match self.mouse.take() {
                None => InputAction::Ignore,
                Some(mut mouse) => {
                    let events: Vec<KernelEvent> = mouse.handle_pointer(button_mask, x, y);
                    self.mouse = Some(mouse);
                    InputAction::Mouse(events)
                },
            },
            InputEvent::Key { down, keysym } => {
                if self.keyboard {
                    InputAction::Keyboard { down, keysym }
                } else {
                    InputAction::Ignore
                }
            },
        }
    }
}

/// Pointer input moves the kernel's pointer: if there is a mouse, the events that are written to it
/// leave the first axis at the column and the second at the row, and the left button as the lowest
/// bit of the mask says. It never goes to the keyboard.
pub proof fn law_pointer_input_moves_the_pointer(
    router: InputRouter,
    button_mask: u8,
    x: u16,
    y: u16,
    after: InputRouter,
    action: InputAction,
)
    requires
        router.routes(InputEvent::Pointer { button_mask, x, y }, after, action),
    ensures
        router.mouse is None ==> action is Ignore && after.mouse is None,
        router.mouse is Some ==> action is Mouse && after.mouse is Some,
        action matches InputAction::Mouse(events) ==> {
            &&& crate::input::mouse::axis_after(0, 0, events@) == x
            &&& crate::input::mouse::axis_after(0, 1, events@) == y
            &&& crate::input::mouse::button_after(router.mouse->0.button_down, events@) == (
            button_mask & 1 != 0)
            &&& after.mouse->0.button_down == (button_mask & 1 != 0)
        },
        after.keyboard == router.keyboard,
{
    if router.mouse is Some {
        let mouse = router.mouse->0;
        crate::input::mouse::law_kernel_follows_the_pointer(mouse, button_mask, x, y, 0, 0);
        crate::input::mouse::law_kernel_follows_the_button(mouse, button_mask, x, y);
        crate::input::mouse::law_left_button_is_the_lowest_bit(mouse, button_mask, x, y);
    }
}

/// Key input goes to the keyboard, if there is one, as it came, and never to the mouse.
pub proof fn law_key_input_goes_to_the_keyboard(
    router: InputRouter,
    down: bool,
    keysym: u32,
    after: InputRouter,
    action: InputAction,
)
    requires
        router.routes(InputEvent::Key { down, keysym }, after, action),
    ensures
        after == router,
        router.keyboard <==> action is Keyboard,
        !router.keyboard ==> action is Ignore,
        action matches InputAction::Keyboard { down: d, keysym: k } ==> d == down && k == keysym,
{
}

} // verus!
