//! Buttons and the light switches they operate.
use vstd::prelude::*;
use crate::ecs::component::Component;

verus! {

/// A floor button: pressed while something stands on it.
#[derive(Debug)]
pub struct Button {
    pub name: String,
    pub pressed: bool,
}

impl Component for Button {}

/// Whether `k` is the first of `buttons` named `name`.
pub open spec fn first_button(buttons: Seq<Button>, name: Seq<char>, k: int) -> bool {
    &&& 0 <= k < buttons.len()
    &&& buttons[k].name@ == name
    &&& forall|j: int| 0 <= j < k ==> (#[trigger] buttons[j]).name@ != name
}

/// Whether the button named `name` is pressed among `buttons`: the first
/// button of that name decides; where there is none, it is not.
pub open spec fn pressed_in(buttons: Seq<Button>, name: Seq<char>) -> bool {
    exists|k: int| first_button(buttons, name, k) && buttons[k].pressed
}

impl Button {
    /// Whether the button named `name` is pressed: the first button of that
    /// name decides; where there is none, it is not.
    pub fn is_pressed(buttons: &[Button], name: &str) -> (r: bool)
        ensures
            r == pressed_in(buttons@, name@),
    {
        let key: String = name.to_owned();
        let mut i: usize = 0;
        while i < buttons.len()
            invariant
                key@ == name@,
                i <= buttons@.len(),
                forall|j: int| 0 <= j < i ==> (#[trigger] buttons@[j]).name@ != name@,
            decreases buttons@.len() - i,
        {
            if buttons[i].name == key {
                proof {
                    assert(first_button(buttons@, name@, i as int));
                    assert forall|k: int| first_button(buttons@, name@, k) implies k == i by {
                        if k < i {
                            assert(buttons@[k].name@ != name@);
                        }
                        if i < k {
                            assert(buttons@[i as int].name@ != name@);
                        }
                    }
                }
                return buttons[i].pressed;
            }
            i = i + 1;
        }
        false
    }
}

/// What a light switch asks of its entity after a frame.
#[derive(Clone, Copy, Debug, PartialEq, Eq, Structural)]
pub enum SwitchAction {
    /// Give the entity a light.
    AddLight,
    /// Take the entity's light away.
    RemoveLight,
    /// Leave the entity as it is.
    Keep,
}

/// Whether the entity has a light once `a` is carried out.
pub open spec fn light_after(a: SwitchAction, had_light: bool) -> bool {
    match a {
        SwitchAction::AddLight => true,
        SwitchAction::RemoveLight => false,
        SwitchAction::Keep => had_light,
    }
}

/// What is to become of the light of a switch's entity: it is to have one
/// exactly while the switch is on.
pub open spec fn action_for(on: bool, has_light: bool) -> SwitchAction {
    if on {
        if has_light { SwitchAction::Keep } else { SwitchAction::AddLight }
    } else {
        if has_light { SwitchAction::RemoveLight } else { SwitchAction::Keep }
    }
}

/// One frame of a switch as a function of its state: `(on, was_pressed)`
/// before, the button now, the new `(on, was_pressed)`.
pub open spec fn switch_step(on: bool, was_pressed: bool, pressed: bool) -> (bool, bool) {
    (on != (pressed && !was_pressed), pressed)
}

/// A light switch: toggled by each new press of the button of its name.
pub struct LightSwitch {
    pub button_name: &'static str,
    turned_on: bool,
    old_button_state: bool,
}

impl Component for LightSwitch {}

impl LightSwitch {
    /// Whether the switch is on.
    pub closed spec fn is_on(&self) -> bool {
        self.turned_on
    }

    /// Whether the button was pressed in the previous frame.
    pub closed spec fn was_pressed(&self) -> bool {
        self.old_button_state
    }

    /// The name of the button that operates the switch.
    pub closed spec fn button(&self) -> &'static str {
        self.button_name
    }

    /// A switch that is off, operated by the button `button_name`.
    pub fn new(button_name: &'static str) -> (r: LightSwitch)
        ensures
            r.button() == button_name,
            !r.is_on(),
            !r.was_pressed(),
    {
        LightSwitch { button_name, turned_on: false, old_button_state: false }
    }

    /// Whether the switch is on.
    pub fn turned_on(&self) -> (r: bool)
        ensures
            r == self.is_on(),
    {
        self.turned_on
    }

    /// One frame of the switch, given whether its button is pressed now and
    /// whether its entity has a light: a press that was not there in the
    /// previous frame toggles the switch; then the entity is to have a light
    /// exactly while the switch is on.
    pub fn react(&mut self, is_pressed: bool, has_light: bool) -> (r: SwitchAction)
        ensures
            (final(self).is_on(), final(self).was_pressed()) == switch_step(
                old(self).is_on(),
                old(self).was_pressed(),
                is_pressed,
            ),
            final(self).button() == old(self).button(),
            light_after(r, has_light) == final(self).is_on(),
            r == action_for(final(self).is_on(), has_light),
    {
        if is_pressed && !self.old_button_state {
            self.turned_on = !self.turned_on;
        }
        self.old_button_state = is_pressed;
        if self.turned_on {
            if has_light { SwitchAction::Keep } else { SwitchAction::AddLight }
        } else {
            if has_light { SwitchAction::RemoveLight } else { SwitchAction::Keep }
        }
    }
}

impl LightSwitch {
    /// One frame of every light switch of the world.  Switch `i` reacts to
    /// the button of its name among `buttons`, its entity having a light
    /// where `lit[i]`: a new press toggles it, it remembers whether its
    /// button is pressed, and the action at `i` gives its entity a light
    /// exactly while it is on.
    pub fn update(switches: &mut Vec<LightSwitch>, buttons: &[Button], lit: &[bool]) -> (r: Vec<SwitchAction>)
        requires
            old(switches)@.len() == lit@.len(),
        ensures
            final(switches)@.len() == old(switches)@.len(),
            r@.len() == old(switches)@.len(),
            forall|i: int|
                0 <= i < old(switches)@.len() ==> {
                    let before = old(switches)@[i];
                    let after = #[trigger] final(switches)@[i];
                    &&& after.button() == before.button()
                    &&& (after.is_on(), after.was_pressed()) == switch_step(
                        before.is_on(),
                        before.was_pressed(),
                        pressed_in(buttons@, before.button()@),
                    )
                    &&& r@[i] == action_for(after.is_on(), lit@[i])
                    &&& light_after(r@[i], lit@[i]) == after.is_on()
                },
    {
        let mut r: Vec<SwitchAction> = Vec::new();
        let mut i: usize = 0;
        while i < switches.len()
            invariant
                switches@.len() == old(switches)@.len(),
                lit@.len() == old(switches)@.len(),
                i <= switches@.len(),
                r@.len() == i,
                forall|j: int|
                    0 <= j < i ==> {
                        let before = old(switches)@[j];
                        let after = #[trigger] switches@[j];
                        &&& after.button() == before.button()
                        &&& (after.is_on(), after.was_pressed()) == switch_step(
                            before.is_on(),
                            before.was_pressed(),
                            pressed_in(buttons@, before.button()@),
                        )
                        &&& r@[j] == action_for(after.is_on(), lit@[j])
                        &&& light_after(r@[j], lit@[j]) == after.is_on()
                    },
                forall|j: int| i <= j < switches@.len() ==> #[trigger] switches@[j] == old(switches)@[j],
            decreases switches@.len() - i,
        {
            let name = switches[i].button_name;
            let pressed = Button::is_pressed(buttons, name);
            let action = switches[i].react(pressed, lit[i]);
            r.push(action);
            i = i + 1;
        }
        r
    }
}

/// Holding the button down does not toggle the switch again, and neither
/// does releasing it; each new press toggles it.
pub proof fn lemma_switch_behaviour(on: bool, was_pressed: bool)
    ensures
        switch_step(on, false, true).0 == !on,
        switch_step(on, true, true).0 == on,
        switch_step(on, was_pressed, false).0 == on,
        switch_step(switch_step(on, false, true).0, true, true).0 == !on,
{
}

} // verus!
