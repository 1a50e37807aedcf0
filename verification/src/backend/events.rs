//! What the events of a run lead to.
use vstd::prelude::*;

use super::keys::{key_of, JoyKey, PadButton};
use super::session::Session;
use super::stall_watchdog::Stage;
use super::watch::GyroData;
use crate::time::Instant;

verus! {

/// An event, as far as a run minds it.
#[derive(Debug, Clone, Copy, PartialEq, Eq, Structural)]
pub enum PumpEvent {
    Quit,
    Escape,
    DeviceAdded { index: u32 },
    DeviceRemoved { which: u32 },
    ButtonDown { which: u32, button: PadButton },
    ButtonUp { which: u32, button: PadButton },
    /// With the reading where it is the gyroscope's.
    SensorUpdated { which: u32, gyro: Option<GyroData> },
    Other,
}

/// What is to be done about an event. Controllers are given by where they are
/// among the open ones.
#[derive(Debug, Clone, Copy, PartialEq, Eq, Structural)]
pub enum EventStep {
    /// End the run.
    Quit,
    /// Open the device with this index.
    Open { index: u32 },
    /// Close the controller, once its engine has released what it holds.
    Close { i: usize },
    KeyDown { i: usize, key: JoyKey },
    KeyUp { i: usize, key: JoyKey },
    Nothing,
}

/// Whether the `i`-th open controller has this instance id.
pub open spec fn is_at<H, E, L>(session: Session<H, E, L>, which: u32, i: usize) -> bool {
    &&& session.active().contains_key(which)
    &&& i < session.listed().len()
    &&& session.listed()[i as int] == session.active()[which]
}

/// Whether `step` is what an event leads to.
pub open spec fn answers<H, E, L>(
    session: Session<H, E, L>,
    event: PumpEvent,
    step: EventStep,
) -> bool {
    match event {
        PumpEvent::Quit => step is Quit,
        PumpEvent::Escape => step is Quit,
        PumpEvent::DeviceAdded { index } => step == (EventStep::Open { index }),
        PumpEvent::DeviceRemoved { which } => if session.active().contains_key(which) {
            step matches EventStep::Close { i } && is_at(session, which, i)
        } else {
            step is Nothing
        },
        PumpEvent::ButtonDown { which, button } => if session.active().contains_key(which)
            && key_of(button) is Some {
            step matches EventStep::KeyDown { i, key } && is_at(session, which, i) && Some(key)
                == key_of(button)
        } else {
            step is Nothing
        },
        PumpEvent::ButtonUp { which, button } => if session.active().contains_key(which)
            && key_of(button) is Some {
            step matches EventStep::KeyUp { i, key } && is_at(session, which, i) && Some(key)
                == key_of(button)
        } else {
            step is Nothing
        },
        PumpEvent::SensorUpdated { .. } => step is Nothing,
        PumpEvent::Other => step is Nothing,
    }
}

fn key_at<H, E, L>(session: &Session<H, E, L>, which: u32, button: PadButton) -> (r: Option<
    (usize, JoyKey),
>)
    requires
        session.wf(),
    ensures
        r is Some <==> session.active().contains_key(which) && key_of(button) is Some,
        r matches Some((i, key)) ==> is_at(*session, which, i) && Some(key) == key_of(button),
{
    match (session.index_of(which), session.on_button(which, button)) {
        (Some(i), Some(key)) => Some((i, key)),
        _ => None,
    }
}

/// Whether `after` is `before` after an event was taken in.
pub open spec fn taken_in<H, E, L>(
    before: Session<H, E, L>,
    after: Session<H, E, L>,
    event: PumpEvent,
    now: nat,
) -> bool {
    match event {
        PumpEvent::SensorUpdated { which, gyro } => after.sensed(before, which, gyro, now),
        _ => after == before,
    }
}

/// Takes in an event, and returns what is to be done about it.
pub fn on_event<H, E, L>(session: &mut Session<H, E, L>, event: PumpEvent, now: Instant) -> (step:
    EventStep)
    requires
        old(session).wf(),
        event matches PumpEvent::SensorUpdated { which, gyro } ==> old(session).has_room_for(
            which,
            gyro,
        ),
    ensures
        final(session).wf(),
        answers(*old(session), event, step),
        taken_in(*old(session), *final(session), event, now@),
{
    match event {
        PumpEvent::Quit => EventStep::Quit,
        PumpEvent::Escape => EventStep::Quit,
        PumpEvent::DeviceAdded { index } => EventStep::Open { index },
        PumpEvent::DeviceRemoved { which } => match session.index_of(which) {
            Some(i) => EventStep::Close { i },
            None => EventStep::Nothing,
        },
        PumpEvent::ButtonDown { which, button } => match key_at(session, which, button) {
            Some((i, key)) => EventStep::KeyDown { i, key },
            None => EventStep::Nothing,
        },
        PumpEvent::ButtonUp { which, button } => match key_at(session, which, button) {
            Some((i, key)) => EventStep::KeyUp { i, key },
            None => EventStep::Nothing,
        },
        PumpEvent::SensorUpdated { which, gyro } => {
            session.on_sensor_updated(which, gyro, now);
            EventStep::Nothing
        },
        PumpEvent::Other => EventStep::Nothing,
    }
}

/// A button reaches the controller that it is on, and no other, as the key that it
/// stands for: down as down and up as up.
pub proof fn law_button_reaches_its_controller<H, E, L>(
    session: Session<H, E, L>,
    which: u32,
    button: PadButton,
    step: EventStep,
)
    requires
        session.wf(),
        session.active().contains_key(which),
        key_of(button) is Some,
    ensures
        answers(session, PumpEvent::ButtonDown { which, button }, step) ==> (
        step matches EventStep::KeyDown { i, key } && i < session.listed().len()
            && session.listed()[i as int].instance == which && Some(key) == key_of(button)),
        answers(session, PumpEvent::ButtonUp { which, button }, step) ==> (
        step matches EventStep::KeyUp { i, key } && i < session.listed().len()
            && session.listed()[i as int].instance == which && Some(key) == key_of(button)),
{
    session.lemma_active();
}

/// A controller that is disconnected is the one that is closed; an added device is
/// opened under its own index.
pub proof fn law_devices_come_and_go_as_themselves<H, E, L>(
    session: Session<H, E, L>,
    which: u32,
    index: u32,
    step: EventStep,
)
    requires
        session.wf(),
    ensures
        answers(session, PumpEvent::DeviceRemoved { which }, step) && session.active().contains_key(
            which,
        ) ==> (step matches EventStep::Close { i } && i < session.listed().len()
            && session.listed()[i as int].instance == which),
        answers(session, PumpEvent::DeviceAdded { index }, step) ==> step == (EventStep::Open {
            index,
        }),
{
    session.lemma_active();
}

/// What comes for a controller that is not open, and what is no key, leads to
/// nothing; and nothing but quitting ends a run.
pub proof fn law_strangers_are_ignored<H, E, L>(
    session: Session<H, E, L>,
    event: PumpEvent,
    step: EventStep,
)
    requires
        answers(session, event, step),
    ensures
        step is Quit <==> event is Quit || event is Escape,
        event matches PumpEvent::ButtonDown { which, button } ==> (!session.active().contains_key(
            which,
        ) || key_of(button) is None ==> step is Nothing),
        event matches PumpEvent::ButtonUp { which, button } ==> (!session.active().contains_key(
            which,
        ) || key_of(button) is None ==> step is Nothing),
        event matches PumpEvent::DeviceRemoved { which } ==> (!session.active().contains_key(which)
            ==> step is Nothing),
        event is SensorUpdated || event is Other ==> step is Nothing,
{
}

/// An event changes the session only where it is a sensor's.
pub proof fn law_only_sensors_change_the_session<H, E, L>(
    before: Session<H, E, L>,
    after: Session<H, E, L>,
    event: PumpEvent,
    now: nat,
)
    requires
        taken_in(before, after, event, now),
    ensures
        !(event is SensorUpdated) ==> after == before,
        after.listed() == before.listed(),
        after.parked_engines() == before.parked_engines(),
{
}

/// A sensor's event is taken in by the controller that it came from: its ladder has
/// seen an event at that moment.
pub proof fn law_sensor_event_is_taken_in<H, E, L>(
    before: Session<H, E, L>,
    after: Session<H, E, L>,
    which: u32,
    gyro: Option<GyroData>,
    now: nat,
)
    requires
        before.wf(),
        before.active().contains_key(which),
        taken_in(before, after, PumpEvent::SensorUpdated { which, gyro }, now),
    ensures
        ({
            let name = before.active()[which].name@;
            &&& after.watched()[name].ladder.stage() matches Stage::Armed { last_event, .. }
                && last_event == now
            &&& after.watched()[name].telemetry == before.watched()[name].telemetry.after_event(
                gyro,
            )
        }),
{
}

} // verus!
