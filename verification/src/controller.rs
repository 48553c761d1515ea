//! The controller: which zone an event is for, what is done about it, and
//! what is asked of the shadow service whenever the session is new.

use crate::action::{action_views, level_of, Action, ActionView, Level};
use crate::iot_client::{
    get_shadow_actions, publish_shadow_action, subscribe_delta_action, EventView, IoTClient,
    IoTEvent,
};
use crate::settings::Settings;
use crate::shadow::{
    delta_path, delta_state, desired_path, desired_state, is_on, json_strings, state_is_on,
    string_at,
};
use crate::zone::{
    new_zone, set_state_result, set_state_zone, HardwareError, Zone, ZoneConfig, ZoneView,
};
use vstd::prelude::*;
use vstd::string::*;

verus! {

/// Why the work on an event, or a request to the shadow service, ended
/// early.
#[derive(Debug, PartialEq, Eq)]
pub enum UpdateError {
    /// The document does not hold a state where one is looked for.
    ShadowError,
    /// No zone is configured for the device.
    UnknownZone(String),
    /// A line of the zone could not be written.
    GPIOError(HardwareError),
    /// A subscription or a publication failed.
    IoTError,
}

/// An error with its device as a sequence of characters.
pub enum UpdateErrorView {
    ShadowError,
    UnknownZone(Seq<char>),
    GPIOError(HardwareError),
    IoTError,
}

impl View for UpdateError {
    type V = UpdateErrorView;

    open spec fn view(&self) -> UpdateErrorView {
        match *self {
            UpdateError::ShadowError => UpdateErrorView::ShadowError,
            UpdateError::UnknownZone(device) => UpdateErrorView::UnknownZone(device@),
            UpdateError::GPIOError(e) => UpdateErrorView::GPIOError(e),
            UpdateError::IoTError => UpdateErrorView::IoTError,
        }
    }
}

/// The error of a turn, if it has one, as plain values.
pub open spec fn error_view(error: Option<UpdateError>) -> Option<UpdateErrorView> {
    match error {
        Some(e) => Some(e@),
        None => None,
    }
}

/// What the driver hands to the controller: the outcome of the action it
/// was asked for, or, after `Receive`, the next event.
#[derive(Debug)]
pub enum Input {
    /// The action was performed.
    Done,
    /// The action failed.
    Failed,
    /// The next event of the queue.
    Event(IoTEvent),
}

/// An input as plain values.
pub enum InputView {
    Done,
    Failed,
    Event(EventView),
}

impl View for Input {
    type V = InputView;

    open spec fn view(&self) -> InputView {
        match *self {
            Input::Done => InputView::Done,
            Input::Failed => InputView::Failed,
            Input::Event(e) => InputView::Event(e@),
        }
    }
}

/// What the controller answers: the next action, and the error that ended
/// the work before it, if one did.
#[derive(Debug, PartialEq, Eq)]
pub struct Turn {
    pub action: Action,
    pub error: Option<UpdateError>,
}

/// A turn as plain values.
pub struct TurnView {
    pub action: ActionView,
    pub error: Option<UpdateErrorView>,
}

impl View for Turn {
    type V = TurnView;

    open spec fn view(&self) -> TurnView {
        TurnView { action: self.action@, error: error_view(self.error) }
    }
}

/// What the controller is busy with. In every phase but the first two it
/// awaits the outcome of one action.
#[derive(Debug, Clone, Copy, PartialEq, Eq, Structural)]
pub enum Phase {
    /// Nothing was asked of the driver yet.
    Starting,
    /// Waiting for the next event.
    Idle,
    /// Asking for the shadow of a zone: step `step` of the request.
    GetShadow { zone: usize, step: usize },
    /// Subscribing to the changes of the desired state of a zone.
    SubscribeDelta { zone: usize },
    /// Bringing a zone to `desired`: writing line `line`, or pausing after
    /// it was written. `always_report` tells whether the state is reported
    /// even where it did not change.
    SetState { zone: usize, desired: bool, always_report: bool, line: usize, pausing: bool },
    /// Reporting the state of a zone.
    PublishShadow { zone: usize },
}

/// The controller as plain values.
pub struct ControllerView {
    pub zones: Seq<ZoneView>,
    pub phase: Phase,
}

/// The controller after a turn, and the turn.
pub struct Outcome {
    pub controller: ControllerView,
    pub turn: TurnView,
}

/// The first zone that is configured for `device`, if there is one.
pub open spec fn find_zone(zones: Seq<ZoneView>, device: Seq<char>) -> Option<int>
    decreases zones.len(),
{
    if zones.len() == 0 {
        None
    } else {
        match find_zone(zones.drop_last(), device) {
            Some(i) => Some(i),
            None => if zones.last().device_name == device {
                Some(zones.len() - 1)
            } else {
                None
            },
        }
    }
}

/// What was acquired for the zone that is configured at `index`: nothing
/// where `acquired` has no entry for it.
pub open spec fn acquired_for(acquired: Seq<Vec<bool>>, index: int) -> Seq<bool> {
    if 0 <= index < acquired.len() {
        acquired[index]@
    } else {
        Seq::empty()
    }
}

/// The zones that a list of configurations gives, in configured order. A
/// configuration for a device that was configured before takes the place of
/// the earlier one, so that no two zones follow the same device.
pub open spec fn configured(configs: Seq<ZoneConfig>, acquired: Seq<Vec<bool>>) -> Seq<ZoneView>
    decreases configs.len(),
{
    if configs.len() == 0 {
        Seq::empty()
    } else {
        let before = configured(configs.drop_last(), acquired);
        let zone = new_zone(configs.last(), acquired_for(acquired, configs.len() - 1));
        match find_zone(before, zone.device_name) {
            Some(i) => before.update(i, zone),
            None => before.push(zone),
        }
    }
}

/// The zones and the lines of each can be counted by the machine.
pub open spec fn fits(zones: Seq<ZoneView>) -> bool {
    &&& zones.len() <= usize::MAX
    &&& forall|i: int| 0 <= i < zones.len() ==> (#[trigger] zones[i]).lines.len() <= usize::MAX
}

/// No two of the zones follow the same device.
pub open spec fn distinct_devices(zones: Seq<ZoneView>) -> bool {
    forall|i: int, j: int|
        0 <= i < j < zones.len() ==> zones[i].device_name != zones[j].device_name
}

impl ControllerView {
    /// The phase speaks of a zone, a step and a line that exist, and a zone
    /// that is being brought to a state is not there yet.
    pub open spec fn wf(self) -> bool {
        &&& distinct_devices(self.zones)
        &&& fits(self.zones)
        &&& match self.phase {
            Phase::Starting | Phase::Idle => true,
            Phase::GetShadow { zone, step } => zone < self.zones.len() && step < 3,
            Phase::SubscribeDelta { zone } => zone < self.zones.len(),
            Phase::SetState { zone, desired, always_report, line, pausing } => {
                &&& zone < self.zones.len()
                &&& line < self.zones[zone as int].lines.len()
                &&& self.zones[zone as int].state != desired
            },
            Phase::PublishShadow { zone } => zone < self.zones.len(),
        }
    }

    /// The action whose outcome the controller awaits.
    pub open spec fn awaited(self) -> ActionView {
        match self.phase {
            Phase::Starting | Phase::Idle => ActionView::Receive,
            Phase::GetShadow { zone, step } => get_shadow_actions(
                self.zones[zone as int].device_name,
            )[step as int],
            Phase::SubscribeDelta { zone } => subscribe_delta_action(
                self.zones[zone as int].device_name,
            ),
            Phase::SetState { zone, desired, always_report, line, pausing } => if pausing {
                ActionView::Sleep { millis: self.zones[zone as int].delay_millis }
            } else {
                ActionView::SetLine {
                    pin: self.zones[zone as int].lines[line as int],
                    level: level_of(desired),
                }
            },
            Phase::PublishShadow { zone } => publish_shadow_action(
                self.zones[zone as int].device_name,
                self.zones[zone as int].state,
            ),
        }
    }

    /// The controller waits for the next event.
    pub open spec fn wait(self) -> Outcome {
        Outcome {
            controller: ControllerView { phase: Phase::Idle, ..self },
            turn: TurnView { action: ActionView::Receive, error: None },
        }
    }

    /// The controller gives the work up for `error` and waits for the next
    /// event.
    pub open spec fn give_up(self, error: UpdateErrorView) -> Outcome {
        Outcome {
            controller: ControllerView { phase: Phase::Idle, ..self },
            turn: TurnView { action: ActionView::Receive, error: Some(error) },
        }
    }

    /// The controller enters `phase` and asks for the action of it.
    pub open spec fn enter(self, phase: Phase) -> Outcome {
        let next = ControllerView { phase, ..self };
        Outcome { controller: next, turn: TurnView { action: next.awaited(), error: None } }
    }

    /// The controller asks the shadow service about the zones from `zone`
    /// on: about the first of them now, and to wait if there is none.
    pub open spec fn register_from(self, zone: int) -> Outcome {
        if 0 <= zone < self.zones.len() {
            self.enter(Phase::GetShadow { zone: zone as usize, step: 0 })
        } else {
            self.wait()
        }
    }

    /// Every line of `zone` is at `desired`: the zone takes the state, and
    /// the state is reported if it changed or is reported always.
    pub open spec fn commit(self, zone: int, desired: bool, always_report: bool) -> Outcome {
        let changed = self.zones[zone].state != desired;
        let next = ControllerView {
            zones: self.zones.update(zone, ZoneView { state: desired, ..self.zones[zone] }),
            ..self
        };
        if changed || always_report {
            next.enter(Phase::PublishShadow { zone: zone as usize })
        } else {
            next.wait()
        }
    }

    /// The controller sets about bringing `zone` to `desired`: with the
    /// first line if there is something to write, else as `commit` says.
    pub open spec fn apply(self, zone: int, desired: bool, always_report: bool) -> Outcome {
        if self.zones[zone].state != desired && self.zones[zone].lines.len() > 0 {
            self.enter(
                Phase::SetState {
                    zone: zone as usize,
                    desired,
                    always_report,
                    line: 0,
                    pausing: false,
                },
            )
        } else {
            self.commit(zone, desired, always_report)
        }
    }

    /// What is done about a state that was looked for in a document for
    /// `device`: nothing where the document holds none or no zone follows
    /// the device; else the zone is brought to the state, which is on for
    /// the text `ON` and off for any other.
    pub open spec fn handle(self, device: Seq<char>, state: Option<Seq<char>>, always_report: bool) -> Outcome {
        match state {
            None => self.give_up(UpdateErrorView::ShadowError),
            Some(text) => match find_zone(self.zones, device) {
                None => self.give_up(UpdateErrorView::UnknownZone(device)),
                Some(zone) => self.apply(zone, is_on(text), always_report),
            },
        }
    }

    /// What is done about an event: after a reconnect the shadow service is
    /// asked about every zone; the answer to a request is applied and
    /// reported always, a delta is applied and reported if it changes the
    /// zone.
    pub open spec fn dispatch(self, event: EventView) -> Outcome {
        match event {
            EventView::Reconnect => self.register_from(0),
            EventView::Get { thing_name, shadow } => self.handle(
                thing_name,
                string_at(shadow, desired_path()),
                true,
            ),
            EventView::Delta { thing_name, shadow } => self.handle(
                thing_name,
                string_at(shadow, delta_path()),
                false,
            ),
        }
    }

    /// What follows the awaited action where it succeeded.
    pub open spec fn succeeded(self) -> Outcome {
        match self.phase {
            Phase::Starting | Phase::Idle => self.wait(),
            Phase::GetShadow { zone, step } => if step < 2 {
                self.enter(Phase::GetShadow { zone, step: (step + 1) as usize })
            } else {
                self.enter(Phase::SubscribeDelta { zone })
            },
            Phase::SubscribeDelta { zone } => self.register_from(zone + 1),
            Phase::SetState { zone, desired, always_report, line, pausing } => if !pausing {
                self.enter(Phase::SetState { zone, desired, always_report, line, pausing: true })
            } else if line + 1 < self.zones[zone as int].lines.len() {
                self.enter(
                    Phase::SetState {
                        zone,
                        desired,
                        always_report,
                        line: (line + 1) as usize,
                        pausing: false,
                    },
                )
            } else {
                self.commit(zone as int, desired, always_report)
            },
            Phase::PublishShadow { zone } => self.wait(),
        }
    }

    /// What follows the awaited action where it failed: a request for a
    /// shadow is given up and the zone's deltas are subscribed to; after a
    /// failed subscription to them the next zone has its turn; a zone whose
    /// line could not be written keeps its state and nothing is reported;
    /// a report that failed is not made again.
    pub open spec fn failed(self) -> Outcome {
        match self.phase {
            Phase::Starting | Phase::Idle => self.wait(),
            Phase::GetShadow { zone, step } => with_error(
                self.enter(Phase::SubscribeDelta { zone }),
                UpdateErrorView::IoTError,
            ),
            Phase::SubscribeDelta { zone } => with_error(
                self.register_from(zone + 1),
                UpdateErrorView::IoTError,
            ),
            Phase::SetState { zone, desired, always_report, line, pausing } => self.give_up(
                UpdateErrorView::GPIOError(
                    HardwareError { pin: self.zones[zone as int].lines[line as int] },
                ),
            ),
            Phase::PublishShadow { zone } => self.give_up(UpdateErrorView::IoTError),
        }
    }

    /// One turn of the controller. At the start it asks the shadow service
    /// about every zone. While it waits for an event, an event is
    /// dispatched and any other input leaves it waiting. While it awaits
    /// the outcome of an action, `Failed` is its failure and any other
    /// input its success; a pause cannot fail.
    pub open spec fn step(self, input: InputView) -> Outcome {
        match self.phase {
            Phase::Starting => self.register_from(0),
            Phase::Idle => match input {
                InputView::Event(event) => self.dispatch(event),
                _ => self.wait(),
            },
            _ => if input is Failed && !(self.awaited() is Sleep) {
                self.failed()
            } else {
                self.succeeded()
            },
        }
    }
}

/// The outcome `outcome` with the error `error`.
pub open spec fn with_error(outcome: Outcome, error: UpdateErrorView) -> Outcome {
    Outcome {
        controller: outcome.controller,
        turn: TurnView { action: outcome.turn.action, error: Some(error) },
    }
}

/// The zones as plain values, one for one.
pub open spec fn zone_views(zones: Seq<Zone>) -> Seq<ZoneView> {
    zones.map_values(|z: Zone| z@)
}

/// The controller: the zones, and what it is busy with.
#[derive(Debug)]
pub struct Controller {
    zones: Vec<Zone>,
    phase: Phase,
}

impl View for Controller {
    type V = ControllerView;

    closed spec fn view(&self) -> ControllerView {
        ControllerView { zones: zone_views(self.zones@), phase: self.phase }
    }
}

/// The index of the zone among `zones` that follows `device`, if there is
/// one.
fn find(zones: &Vec<Zone>, device: &String) -> (found: Option<usize>)
    ensures
        match found {
            Some(i) => find_zone(zone_views(zones@), device@) == Some(i as int) && i < zones.len(),
            None => find_zone(zone_views(zones@), device@) is None,
        },
{
    let mut i: usize = 0;
    while i < zones.len()
        invariant
            i <= zones.len(),
            find_zone(zone_views(zones@).take(i as int), device@) is None,
        decreases zones.len() - i,
    {
        proof {
            let all = zone_views(zones@);
            assert(all.take(i + 1).drop_last() =~= all.take(i as int));
        }
        if *zones[i].device_name() == *device {
            proof {
                lemma_find_zone_prefix(zone_views(zones@), device@, i + 1);
            }
            return Some(i);
        }
        i = i + 1;
    }
    assert(zone_views(zones@).take(i as int) =~= zone_views(zones@));
    None
}

impl Controller {
    #[verifier::type_invariant]
    spec fn inv(&self) -> bool {
        self@.wf()
    }

    /// A controller for the zones of `config`, about to start. `acquired`
    /// tells for each configured zone, by position, which of its lines could
    /// be acquired, as `Zone::new` takes it.
    pub fn new(config: &Settings, acquired: &Vec<Vec<bool>>) -> (controller: Controller)
        ensures
            controller@.zones == configured(config.zones@, acquired@),
            controller@.phase == Phase::Starting,
            controller@.wf(),
    {
        let mut zones: Vec<Zone> = Vec::new();
        let none: Vec<bool> = Vec::new();
        let total: usize = config.zones.len();
        let mut i: usize = 0;
        while i < total
            invariant
                total == config.zones.len(),
                i <= total,
                none@ == Seq::<bool>::empty(),
                zone_views(zones@) == configured(config.zones@.take(i as int), acquired@),
                distinct_devices(zone_views(zones@)),
                fits(zone_views(zones@)),
            decreases total - i,
        {
            let lines = if i < acquired.len() {
                &acquired[i]
            } else {
                &none
            };
            let zone = Zone::new(&config.zones[i], lines);
            proof {
                assert(config.zones@.take(i + 1).drop_last() =~= config.zones@.take(i as int));
                lemma_find_zone(zone_views(zones@), zone@.device_name);
            }
            let ghost before = zone_views(zones@);
            match find(&zones, zone.device_name()) {
                Some(at) => {
                    zones.set(at, zone);
                    assert(zone_views(zones@) =~= before.update(at as int, zone@));
                },
                None => {
                    zones.push(zone);
                    assert(zone_views(zones@) =~= before.push(zone@));
                },
            }
            proof {
                let after = zone_views(zones@);
                assert forall|a: int, b: int| 0 <= a < b < after.len() implies after[a].device_name
                    != after[b].device_name by {
                    if a < before.len() && b < before.len() {
                        assert(before[a].device_name != before[b].device_name);
                    }
                }
                assert forall|a: int| 0 <= a < after.len() implies (#[trigger] after[a]).lines.len()
                    <= usize::MAX by {
                    if a < before.len() {
                        assert(before[a].lines.len() <= usize::MAX);
                    }
                }
            }
            assert(zones@.len() <= usize::MAX) by {
                assert(zones@.len() == zones.len());
            }
            i = i + 1;
        }
        assert(config.zones@.take(total as int) =~= config.zones@);
        Controller { zones, phase: Phase::Starting }
    }

    /// Whether the controller waits for an event.
    pub fn is_idle(&self) -> (idle: bool)
        ensures
            idle == (self@.phase == Phase::Idle),
    {
        match self.phase {
            Phase::Idle => true,
            _ => false,
        }
    }

    /// The zones, in configured order.
    pub fn zones(&self) -> (zones: &Vec<Zone>)
        ensures
            zone_views(zones@) == self@.zones,
    {
        &self.zones
    }

    /// The action whose outcome the controller awaits.
    fn awaited_action(&self) -> (action: Action)
        ensures
            action@ == self@.awaited(),
    {
        proof {
            use_type_invariant(self);
        }
        match self.phase {
            Phase::Starting => Action::Receive,
            Phase::Idle => Action::Receive,
            Phase::GetShadow { zone, step } => {
                let mut actions = IoTClient::get_shadow(self.zones[zone].device_name().as_str());
                assert(action_views(actions@).len() == actions@.len());
                assert(action_views(actions@)[step as int] == actions@[step as int]@);
                actions.remove(step)
            },
            Phase::SubscribeDelta { zone } => IoTClient::subscribe_to_shadow_delta(
                self.zones[zone].device_name().as_str(),
            ),
            Phase::SetState { zone, desired, line, pausing, .. } => {
                if pausing {
                    Action::Sleep { millis: self.zones[zone].delay_millis() }
                } else {
                    Action::SetLine { pin: self.zones[zone].lines()[line], level: Level::of(desired) }
                }
            },
            Phase::PublishShadow { zone } => IoTClient::publish_shadow(
                self.zones[zone].device_name().as_str(),
                self.zones[zone].state(),
            ),
        }
    }

    /// Whether the awaited action is a pause.
    fn awaits_pause(&self) -> (pause: bool)
        ensures
            pause == (self@.awaited() is Sleep),
    {
        proof {
            use_type_invariant(self);
        }
        match self.phase {
            Phase::GetShadow { step, .. } => step == 1,
            Phase::SetState { pausing, .. } => pausing,
            _ => false,
        }
    }

    /// Waits for the next event.
    fn wait(&mut self) -> (turn: Turn)
        ensures
            final(self)@ == old(self)@.wait().controller,
            turn@ == old(self)@.wait().turn,
    {
        proof {
            use_type_invariant(&*self);
        }
        self.phase = Phase::Idle;
        Turn { action: Action::Receive, error: None }
    }

    /// Gives the work up for `error` and waits for the next event.
    fn give_up(&mut self, error: UpdateError) -> (turn: Turn)
        ensures
            final(self)@ == old(self)@.give_up(error@).controller,
            turn@ == old(self)@.give_up(error@).turn,
    {
        proof {
            use_type_invariant(&*self);
        }
        self.phase = Phase::Idle;
        Turn { action: Action::Receive, error: Some(error) }
    }

    /// Enters `phase` and asks for the action of it.
    fn enter(&mut self, phase: Phase) -> (turn: Turn)
        requires
            (ControllerView { phase, ..old(self)@ }).wf(),
        ensures
            final(self)@ == old(self)@.enter(phase).controller,
            turn@ == old(self)@.enter(phase).turn,
    {
        self.phase = phase;
        Turn { action: self.awaited_action(), error: None }
    }

    /// Asks the shadow service about the zones from `zone` on.
    fn register_from(&mut self, zone: usize) -> (turn: Turn)
        ensures
            final(self)@ == old(self)@.register_from(zone as int).controller,
            turn@ == old(self)@.register_from(zone as int).turn,
    {
        proof {
            use_type_invariant(&*self);
        }
        if zone < self.zones.len() {
            self.enter(Phase::GetShadow { zone, step: 0 })
        } else {
            self.wait()
        }
    }

    /// Asks the shadow service about every zone: for its shadow, and for
    /// the changes of its desired state.
    fn register_devices(&mut self) -> (turn: Turn)
        ensures
            final(self)@ == old(self)@.register_from(0).controller,
            turn@ == old(self)@.register_from(0).turn,
    {
        self.register_from(0)
    }

    /// Reports the state of `zone`.
    fn publish_new_state(&mut self, zone: usize) -> (turn: Turn)
        requires
            zone < old(self)@.zones.len(),
        ensures
            final(self)@ == old(self)@.enter(Phase::PublishShadow { zone }).controller,
            turn@ == old(self)@.enter(Phase::PublishShadow { zone }).turn,
    {
        proof {
            use_type_invariant(&*self);
        }
        self.enter(Phase::PublishShadow { zone })
    }

    /// Has `zone` record how bringing it to `desired` ended, as
    /// `Zone::set_state` does.
    fn set_state(&mut self, zone: usize, desired: bool, written: usize) -> (result: Result<
        bool,
        HardwareError,
    >)
        requires
            zone < old(self)@.zones.len(),
            old(self)@.phase == Phase::Idle,
        ensures
            result == set_state_result(old(self)@.zones[zone as int], desired, written as int),
            final(self)@ == (ControllerView {
                zones: old(self)@.zones.update(
                    zone as int,
                    set_state_zone(old(self)@.zones[zone as int], desired, written as int),
                ),
                phase: Phase::Idle,
            }),
    {
        proof {
            use_type_invariant(&*self);
        }
        let ghost before = self@.zones;
        let mut zones: Vec<Zone> = Vec::new();
        core::mem::swap(&mut self.zones, &mut zones);
        let result = zones[zone].set_state(desired, written);
        proof {
            let after = zone_views(zones@);
            assert(after =~= before.update(
                zone as int,
                set_state_zone(before[zone as int], desired, written as int),
            ));
            assert forall|a: int, b: int| 0 <= a < b < after.len() implies after[a].device_name
                != after[b].device_name by {
                assert(before[a].device_name != before[b].device_name);
            }
            assert forall|a: int| 0 <= a < after.len() implies (#[trigger] after[a]).lines.len()
                <= usize::MAX by {
                assert(before[a].lines.len() <= usize::MAX);
            }
        }
        core::mem::swap(&mut self.zones, &mut zones);
        result
    }

    /// Lets `zone` take `desired`, now that nothing is left to write, and
    /// reports the state if it changed or is reported always.
    fn commit(&mut self, zone: usize, desired: bool, always_report: bool) -> (turn: Turn)
        requires
            zone < old(self)@.zones.len(),
        ensures
            final(self)@ == old(self)@.commit(zone as int, desired, always_report).controller,
            turn@ == old(self)@.commit(zone as int, desired, always_report).turn,
    {
        proof {
            use_type_invariant(&*self);
        }
        self.phase = Phase::Idle;
        let written = self.zones[zone].lines().len();
        let result = self.set_state(zone, desired, written);
        match result {
            Ok(changed) => {
                if changed || always_report {
                    self.publish_new_state(zone)
                } else {
                    self.wait()
                }
            },
            Err(e) => self.give_up(UpdateError::GPIOError(e)),
        }
    }

    /// Sets about bringing `zone` to `desired`.
    fn apply(&mut self, zone: usize, desired: bool, always_report: bool) -> (turn: Turn)
        requires
            zone < old(self)@.zones.len(),
        ensures
            final(self)@ == old(self)@.apply(zone as int, desired, always_report).controller,
            turn@ == old(self)@.apply(zone as int, desired, always_report).turn,
    {
        proof {
            use_type_invariant(&*self);
        }
        if self.zones[zone].state() != desired && self.zones[zone].lines().len() > 0 {
            self.enter(Phase::SetState { zone, desired, always_report, line: 0, pausing: false })
        } else {
            self.commit(zone, desired, always_report)
        }
    }

    /// Does what the state asks that was looked for in a document for
    /// `thing_name`.
    fn handle(&mut self, thing_name: String, state: Option<String>, always_report: bool) -> (turn:
        Turn)
        ensures
            final(self)@ == old(self)@.handle(
                thing_name@,
                option_text(state),
                always_report,
            ).controller,
            turn@ == old(self)@.handle(thing_name@, option_text(state), always_report).turn,
    {
        let text = match state {
            Some(text) => text,
            None => {
                return self.give_up(UpdateError::ShadowError);
            },
        };
        match find(&self.zones, &thing_name) {
            Some(zone) => self.apply(zone, state_is_on(&text), always_report),
            None => self.give_up(UpdateError::UnknownZone(thing_name)),
        }
    }

    /// Applies the answer to a request for the shadow of `thing_name`, and
    /// reports the state of the zone whether it changed or not.
    fn handle_get(&mut self, thing_name: String, shadow: &serde_json::Value) -> (turn: Turn)
        ensures
            final(self)@ == old(self)@.dispatch(
                EventView::Get { thing_name: thing_name@, shadow: json_strings(*shadow) },
            ).controller,
            turn@ == old(self)@.dispatch(
                EventView::Get { thing_name: thing_name@, shadow: json_strings(*shadow) },
            ).turn,
    {
        let state = desired_state(shadow);
        self.handle(thing_name, state, true)
    }

    /// Applies a change of the desired state of `thing_name`, and reports
    /// the state of the zone if it changed.
    fn handle_delta(&mut self, thing_name: String, shadow: &serde_json::Value) -> (turn: Turn)
        ensures
            final(self)@ == old(self)@.dispatch(
                EventView::Delta { thing_name: thing_name@, shadow: json_strings(*shadow) },
            ).controller,
            turn@ == old(self)@.dispatch(
                EventView::Delta { thing_name: thing_name@, shadow: json_strings(*shadow) },
            ).turn,
    {
        let state = delta_state(shadow);
        self.handle(thing_name, state, false)
    }

    /// Goes on after the awaited action succeeded.
    fn succeeded(&mut self) -> (turn: Turn)
        ensures
            final(self)@ == old(self)@.succeeded().controller,
            turn@ == old(self)@.succeeded().turn,
    {
        proof {
            use_type_invariant(&*self);
        }
        match self.phase {
            Phase::Starting => self.wait(),
            Phase::Idle => self.wait(),
            Phase::GetShadow { zone, step } => {
                if step < 2 {
                    self.enter(Phase::GetShadow { zone, step: step + 1 })
                } else {
                    self.enter(Phase::SubscribeDelta { zone })
                }
            },
            Phase::SubscribeDelta { zone } => self.register_from(zone + 1),
            Phase::SetState { zone, desired, always_report, line, pausing } => {
                if !pausing {
                    self.enter(Phase::SetState { zone, desired, always_report, line, pausing: true })
                } else if line < self.zones[zone].lines().len() - 1 {
                    self.enter(
                        Phase::SetState {
                            zone,
                            desired,
                            always_report,
                            line: line + 1,
                            pausing: false,
                        },
                    )
                } else {
                    self.commit(zone, desired, always_report)
                }
            },
            Phase::PublishShadow { .. } => self.wait(),
        }
    }

    /// Goes on after the awaited action failed.
    fn failed(&mut self) -> (turn: Turn)
        ensures
            final(self)@ == old(self)@.failed().controller,
            turn@ == old(self)@.failed().turn,
    {
        proof {
            use_type_invariant(&*self);
        }
        match self.phase {
            Phase::Starting => self.wait(),
            Phase::Idle => self.wait(),
            Phase::GetShadow { zone, .. } => {
                let turn = self.enter(Phase::SubscribeDelta { zone });
                Turn { action: turn.action, error: Some(UpdateError::IoTError) }
            },
            Phase::SubscribeDelta { zone } => {
                let turn = self.register_from(zone + 1);
                Turn { action: turn.action, error: Some(UpdateError::IoTError) }
            },
            Phase::SetState { zone, desired, line, .. } => {
                self.phase = Phase::Idle;
                let ghost before = self@.zones;
                let result = self.set_state(zone, desired, line);
                assert(self@.zones =~= before);
                match result {
                    Ok(_) => self.wait(),
                    Err(e) => self.give_up(UpdateError::GPIOError(e)),
                }
            },
            Phase::PublishShadow { .. } => self.give_up(UpdateError::IoTError),
        }
    }

    /// One turn of the loop that receives events and acts on them: takes
    /// the outcome of the action that was asked for last, or the event that
    /// was received, and gives the next action. The first call starts the
    /// controller, whatever it is handed.
    pub fn receive_loop(&mut self, input: Input) -> (turn: Turn)
        ensures
            final(self)@ == old(self)@.step(input@).controller,
            turn@ == old(self)@.step(input@).turn,
            final(self)@.wf(),
    {
        proof {
            use_type_invariant(&*self);
        }
        let turn = match self.phase {
            Phase::Starting => self.register_devices(),
            Phase::Idle => match input {
                Input::Event(IoTEvent::Reconnect) => self.register_devices(),
                Input::Event(IoTEvent::Get { thing_name, shadow }) => self.handle_get(
                    thing_name,
                    &shadow,
                ),
                Input::Event(IoTEvent::Delta { thing_name, shadow }) => self.handle_delta(
                    thing_name,
                    &shadow,
                ),
                _ => self.wait(),
            },
            _ => {
                let failure = match input {
                    Input::Failed => !self.awaits_pause(),
                    _ => false,
                };
                if failure {
                    self.failed()
                } else {
                    self.succeeded()
                }
            },
        };
        proof {
            use_type_invariant(&*self);
        }
        turn
    }
}

/// The text of a state that was or was not found.
pub open spec fn option_text(state: Option<String>) -> Option<Seq<char>> {
    match state {
        Some(text) => Some(text@),
        None => None,
    }
}

/// What `find_zone` finds is a zone that follows the device, and it finds
/// nothing only where no zone does.
pub proof fn lemma_find_zone(zones: Seq<ZoneView>, device: Seq<char>)
    ensures
        match find_zone(zones, device) {
            Some(i) => 0 <= i < zones.len() && zones[i].device_name == device,
            None => forall|i: int| 0 <= i < zones.len() ==> zones[i].device_name != device,
        },
    decreases zones.len(),
{
    if zones.len() > 0 {
        lemma_find_zone(zones.drop_last(), device);
        if find_zone(zones.drop_last(), device) is None {
            assert forall|i: int| 0 <= i < zones.len() - 1 implies zones[i].device_name
                != device by {
                assert(zones[i] == zones.drop_last()[i]);
            }
        }
    }
}

/// What is found among the first zones is found among all of them.
proof fn lemma_find_zone_prefix(zones: Seq<ZoneView>, device: Seq<char>, n: int)
    requires
        0 <= n <= zones.len(),
        find_zone(zones.take(n), device) is Some,
    ensures
        find_zone(zones, device) == find_zone(zones.take(n), device),
    decreases zones.len() - n,
{
    if n < zones.len() {
        assert(zones.take(n + 1).drop_last() =~= zones.take(n));
        lemma_find_zone_prefix(zones, device, n + 1);
    } else {
        assert(zones.take(n) =~= zones);
    }
}

} // verus!
