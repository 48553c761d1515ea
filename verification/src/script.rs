//! What a run of the controller looks like: the actions it asks for, in
//! order, while nothing fails, and what a failure changes.

use crate::action::{level_of, ActionView};
use crate::controller::{
    distinct_devices, find_zone, fits, lemma_find_zone, ControllerView, InputView, Phase,
    UpdateErrorView,
};
use crate::iot_client::{
    get_shadow_actions, publish_shadow_action, subscribe_delta_action, EventView,
};
use crate::shadow::{delta_path, desired_path, is_on, string_at, Strings};
use crate::zone::{actuation, HardwareError, ZoneView};
use vstd::prelude::*;

verus! {

/// What asking the shadow service about one zone takes: the request for its
/// shadow, then the subscription to the changes of its desired state.
pub open spec fn zone_registration(zone: ZoneView) -> Seq<ActionView> {
    get_shadow_actions(zone.device_name) + seq![subscribe_delta_action(zone.device_name)]
}

/// What asking the shadow service about the zones from `from` on takes, zone
/// after zone in configured order.
pub open spec fn registration(zones: Seq<ZoneView>, from: int) -> Seq<ActionView>
    decreases zones.len() - from,
{
    if 0 <= from < zones.len() {
        zone_registration(zones[from]) + registration(zones, from + 1)
    } else {
        Seq::empty()
    }
}

/// What bringing `zone` to `desired` takes where the state is reported
/// always or only after a change: the writes and pauses of `actuation`, then
/// the report of `desired`, if there is one.
pub open spec fn application(zone: ZoneView, desired: bool, always_report: bool) -> Seq<ActionView> {
    if zone.state != desired || always_report {
        actuation(zone, desired) + seq![publish_shadow_action(zone.device_name, desired)]
    } else {
        Seq::empty()
    }
}

/// What is left to do before the controller waits for an event again, from
/// the awaited action on, if nothing fails.
pub open spec fn script(c: ControllerView) -> Seq<ActionView> {
    match c.phase {
        Phase::Starting | Phase::Idle => Seq::empty(),
        Phase::GetShadow { zone, step } => get_shadow_actions(
            c.zones[zone as int].device_name,
        ).skip(step as int) + seq![subscribe_delta_action(c.zones[zone as int].device_name)]
            + registration(c.zones, zone + 1),
        Phase::SubscribeDelta { zone } => seq![
            subscribe_delta_action(c.zones[zone as int].device_name),
        ] + registration(c.zones, zone + 1),
        Phase::SetState { zone, desired, always_report, line, pausing } => actuation(
            c.zones[zone as int],
            desired,
        ).skip(
            2 * line + if pausing {
                1int
            } else {
                0int
            },
        ) + seq![publish_shadow_action(c.zones[zone as int].device_name, desired)],
        Phase::PublishShadow { zone } => seq![
            publish_shadow_action(c.zones[zone as int].device_name, c.zones[zone as int].state),
        ],
    }
}

/// The zones once the script of `c` has run: a zone that is being brought to
/// a state has taken it.
pub open spec fn script_zones(c: ControllerView) -> Seq<ZoneView> {
    match c.phase {
        Phase::SetState { zone, desired, always_report, line, pausing } => c.zones.update(
            zone as int,
            ZoneView { state: desired, ..c.zones[zone as int] },
        ),
        _ => c.zones,
    }
}

/// The controller after it was answered `Done` `n` times.
pub open spec fn after_done(c: ControllerView, n: nat) -> ControllerView
    decreases n,
{
    if n == 0 {
        c
    } else {
        after_done(c, (n - 1) as nat).step(InputView::Done).controller
    }
}

/// The actions that the controller asks for while it is answered `Done` `n`
/// times, in order.
pub open spec fn done_actions(c: ControllerView, n: nat) -> Seq<ActionView>
    decreases n,
{
    if n == 0 {
        Seq::empty()
    } else {
        done_actions(c, (n - 1) as nat).push(
            after_done(c, (n - 1) as nat).step(InputView::Done).turn.action,
        )
    }
}

/// Whether a controller that awaits the outcome of an action keeps to its
/// script when it is answered `Done`: it awaits the first action of the
/// script, asks next for the one after it, or waits for an event where the
/// script is at its end, reports no error and stays well formed.
pub open spec fn follows_script(c: ControllerView) -> bool {
    &&& script(c).len() > 0
    &&& script(c)[0] == c.awaited()
    &&& c.step(InputView::Done).controller.wf()
    &&& c.step(InputView::Done).turn.error is None
    &&& script(c.step(InputView::Done).controller) == script(c).skip(1)
    &&& script_zones(c.step(InputView::Done).controller) == script_zones(c)
    &&& c.step(InputView::Done).turn.action == (script(c) + seq![ActionView::Receive])[1]
    &&& script(c).len() == 1 ==> c.step(InputView::Done).controller.phase == Phase::Idle
}

/// The steps of bringing a zone to a state are writes and pauses: none of
/// them publishes anything.
pub proof fn lemma_actuation_publishes_nothing(zone: ZoneView, desired: bool, k: int)
    requires
        0 <= k < actuation(zone, desired).len(),
    ensures
        actuation(zone, desired)[k] is SetLine || actuation(zone, desired)[k] is Sleep,
        !(actuation(zone, desired)[k] is Publish),
{
}

/// The zones keep their devices and their lines where one of them takes a
/// state.
proof fn lemma_update_keeps_zones_valid(zones: Seq<ZoneView>, zone: int, desired: bool)
    requires
        distinct_devices(zones),
        fits(zones),
        0 <= zone < zones.len(),
    ensures
        distinct_devices(zones.update(zone, ZoneView { state: desired, ..zones[zone] })),
        fits(zones.update(zone, ZoneView { state: desired, ..zones[zone] })),
{
    let after = zones.update(zone, ZoneView { state: desired, ..zones[zone] });
    assert forall|a: int, b: int| 0 <= a < b < after.len() implies after[a].device_name
        != after[b].device_name by {
        assert(zones[a].device_name != zones[b].device_name);
    }
    assert forall|a: int| 0 <= a < after.len() implies (#[trigger] after[a]).lines.len()
        <= usize::MAX by {
        assert(zones[a].lines.len() <= usize::MAX);
    }
}

proof fn lemma_done_in_get_shadow(c: ControllerView)
    requires
        c.wf(),
        c.phase is GetShadow,
    ensures
        follows_script(c),
{
    let next = c.step(InputView::Done).controller;
    let zone = c.phase->GetShadow_zone;
    let step = c.phase->GetShadow_step;
    let requests = get_shadow_actions(c.zones[zone as int].device_name);
    let rest = seq![subscribe_delta_action(c.zones[zone as int].device_name)] + registration(
        c.zones,
        zone + 1,
    );
    assert(script(c) =~= requests.skip(step as int) + rest);
    if step < 2 {
        assert(script(next) =~= requests.skip(step + 1) + rest);
    } else {
        assert(script(next) =~= rest);
    }
    assert(script(next) =~= script(c).skip(1));
}

proof fn lemma_done_in_subscribe_delta(c: ControllerView)
    requires
        c.wf(),
        c.phase is SubscribeDelta,
    ensures
        follows_script(c),
{
    let next = c.step(InputView::Done).controller;
    let zone = c.phase->SubscribeDelta_zone;
    if zone + 1 < c.zones.len() {
        let requests = get_shadow_actions(c.zones[zone + 1].device_name);
        assert(requests.skip(0) =~= requests);
        assert(next.phase == Phase::GetShadow { zone: (zone + 1) as usize, step: 0 });
        assert(registration(c.zones, zone + 1) == zone_registration(c.zones[zone + 1])
            + registration(c.zones, zone + 2));
        assert(script(next) =~= zone_registration(c.zones[zone + 1]) + registration(
            c.zones,
            zone + 2,
        ));
    } else {
        assert(registration(c.zones, zone + 1) =~= Seq::<ActionView>::empty());
    }
    assert(script(next) =~= script(c).skip(1));
}

/// What is left of a list of steps with a tail, once its first step is
/// taken.
proof fn lemma_skip_one(steps: Seq<ActionView>, k: int, tail: Seq<ActionView>)
    requires
        0 <= k < steps.len(),
    ensures
        (steps.skip(k) + tail).skip(1) == steps.skip(k + 1) + tail,
        (steps.skip(k) + tail)[0] == steps[k],
        (steps.skip(k) + tail).len() == steps.len() - k + tail.len(),
{
    assert((steps.skip(k) + tail).skip(1) =~= steps.skip(k + 1) + tail);
}

/// The steps of bringing a zone to a state it is not at: for each line a
/// write, then a pause.
proof fn lemma_actuation_steps(zone: ZoneView, desired: bool, line: int)
    requires
        zone.state != desired,
        0 <= line < zone.lines.len(),
    ensures
        actuation(zone, desired).len() == 2 * zone.lines.len(),
        actuation(zone, desired)[2 * line] == (ActionView::SetLine {
            pin: zone.lines[line],
            level: level_of(desired),
        }),
        actuation(zone, desired)[2 * line + 1] == (ActionView::Sleep { millis: zone.delay_millis }),
{
}

proof fn lemma_done_in_set_state(c: ControllerView)
    requires
        c.wf(),
        c.phase is SetState,
    ensures
        follows_script(c),
{
    let done = c.step(InputView::Done);
    let next = done.controller;
    let zone = c.phase->SetState_zone;
    let desired = c.phase->SetState_desired;
    let always_report = c.phase->SetState_always_report;
    let line = c.phase->SetState_line;
    let pausing = c.phase->SetState_pausing;
    let z = c.zones[zone as int];
    let report = seq![publish_shadow_action(z.device_name, desired)];
    let steps = actuation(z, desired);
    let all = script(c) + seq![ActionView::Receive];
    lemma_actuation_steps(z, desired, line as int);
    lemma_update_keeps_zones_valid(c.zones, zone as int, desired);
    if !pausing {
        lemma_skip_one(steps, 2 * line, report);
        assert(done == c.enter(
            Phase::SetState { zone, desired, always_report, line, pausing: true },
        ));
        assert(script(next) == steps.skip(2 * line + 1) + report);
        lemma_skip_one(steps, 2 * line + 1, report);
        assert(all[1] == script(c).skip(1)[0]);
    } else if line + 1 < z.lines.len() {
        lemma_skip_one(steps, 2 * line + 1, report);
        let after = Phase::SetState {
            zone,
            desired,
            always_report,
            line: (line + 1) as usize,
            pausing: false,
        };
        assert(done == c.enter(after));
        assert(script(next) == steps.skip(2 * (line + 1)) + report);
        lemma_actuation_steps(z, desired, line + 1);
        lemma_skip_one(steps, 2 * (line + 1), report);
        assert(all[1] == script(c).skip(1)[0]);
    } else {
        lemma_skip_one(steps, 2 * line + 1, report);
        assert(done == c.commit(zone as int, desired, always_report));
        assert(next.zones == script_zones(c));
        assert(steps.skip(2 * line + 2) =~= Seq::<ActionView>::empty());
        assert(script(next) =~= report);
        assert(script(next) =~= script(c).skip(1));
        assert(all[1] == script(c).skip(1)[0]);
    }
    assert(script_zones(next) =~= script_zones(c));
}

/// Every controller that awaits the outcome of an action keeps to its script
/// when it is answered `Done`.
pub proof fn lemma_done_follows_script(c: ControllerView)
    requires
        c.wf(),
        c.phase != Phase::Starting,
        c.phase != Phase::Idle,
    ensures
        follows_script(c),
{
    match c.phase {
        Phase::GetShadow { zone, step } => lemma_done_in_get_shadow(c),
        Phase::SubscribeDelta { zone } => lemma_done_in_subscribe_delta(c),
        Phase::SetState { zone, desired, always_report, line, pausing } => lemma_done_in_set_state(
            c,
        ),
        Phase::PublishShadow { zone } => {
            let next = c.step(InputView::Done).controller;
            assert(script(next) =~= script(c).skip(1));
        },
        _ => {},
    }
}

/// A controller that is answered `Done` again and again runs its script to
/// the end: after `n` answers it has asked for the next `n` actions of the
/// script, with `Receive` after the last of them, and what is left of the
/// script is what follows them. At the end it waits for an event, and a zone
/// that was being brought to a state has taken it.
pub proof fn lemma_done_runs_script(c: ControllerView, n: nat)
    requires
        c.wf(),
        n <= script(c).len(),
    ensures
        after_done(c, n).wf(),
        script(after_done(c, n)) == script(c).skip(n as int),
        script_zones(after_done(c, n)) == script_zones(c),
        done_actions(c, n) == (script(c) + seq![ActionView::Receive]).subrange(1, n as int + 1),
        n == script(c).len() ==> after_done(c, n) == (ControllerView {
            zones: script_zones(c),
            phase: if n == 0 {
                c.phase
            } else {
                Phase::Idle
            },
        }),
    decreases n,
{
    let all = script(c) + seq![ActionView::Receive];
    if n == 0 {
        assert(script(c).skip(0) =~= script(c));
        assert(done_actions(c, 0) =~= all.subrange(1, 1));
    } else {
        let m = (n - 1) as nat;
        lemma_done_runs_script(c, m);
        let before = after_done(c, m);
        assert(script(before).len() > 0);
        lemma_done_follows_script(before);
        let next = before.step(InputView::Done).controller;
        assert(script(next) =~= script(c).skip(n as int));
        assert((script(before) + seq![ActionView::Receive])[1] == all[n as int]);
        assert(done_actions(c, n) =~= all.subrange(1, n as int + 1));
    }
}

/// The answer to a request for a shadow is applied and always reported: for
/// a document that holds a desired state and a device that a zone follows,
/// the controller asks, as long as nothing fails, for the writes and pauses
/// that bring the zone to the state, none if it is there already, then for
/// one publication of the state, and then waits for the next event, with
/// the zone at that state.
pub proof fn lemma_get_is_reported(
    c: ControllerView,
    thing_name: Seq<char>,
    shadow: Strings,
    text: Seq<char>,
    zone: int,
)
    requires
        c.wf(),
        c.phase == Phase::Idle,
        string_at(shadow, desired_path()) == Some(text),
        find_zone(c.zones, thing_name) == Some(zone),
    ensures
        ({
            let event = InputView::Event(EventView::Get { thing_name, shadow });
            let first = c.step(event);
            let work = actuation(c.zones[zone], is_on(text)) + seq![
                publish_shadow_action(thing_name, is_on(text)),
            ];
            &&& first.turn.error is None
            &&& seq![first.turn.action] + done_actions(first.controller, work.len()) == work
                + seq![ActionView::Receive]
            &&& after_done(first.controller, work.len()) == (ControllerView {
                zones: c.zones.update(zone, ZoneView { state: is_on(text), ..c.zones[zone] }),
                phase: Phase::Idle,
            })
        }),
{
    lemma_find_zone(c.zones, thing_name);
    lemma_event_runs_application(c, zone, is_on(text), true);
}

/// A delta is applied and reported only if it changes the zone: for a
/// document that holds a state and a device that a zone follows, a state
/// that the zone is at already leaves the controller as it was, waiting,
/// with nothing asked for; any other state has the controller ask, as long
/// as nothing fails, for the writes and pauses that bring the zone to it,
/// then for one publication of the state, and then wait for the next event,
/// with the zone at that state.
pub proof fn lemma_delta_is_reported_on_change(
    c: ControllerView,
    thing_name: Seq<char>,
    shadow: Strings,
    text: Seq<char>,
    zone: int,
)
    requires
        c.wf(),
        c.phase == Phase::Idle,
        string_at(shadow, delta_path()) == Some(text),
        find_zone(c.zones, thing_name) == Some(zone),
    ensures
        ({
            let event = InputView::Event(EventView::Delta { thing_name, shadow });
            let first = c.step(event);
            let work = actuation(c.zones[zone], is_on(text)) + seq![
                publish_shadow_action(thing_name, is_on(text)),
            ];
            &&& first.turn.error is None
            &&& c.zones[zone].state == is_on(text) ==> first.controller == c && first.turn.action
                == ActionView::Receive
            &&& c.zones[zone].state != is_on(text) ==> seq![first.turn.action] + done_actions(
                first.controller,
                work.len(),
            ) == work + seq![ActionView::Receive] && after_done(first.controller, work.len())
                == (ControllerView {
                zones: c.zones.update(zone, ZoneView { state: is_on(text), ..c.zones[zone] }),
                phase: Phase::Idle,
            })
        }),
{
    lemma_find_zone(c.zones, thing_name);
    if c.zones[zone].state == is_on(text) {
        assert(c.zones.update(zone, ZoneView { state: is_on(text), ..c.zones[zone] }) =~= c.zones);
    } else {
        lemma_event_runs_application(c, zone, is_on(text), false);
    }
}

/// What the controller asks for once it sets about bringing a zone to a
/// state, as long as nothing fails.
proof fn lemma_event_runs_application(c: ControllerView, zone: int, desired: bool, always_report: bool)
    requires
        c.wf(),
        c.phase == Phase::Idle,
        0 <= zone < c.zones.len(),
        c.zones[zone].state != desired || always_report,
    ensures
        ({
            let first = c.apply(zone, desired, always_report);
            let work = application(c.zones[zone], desired, always_report);
            &&& first.turn.error is None
            &&& seq![first.turn.action] + done_actions(first.controller, work.len()) == work
                + seq![ActionView::Receive]
            &&& after_done(first.controller, work.len()) == (ControllerView {
                zones: c.zones.update(zone, ZoneView { state: desired, ..c.zones[zone] }),
                phase: Phase::Idle,
            })
        }),
{
    let first = c.apply(zone, desired, always_report);
    let work = application(c.zones[zone], desired, always_report);
    let z = c.zones[zone];
    let after = c.zones.update(zone, ZoneView { state: desired, ..z });
    lemma_update_keeps_zones_valid(c.zones, zone, desired);
    assert(actuation(z, desired).skip(0) =~= actuation(z, desired));
    assert(script(first.controller) =~= work);
    assert(script_zones(first.controller) =~= after);
    assert(first.controller.wf());
    lemma_done_follows_script(first.controller);
    lemma_done_runs_script(first.controller, work.len());
    let all = work + seq![ActionView::Receive];
    assert(seq![first.turn.action] + all.subrange(1, work.len() as int + 1) =~= all);
}

/// Whenever the session is new, at the start and after a reconnect, the
/// controller asks the shadow service about every zone, as long as nothing
/// fails: zone after zone in configured order, and for each zone it
/// subscribes to the answer, lets the subscription settle, asks for the
/// shadow and subscribes to the changes of the desired state. Then it waits
/// for the next event, with no zone changed.
pub proof fn lemma_reconnect_registers_every_zone(c: ControllerView, input: InputView)
    requires
        c.wf(),
        c.phase == Phase::Starting || (c.phase == Phase::Idle && input == InputView::Event(
            EventView::Reconnect,
        )),
    ensures
        ({
            let first = c.step(input);
            let work = registration(c.zones, 0);
            &&& first.turn.error is None
            &&& seq![first.turn.action] + done_actions(first.controller, work.len()) == work
                + seq![ActionView::Receive]
            &&& after_done(first.controller, work.len()) == (ControllerView {
                zones: c.zones,
                phase: Phase::Idle,
            })
        }),
{
    let first = c.step(input);
    let work = registration(c.zones, 0);
    let all = work + seq![ActionView::Receive];
    if c.zones.len() > 0 {
        let requests = get_shadow_actions(c.zones[0].device_name);
        assert(requests.skip(0) =~= requests);
        assert(script(first.controller) =~= work);
        lemma_done_follows_script(first.controller);
        lemma_done_runs_script(first.controller, work.len());
        assert(seq![first.turn.action] + all.subrange(1, work.len() as int + 1) =~= all);
    } else {
        assert(seq![first.turn.action] + done_actions(first.controller, 0) =~= all);
    }
}

/// An event that cannot be acted on is dropped and leaves no trace: where
/// the document holds no state in its place, or no zone follows the device,
/// the controller stays as it was, waiting for the next event, which it
/// then treats as if the dropped one had never come.
pub proof fn lemma_dropped_event_changes_nothing(c: ControllerView, event: EventView)
    requires
        c.wf(),
        c.phase == Phase::Idle,
        match event {
            EventView::Reconnect => false,
            EventView::Get { thing_name, shadow } => string_at(shadow, desired_path()) is None
                || find_zone(c.zones, thing_name) is None,
            EventView::Delta { thing_name, shadow } => string_at(shadow, delta_path()) is None
                || find_zone(c.zones, thing_name) is None,
        },
    ensures
        c.step(InputView::Event(event)).controller == c,
        c.step(InputView::Event(event)).turn.action == ActionView::Receive,
        c.step(InputView::Event(event)).turn.error is Some,
        forall|next: InputView|
            c.step(InputView::Event(event)).controller.step(next) == #[trigger] c.step(next),
{
}

/// A turn leaves the controller well formed.
pub proof fn lemma_step_keeps_wf(c: ControllerView, input: InputView)
    requires
        c.wf(),
    ensures
        c.step(input).controller.wf(),
{
    match c.phase {
        Phase::Starting => {},
        Phase::Idle => {
            match input {
                InputView::Event(EventView::Get { thing_name, shadow }) => {
                    lemma_handle_keeps_wf(c, thing_name, string_at(shadow, desired_path()), true);
                },
                InputView::Event(EventView::Delta { thing_name, shadow }) => {
                    lemma_handle_keeps_wf(c, thing_name, string_at(shadow, delta_path()), false);
                },
                _ => {},
            }
        },
        Phase::SetState { zone, desired, always_report, line, pausing } => {
            lemma_update_keeps_zones_valid(c.zones, zone as int, desired);
        },
        _ => {},
    }
}

proof fn lemma_handle_keeps_wf(
    c: ControllerView,
    device: Seq<char>,
    state: Option<Seq<char>>,
    always_report: bool,
)
    requires
        c.wf(),
        c.phase == Phase::Idle,
    ensures
        c.handle(device, state, always_report).controller.wf(),
{
    lemma_find_zone(c.zones, device);
    if state is Some && find_zone(c.zones, device) is Some {
        lemma_update_keeps_zones_valid(
            c.zones,
            find_zone(c.zones, device)->0,
            is_on(state->0),
        );
    }
}

/// A write that fails ends the work on the event: the zone keeps its
/// state, no further line is written, nothing is reported, and the
/// controller waits for the next event with the line that failed as its
/// error.
pub proof fn lemma_failed_write_ends_the_work(c: ControllerView)
    requires
        c.wf(),
        c.phase is SetState,
        !c.phase->SetState_pausing,
    ensures
        c.step(InputView::Failed).controller == (ControllerView {
            zones: c.zones,
            phase: Phase::Idle,
        }),
        c.step(InputView::Failed).turn.action == ActionView::Receive,
        c.step(InputView::Failed).turn.error == Some(
            UpdateErrorView::GPIOError(
                HardwareError {
                    pin: c.zones[c.phase->SetState_zone as int].lines[c.phase->SetState_line as int],
                },
            ),
        ),
{
}

/// A request to the shadow service that fails stops nothing but itself: a
/// failed step of asking for a zone's shadow ends that request, and the
/// controller goes on with the zone's subscription to deltas and with every
/// zone after it; a failed subscription to deltas has it go on with the
/// zones after it. No zone changes, and the error is reported.
pub proof fn lemma_failed_request_goes_on(c: ControllerView)
    requires
        c.wf(),
        c.phase is GetShadow || c.phase is SubscribeDelta,
        !(c.awaited() is Sleep),
    ensures
        ({
            let next = c.step(InputView::Failed);
            let rest = match c.phase {
                Phase::GetShadow { zone, step } => seq![
                    subscribe_delta_action(c.zones[zone as int].device_name),
                ] + registration(c.zones, zone + 1),
                Phase::SubscribeDelta { zone } => registration(c.zones, zone + 1),
                _ => Seq::empty(),
            };
            &&& next.controller.wf()
            &&& next.controller.zones == c.zones
            &&& next.turn.error == Some(UpdateErrorView::IoTError)
            &&& script(next.controller) == rest
            &&& next.turn.action == (rest + seq![ActionView::Receive])[0]
        }),
{
    let next = c.step(InputView::Failed);
    match c.phase {
        Phase::SubscribeDelta { zone } => {
            if zone + 1 < c.zones.len() {
                let requests = get_shadow_actions(c.zones[zone + 1].device_name);
                assert(requests.skip(0) =~= requests);
                assert(script(next.controller) =~= registration(c.zones, zone + 1));
            } else {
                assert(script(next.controller) =~= registration(c.zones, zone + 1));
            }
        },
        _ => {},
    }
}

} // verus!
