use zone_shadow::action::{Action, Level};
use zone_shadow::controller::{Controller, Input, Turn, UpdateError};
use zone_shadow::iot_client::{IoTClientConfig, IoTEvent};
use zone_shadow::settings::Settings;
use zone_shadow::zone::{HardwareError, ZoneConfig};

fn zone(name: &str, device_name: &str, pins: Vec<u8>, delay_millis: u64) -> ZoneConfig {
    ZoneConfig { name: String::from(name), device_name: String::from(device_name), pins, delay_millis }
}

fn settings(zones: Vec<ZoneConfig>) -> Settings {
    Settings::new(
        IoTClientConfig {
            client_id: String::from("controller"),
            host: String::from("broker.example"),
            port: 8883,
            root_ca_path: String::from("ca.pem"),
            private_key_path: String::from("key.pem"),
            certificate_path: String::from("cert.pem"),
        },
        zones,
    )
}

fn all_acquired(settings: &Settings) -> Vec<Vec<bool>> {
    settings.zones.iter().map(|z| vec![true; z.pins.len()]).collect()
}

fn subscribe(topic: &str) -> Action {
    Action::Subscribe { topic: String::from(topic) }
}

fn publish(topic: &str, payload: &str) -> Action {
    Action::Publish { topic: String::from(topic), payload: String::from(payload) }
}

fn get(device: &str, document: &str) -> Input {
    Input::Event(IoTEvent::Get {
        thing_name: String::from(device),
        shadow: serde_json::from_str(document).unwrap(),
    })
}

fn delta(device: &str, document: &str) -> Input {
    Input::Event(IoTEvent::Delta {
        thing_name: String::from(device),
        shadow: serde_json::from_str(document).unwrap(),
    })
}

fn desired(state: &str) -> String {
    format!("{{\"state\":{{\"desired\":{{\"state\":\"{}\"}}}}}}", state)
}

fn changed(state: &str) -> String {
    format!("{{\"state\":{{\"state\":\"{}\"}}}}", state)
}

const REPORT_ON: &str = "{\"state\":{\"reported\":{\"state\":\"ON\"}}}";
const REPORT_OFF: &str = "{\"state\":{\"reported\":{\"state\":\"OFF\"}}}";

/// Hands `input` to the controller and performs what it asks for until it
/// waits for an event. The actions whose position is in `failing` fail.
fn run(
    controller: &mut Controller,
    input: Input,
    failing: &[usize],
) -> (Vec<Action>, Vec<Option<UpdateError>>) {
    let mut actions = Vec::new();
    let mut errors = Vec::new();
    let mut turn: Turn = controller.receive_loop(input);
    loop {
        errors.push(turn.error);
        if turn.action == Action::Receive {
            assert!(controller.is_idle());
            return (actions, errors);
        }
        assert!(!controller.is_idle());
        let outcome = if failing.contains(&actions.len()) { Input::Failed } else { Input::Done };
        actions.push(turn.action);
        assert!(actions.len() < 1000);
        turn = controller.receive_loop(outcome);
    }
}

fn no_errors(errors: &[Option<UpdateError>]) -> bool {
    errors.iter().all(|e| e.is_none())
}

fn started(zones: Vec<ZoneConfig>) -> Controller {
    let settings = settings(zones);
    let mut controller = Controller::new(&settings, &all_acquired(&settings));
    run(&mut controller, Input::Done, &[]);
    controller
}

fn pump() -> Controller {
    started(vec![zone("pump", "pump-01", vec![17], 100)])
}

fn registration(device: &str) -> Vec<Action> {
    vec![
        subscribe(&format!("things/{}/shadow/get/accepted", device)),
        Action::Sleep { millis: 250 },
        publish(&format!("things/{}/shadow/get", device), "{}"),
        subscribe(&format!("things/{}/shadow/update/delta", device)),
    ]
}

#[test]
fn start_asks_about_every_zone() {
    let settings = settings(vec![
        zone("pump", "pump-01", vec![17], 100),
        zone("valve", "valve-02", vec![27, 22], 50),
    ]);
    let mut controller = Controller::new(&settings, &all_acquired(&settings));
    assert!(!controller.is_idle());
    let (actions, errors) = run(&mut controller, Input::Done, &[]);
    let mut expected = registration("pump-01");
    expected.extend(registration("valve-02"));
    assert_eq!(actions, expected);
    assert!(no_errors(&errors));
    assert!(controller.is_idle());
}

#[test]
fn start_does_not_look_at_its_input() {
    for input in [Input::Failed, Input::Event(IoTEvent::Reconnect), get("pump-01", "{}")] {
        let settings = settings(vec![zone("pump", "pump-01", vec![17], 100)]);
        let mut controller = Controller::new(&settings, &all_acquired(&settings));
        let (actions, errors) = run(&mut controller, input, &[]);
        assert_eq!(actions, registration("pump-01"));
        assert!(no_errors(&errors));
    }
}

#[test]
fn start_without_zones_waits_at_once() {
    let settings = settings(vec![]);
    let mut controller = Controller::new(&settings, &vec![]);
    let turn = controller.receive_loop(Input::Done);
    assert_eq!(turn, Turn { action: Action::Receive, error: None });
    assert!(controller.is_idle());
    let turn = controller.receive_loop(Input::Event(IoTEvent::Reconnect));
    assert_eq!(turn, Turn { action: Action::Receive, error: None });
}

#[test]
fn scenario_a_get_turns_the_pump_on() {
    let mut controller = pump();
    assert!(!controller.zones()[0].state());
    let (actions, errors) = run(&mut controller, get("pump-01", &desired("ON")), &[]);
    assert_eq!(
        actions,
        vec![
            Action::SetLine { pin: 17, level: Level::High },
            Action::Sleep { millis: 100 },
            publish("things/pump-01/shadow/update", "{\"state\":{\"reported\":{\"state\":\"ON\"}}}"),
        ]
    );
    assert!(no_errors(&errors));
    assert!(controller.zones()[0].state());
}

#[test]
fn scenario_b_delta_for_the_state_at_hand_does_nothing() {
    let mut controller = pump();
    run(&mut controller, get("pump-01", &desired("ON")), &[]);
    assert!(controller.zones()[0].state());
    let turn = controller.receive_loop(delta("pump-01", &changed("ON")));
    assert_eq!(turn, Turn { action: Action::Receive, error: None });
    assert!(controller.is_idle());
    assert!(controller.zones()[0].state());
}

#[test]
fn scenario_c_reconnect_asks_about_every_zone_again() {
    let mut controller = started(vec![
        zone("pump", "pump-01", vec![17], 100),
        zone("valve", "valve-02", vec![27, 22], 50),
        zone("lamp", "lamp-03", vec![], 0),
    ]);
    let (actions, errors) = run(&mut controller, Input::Event(IoTEvent::Reconnect), &[]);
    assert_eq!(
        actions,
        vec![
            subscribe("things/pump-01/shadow/get/accepted"),
            Action::Sleep { millis: 250 },
            publish("things/pump-01/shadow/get", "{}"),
            subscribe("things/pump-01/shadow/update/delta"),
            subscribe("things/valve-02/shadow/get/accepted"),
            Action::Sleep { millis: 250 },
            publish("things/valve-02/shadow/get", "{}"),
            subscribe("things/valve-02/shadow/update/delta"),
            subscribe("things/lamp-03/shadow/get/accepted"),
            Action::Sleep { millis: 250 },
            publish("things/lamp-03/shadow/get", "{}"),
            subscribe("things/lamp-03/shadow/update/delta"),
        ]
    );
    assert!(no_errors(&errors));
}

#[test]
fn get_is_reported_even_without_a_change() {
    let mut controller = pump();
    let (actions, errors) = run(&mut controller, get("pump-01", &desired("OFF")), &[]);
    assert_eq!(actions, vec![publish("things/pump-01/shadow/update", REPORT_OFF)]);
    assert!(no_errors(&errors));
    run(&mut controller, get("pump-01", &desired("ON")), &[]);
    let (actions, errors) = run(&mut controller, get("pump-01", &desired("ON")), &[]);
    assert_eq!(actions, vec![publish("things/pump-01/shadow/update", REPORT_ON)]);
    assert!(no_errors(&errors));
    assert!(controller.zones()[0].state());
}

#[test]
fn delta_is_reported_once_on_a_change() {
    let mut controller = pump();
    let (actions, errors) = run(&mut controller, delta("pump-01", &changed("ON")), &[]);
    assert_eq!(
        actions,
        vec![
            Action::SetLine { pin: 17, level: Level::High },
            Action::Sleep { millis: 100 },
            publish("things/pump-01/shadow/update", REPORT_ON),
        ]
    );
    assert!(no_errors(&errors));
    let (actions, _) = run(&mut controller, delta("pump-01", &changed("ON")), &[]);
    assert_eq!(actions, vec![]);
    let (actions, errors) = run(&mut controller, delta("pump-01", &changed("OFF")), &[]);
    assert_eq!(
        actions,
        vec![
            Action::SetLine { pin: 17, level: Level::Low },
            Action::Sleep { millis: 100 },
            publish("things/pump-01/shadow/update", REPORT_OFF),
        ]
    );
    assert!(no_errors(&errors));
    assert!(!controller.zones()[0].state());
}

#[test]
fn lines_are_switched_in_order_with_the_delay_after_each() {
    let mut controller = started(vec![
        zone("pump", "pump-01", vec![17], 100),
        zone("valve", "valve-02", vec![27, 22, 5], 50),
    ]);
    let (actions, _) = run(&mut controller, delta("valve-02", &changed("ON")), &[]);
    assert_eq!(
        actions,
        vec![
            Action::SetLine { pin: 27, level: Level::High },
            Action::Sleep { millis: 50 },
            Action::SetLine { pin: 22, level: Level::High },
            Action::Sleep { millis: 50 },
            Action::SetLine { pin: 5, level: Level::High },
            Action::Sleep { millis: 50 },
            publish("things/valve-02/shadow/update", REPORT_ON),
        ]
    );
    assert!(!controller.zones()[0].state());
    assert!(controller.zones()[1].state());
}

#[test]
fn any_text_but_on_means_off() {
    let mut controller = pump();
    run(&mut controller, get("pump-01", &desired("ON")), &[]);
    let (actions, _) = run(&mut controller, delta("pump-01", &changed("on")), &[]);
    assert_eq!(
        actions,
        vec![
            Action::SetLine { pin: 17, level: Level::Low },
            Action::Sleep { millis: 100 },
            publish("things/pump-01/shadow/update", REPORT_OFF),
        ]
    );
    assert!(!controller.zones()[0].state());
}

#[test]
fn event_for_an_unknown_device_is_dropped() {
    let mut controller = pump();
    let turn = controller.receive_loop(get("pump-02", &desired("ON")));
    assert_eq!(
        turn,
        Turn {
            action: Action::Receive,
            error: Some(UpdateError::UnknownZone(String::from("pump-02"))),
        }
    );
    let turn = controller.receive_loop(delta("", &changed("ON")));
    assert_eq!(
        turn,
        Turn { action: Action::Receive, error: Some(UpdateError::UnknownZone(String::new())) }
    );
    assert!(controller.is_idle());
    assert!(!controller.zones()[0].state());
    let (actions, errors) = run(&mut controller, get("pump-01", &desired("ON")), &[]);
    assert_eq!(actions.len(), 3);
    assert!(no_errors(&errors));
    assert!(controller.zones()[0].state());
}

#[test]
fn event_without_the_expected_field_is_dropped() {
    let mut controller = pump();
    for document in ["{}", "{\"state\":{\"state\":\"ON\"}}", "{\"state\":{\"desired\":{\"state\":1}}}"] {
        let turn = controller.receive_loop(get("pump-01", document));
        assert_eq!(turn, Turn { action: Action::Receive, error: Some(UpdateError::ShadowError) });
    }
    for document in ["null", "{\"state\":{\"desired\":{\"state\":\"ON\"}}}", "{\"state\":\"ON\"}"] {
        let turn = controller.receive_loop(delta("pump-01", document));
        assert_eq!(turn, Turn { action: Action::Receive, error: Some(UpdateError::ShadowError) });
    }
    let turn = controller.receive_loop(get("nobody", "{}"));
    assert_eq!(turn, Turn { action: Action::Receive, error: Some(UpdateError::ShadowError) });
    assert!(controller.is_idle());
    assert!(!controller.zones()[0].state());
    let (actions, errors) = run(&mut controller, delta("pump-01", &changed("ON")), &[]);
    assert_eq!(actions.len(), 3);
    assert!(no_errors(&errors));
}

#[test]
fn failed_write_keeps_the_state_and_reports_nothing() {
    let mut controller = started(vec![zone("valve", "valve-02", vec![27, 22, 5], 50)]);
    let (actions, errors) = run(&mut controller, get("valve-02", &desired("ON")), &[2]);
    assert_eq!(
        actions,
        vec![
            Action::SetLine { pin: 27, level: Level::High },
            Action::Sleep { millis: 50 },
            Action::SetLine { pin: 22, level: Level::High },
        ]
    );
    assert_eq!(
        errors,
        vec![None, None, None, Some(UpdateError::GPIOError(HardwareError { pin: 22 }))]
    );
    assert!(!controller.zones()[0].state());
    let (actions, errors) = run(&mut controller, delta("valve-02", &changed("ON")), &[0]);
    assert_eq!(actions, vec![Action::SetLine { pin: 27, level: Level::High }]);
    assert_eq!(errors, vec![None, Some(UpdateError::GPIOError(HardwareError { pin: 27 }))]);
    assert!(!controller.zones()[0].state());
    let (actions, errors) = run(&mut controller, delta("valve-02", &changed("ON")), &[]);
    assert_eq!(actions.len(), 7);
    assert!(no_errors(&errors));
    assert!(controller.zones()[0].state());
}

#[test]
fn a_pause_cannot_fail() {
    let mut controller = pump();
    let (actions, errors) = run(&mut controller, get("pump-01", &desired("ON")), &[1]);
    assert_eq!(actions.len(), 3);
    assert!(no_errors(&errors));
    assert!(controller.zones()[0].state());
    let (actions, errors) = run(&mut controller, Input::Event(IoTEvent::Reconnect), &[1]);
    assert_eq!(actions, registration("pump-01"));
    assert!(no_errors(&errors));
}

#[test]
fn failed_report_is_not_made_again() {
    let mut controller = pump();
    let (actions, errors) = run(&mut controller, get("pump-01", &desired("ON")), &[2]);
    assert_eq!(actions.len(), 3);
    assert_eq!(errors, vec![None, None, None, Some(UpdateError::IoTError)]);
    assert!(controller.zones()[0].state());
    assert!(controller.is_idle());
}

#[test]
fn failed_subscription_gives_up_the_request_and_goes_on() {
    let mut controller = started(vec![
        zone("pump", "pump-01", vec![17], 100),
        zone("valve", "valve-02", vec![27], 50),
    ]);
    let (actions, errors) = run(&mut controller, Input::Event(IoTEvent::Reconnect), &[0]);
    let mut expected = vec![
        subscribe("things/pump-01/shadow/get/accepted"),
        subscribe("things/pump-01/shadow/update/delta"),
    ];
    expected.extend(registration("valve-02"));
    assert_eq!(actions, expected);
    assert_eq!(errors, vec![None, Some(UpdateError::IoTError), None, None, None, None, None]);
}

#[test]
fn failed_requests_do_not_stop_the_other_zones() {
    let mut controller = started(vec![
        zone("pump", "pump-01", vec![17], 100),
        zone("valve", "valve-02", vec![27], 50),
    ]);
    let (actions, errors) = run(&mut controller, Input::Event(IoTEvent::Reconnect), &[2, 3, 7]);
    let mut expected = registration("pump-01");
    expected.extend(registration("valve-02"));
    assert_eq!(actions, expected);
    assert_eq!(
        errors,
        vec![
            None,
            None,
            None,
            Some(UpdateError::IoTError),
            Some(UpdateError::IoTError),
            None,
            None,
            None,
            Some(UpdateError::IoTError),
        ]
    );
    assert!(controller.is_idle());
}

#[test]
fn outcomes_while_waiting_leave_the_controller_waiting() {
    let mut controller = pump();
    for input in [Input::Done, Input::Failed] {
        let turn = controller.receive_loop(input);
        assert_eq!(turn, Turn { action: Action::Receive, error: None });
        assert!(controller.is_idle());
    }
    assert!(!controller.zones()[0].state());
}

#[test]
fn lines_that_were_not_acquired_are_not_switched() {
    let settings = settings(vec![zone("valve", "valve-02", vec![27, 22, 5], 50)]);
    let mut controller = Controller::new(&settings, &vec![vec![true, false, true]]);
    run(&mut controller, Input::Done, &[]);
    assert_eq!(controller.zones()[0].lines(), &vec![27, 5]);
    let (actions, _) = run(&mut controller, get("valve-02", &desired("ON")), &[]);
    assert_eq!(
        actions,
        vec![
            Action::SetLine { pin: 27, level: Level::High },
            Action::Sleep { millis: 50 },
            Action::SetLine { pin: 5, level: Level::High },
            Action::Sleep { millis: 50 },
            publish("things/valve-02/shadow/update", REPORT_ON),
        ]
    );
}

#[test]
fn zone_without_lines_takes_the_state_and_reports_it() {
    let settings = settings(vec![zone("valve", "valve-02", vec![27], 50)]);
    let mut controller = Controller::new(&settings, &vec![]);
    run(&mut controller, Input::Done, &[]);
    let (actions, errors) = run(&mut controller, delta("valve-02", &changed("ON")), &[]);
    assert_eq!(actions, vec![publish("things/valve-02/shadow/update", REPORT_ON)]);
    assert!(no_errors(&errors));
    assert!(controller.zones()[0].state());
    let (actions, _) = run(&mut controller, delta("valve-02", &changed("ON")), &[]);
    assert_eq!(actions, vec![]);
}

#[test]
fn later_configuration_of_a_device_replaces_the_earlier() {
    let settings = settings(vec![
        zone("pump", "pump-01", vec![17], 100),
        zone("valve", "valve-02", vec![27], 50),
        zone("big pump", "pump-01", vec![5, 6], 10),
    ]);
    let controller = Controller::new(&settings, &all_acquired(&settings));
    assert_eq!(controller.zones().len(), 2);
    assert_eq!(controller.zones()[0].name(), "big pump");
    assert_eq!(controller.zones()[0].device_name(), "pump-01");
    assert_eq!(controller.zones()[0].lines(), &vec![5, 6]);
    assert_eq!(controller.zones()[0].delay_millis(), 10);
    assert_eq!(controller.zones()[1].name(), "valve");
}
