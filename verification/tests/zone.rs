use zone_shadow::zone::{HardwareError, Zone, ZoneConfig};

fn pump(pins: Vec<u8>) -> ZoneConfig {
    ZoneConfig {
        name: String::from("pump"),
        device_name: String::from("pump-01"),
        pins,
        delay_millis: 150,
    }
}

#[test]
fn new_zone_is_off_and_keeps_its_configuration() {
    let zone = Zone::new(&pump(vec![17, 27]), &vec![true, true]);
    assert_eq!(zone.name(), "pump");
    assert_eq!(zone.device_name(), "pump-01");
    assert_eq!(zone.lines(), &vec![17, 27]);
    assert_eq!(zone.delay_millis(), 150);
    assert!(!zone.state());
}

#[test]
fn new_zone_omits_lines_that_were_not_acquired() {
    let zone = Zone::new(&pump(vec![4, 17, 27, 22]), &vec![true, false, true, false]);
    assert_eq!(zone.lines(), &vec![4, 27]);
    let zone = Zone::new(&pump(vec![4, 17, 27, 22]), &vec![false, true]);
    assert_eq!(zone.lines(), &vec![17]);
    let zone = Zone::new(&pump(vec![4, 17]), &vec![]);
    assert_eq!(zone.lines(), &Vec::<u8>::new());
    let zone = Zone::new(&pump(vec![4, 17]), &vec![true, true, true]);
    assert_eq!(zone.lines(), &vec![4, 17]);
    let zone = Zone::new(&pump(vec![]), &vec![true]);
    assert_eq!(zone.lines(), &Vec::<u8>::new());
}

#[test]
fn set_state_changes_once_every_line_is_written() {
    let mut zone = Zone::new(&pump(vec![17, 27]), &vec![true, true]);
    assert_eq!(zone.set_state(true, 2), Ok(true));
    assert!(zone.state());
    assert_eq!(zone.set_state(false, 2), Ok(true));
    assert!(!zone.state());
}

#[test]
fn set_state_twice_changes_once() {
    let mut zone = Zone::new(&pump(vec![17, 27]), &vec![true, true]);
    assert_eq!(zone.set_state(true, 2), Ok(true));
    assert_eq!(zone.set_state(true, 0), Ok(false));
    assert_eq!(zone.set_state(true, 2), Ok(false));
    assert!(zone.state());
}

#[test]
fn set_state_off_on_a_new_zone_is_no_change() {
    let mut zone = Zone::new(&pump(vec![17]), &vec![true]);
    assert_eq!(zone.set_state(false, 0), Ok(false));
    assert!(!zone.state());
}

#[test]
fn set_state_fails_with_the_line_that_was_not_written() {
    let mut zone = Zone::new(&pump(vec![17, 27, 22]), &vec![true, true, true]);
    assert_eq!(zone.set_state(true, 0), Err(HardwareError { pin: 17 }));
    assert!(!zone.state());
    assert_eq!(zone.set_state(true, 1), Err(HardwareError { pin: 27 }));
    assert!(!zone.state());
    assert_eq!(zone.set_state(true, 2), Err(HardwareError { pin: 22 }));
    assert!(!zone.state());
    assert_eq!(zone.set_state(true, 3), Ok(true));
    assert!(zone.state());
}

#[test]
fn set_state_of_a_zone_without_lines() {
    let mut zone = Zone::new(&pump(vec![17]), &vec![false]);
    assert_eq!(zone.set_state(true, 0), Ok(true));
    assert!(zone.state());
}
