use zone_shadow::topic::{
    decode_topic_name, parse_topic, shadow_delta_topic, shadow_get_accepted_topic,
    shadow_get_topic, shadow_update_topic, Reply,
};

#[test]
fn test_decode_topic_name_get() {
    let decode = decode_topic_name(&"$aws/things/foo-device/shadow/get/accepted").unwrap();
    assert_eq!(String::from("foo-device"), decode.0);
    assert_eq!(String::from("get"), decode.1);
}

#[test]
fn test_decode_topic_name_update() {
    let decode = decode_topic_name("$aws/things/bar-device/shadow/update/delta").unwrap();
    assert_eq!(String::from("bar-device"), decode.0);
    assert_eq!(String::from("update"), decode.1);
}

#[test]
fn test_decode_topic_name_missing_thing_name() {
    assert!(decode_topic_name("$aws/things/shadow/get/accepted").is_none());
}

#[test]
fn decode_topic_at_the_root() {
    let decode = decode_topic_name("things/pump-01/shadow/get/accepted").unwrap();
    assert_eq!(decode, (String::from("pump-01"), String::from("get")));
    let decode = decode_topic_name("things/pump-01/shadow/update/delta").unwrap();
    assert_eq!(decode, (String::from("pump-01"), String::from("update")));
}

#[test]
fn decode_topic_missing_identifier_at_the_root() {
    assert!(decode_topic_name("things/shadow/get/accepted").is_none());
    assert!(decode_topic_name("things//shadow/get/accepted").is_none());
    assert!(decode_topic_name("$aws/things//shadow/update/delta").is_none());
}

#[test]
fn decode_topic_of_a_device_called_shadow() {
    let decode = decode_topic_name("things/shadow/shadow/get/accepted").unwrap();
    assert_eq!(decode, (String::from("shadow"), String::from("get")));
}

#[test]
fn decode_topic_with_unknown_tail() {
    assert!(decode_topic_name("things/pump-01/shadow/get/rejected").is_none());
    assert!(decode_topic_name("things/pump-01/shadow/get/delta").is_none());
    assert!(decode_topic_name("things/pump-01/shadow/get/").is_none());
    assert!(decode_topic_name("things/pump-01/shadow/get").is_none());
    assert!(decode_topic_name("things/pump-01/shadow/update").is_none());
    assert!(decode_topic_name("things/pump-01/shadow/update/delta/more").is_none());
    assert!(decode_topic_name("things/pump-01/shadow/get/accepted/").is_none());
    assert!(decode_topic_name("things/pump-01/shadow/get/acceptedx").is_none());
}

#[test]
fn decode_topic_of_any_accepted_action() {
    let decode = decode_topic_name("things/pump-01/shadow/update/accepted").unwrap();
    assert_eq!(decode, (String::from("pump-01"), String::from("update")));
    let decode = decode_topic_name("things/pump-01/shadow/delete/accepted").unwrap();
    assert_eq!(decode, (String::from("pump-01"), String::from("delete")));
}

#[test]
fn decode_topic_of_another_form() {
    assert!(decode_topic_name("").is_none());
    assert!(decode_topic_name("things/").is_none());
    assert!(decode_topic_name("$aws/").is_none());
    assert!(decode_topic_name("thing/pump-01/shadow/get/accepted").is_none());
    assert!(decode_topic_name("/things/pump-01/shadow/get/accepted").is_none());
    assert!(decode_topic_name("$AWS/things/pump-01/shadow/get/accepted").is_none());
    assert!(decode_topic_name("$aws/$aws/things/pump-01/shadow/get/accepted").is_none());
    assert!(decode_topic_name("things/pump-01/shade/get/accepted").is_none());
    assert!(decode_topic_name("things/pump/01/shadow/get/accepted").is_none());
    assert!(decode_topic_name("things/pump-01/shadow//accepted").is_none());
}

#[test]
fn decode_topic_keeps_every_character() {
    let decode = decode_topic_name("things/Pümpe 7 ✓/shadow/get/accepted").unwrap();
    assert_eq!(decode, (String::from("Pümpe 7 ✓"), String::from("get")));
}

#[test]
fn parse_topic_tells_the_answer() {
    let accepted = parse_topic("things/pump-01/shadow/get/accepted").unwrap();
    assert_eq!(accepted.thing_name, "pump-01");
    assert_eq!(accepted.action, "get");
    assert_eq!(accepted.reply, Reply::Accepted);
    let delta = parse_topic("$aws/things/pump-01/shadow/update/delta").unwrap();
    assert_eq!(delta.thing_name, "pump-01");
    assert_eq!(delta.action, "update");
    assert_eq!(delta.reply, Reply::Delta);
    let accepted = parse_topic("things/pump-01/shadow/update/accepted").unwrap();
    assert_eq!(accepted.reply, Reply::Accepted);
    assert!(parse_topic("things/pump-01/shadow/get/delta").is_none());
}

#[test]
fn builds_the_four_topics() {
    assert_eq!(shadow_get_topic("pump-01"), "things/pump-01/shadow/get");
    assert_eq!(shadow_get_accepted_topic("pump-01"), "things/pump-01/shadow/get/accepted");
    assert_eq!(shadow_delta_topic("pump-01"), "things/pump-01/shadow/update/delta");
    assert_eq!(shadow_update_topic("pump-01"), "things/pump-01/shadow/update");
}

#[test]
fn subscribed_topics_decode_to_their_device() {
    for id in ["pump-01", "a", "zone 3", "shadow", "things"] {
        let decode = decode_topic_name(&shadow_get_accepted_topic(id)).unwrap();
        assert_eq!(decode, (String::from(id), String::from("get")));
        let decode = decode_topic_name(&shadow_delta_topic(id)).unwrap();
        assert_eq!(decode, (String::from(id), String::from("update")));
    }
}
