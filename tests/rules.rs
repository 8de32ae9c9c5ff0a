use scout_wrapper::condition::{Condition, ConditionValue, RawCondition, RawConditionValue};
use scout_wrapper::data_key::ConditionKey;
use scout_wrapper::event_type::EventType;
use scout_wrapper::operator::Operator;
use scout_wrapper::response::{Response, ResponseType};
use scout_wrapper::rule::{RawRule, COMPILED_RULE_SIZE};

fn side(is_key: bool, value: &str) -> RawConditionValue {
    RawConditionValue { is_key, value: value.to_string() }
}

fn cond(n: u8) -> RawCondition {
    RawCondition {
        key: side(true, "packet.src_port"),
        operator: "greater_than".to_string(),
        value: side(false, if n % 2 == 0 { "AQI=" } else { "AAAAAA==" }),
    }
}

fn raw_rule(conditions: usize, responses: usize, events: usize) -> RawRule {
    let names = ["kill", "alert", "run", "isolate", "airgap", "kill", "bogus"];
    let evs = [
        "network.send_packet",
        "process.start",
        "file.open",
        "agent.heartbeat",
        "nope",
        "file.delete",
        "file.modify",
    ];
    RawRule {
        id: 7,
        order: 3,
        name: "block".to_string(),
        enabled: true,
        priority: 2,
        event_types: evs[..events].iter().map(|s| s.to_string()).collect(),
        conditions: (0..conditions).map(|i| cond(i as u8)).collect(),
        responses: names[..responses].iter().map(|s| s.to_string()).collect(),
    }
}

#[test]
fn compile_truncates_conditions_and_responses() {
    let rule = raw_rule(10, 7, 7).compile();
    assert_eq!(rule.conditions().len(), 10);
    assert_eq!(rule.responses().len(), 7);
    let c = rule.compile();
    assert_eq!(c.conditions.length, 8);
    assert_eq!(c.responses.length, 5);
    assert_eq!(c.id, 7);
    assert_eq!(c.order, 3);
    assert_eq!(c.responses.responses[0].type_, ResponseType::Kill);
    assert_eq!(c.responses.responses[4].type_, ResponseType::AirGap);
    assert_eq!(c.conditions.conditions[7].value.raw_length, 4);
    let bytes = c.to_bytes();
    assert_eq!(bytes.len(), COMPILED_RULE_SIZE);
}

#[test]
fn compile_zeroes_unused_slots() {
    let c = raw_rule(2, 1, 1).compile().compile();
    assert_eq!(c.conditions.length, 2);
    assert_eq!(c.responses.length, 1);
    for i in 2..8 {
        let s = c.conditions.conditions[i];
        assert_eq!(s.key.raw_length, 0);
        assert_eq!(s.key.raw, [0u8; 32]);
        assert_eq!(s.key.key, ConditionKey::Condition_None);
        assert_eq!(s.op, Operator::Equals);
    }
    for i in 1..5 {
        assert_eq!(c.responses.responses[i].type_, ResponseType::AirGap);
    }
    let bytes = c.to_bytes();
    // condition slots 2..8 and responses 1..5 are all zero bytes
    assert!(bytes[40 + 2 * 104..40 + 8 * 104].iter().all(|b| *b == 0));
    assert!(bytes[884..900].iter().all(|b| *b == 0));
}

#[test]
fn compiled_layout_offsets() {
    let c = raw_rule(1, 1, 2).compile().compile();
    let b = c.to_bytes();
    assert_eq!(b.len(), 904);
    assert_eq!(&b[0..8], &7u64.to_le_bytes());
    assert_eq!(&b[8..16], &3u64.to_le_bytes());
    assert_eq!(&b[16..20], &1u32.to_le_bytes()); // network.send_packet
    assert_eq!(&b[20..24], &5u32.to_le_bytes()); // process.start
    assert_eq!(&b[24..36], &[0u8; 12]);
    // first condition: key side is a data key
    assert_eq!(&b[40..48], &0u64.to_le_bytes());
    assert_eq!(&b[80..84], &4u32.to_le_bytes()); // packet.src_port
    assert_eq!(&b[88..92], &3u32.to_le_bytes()); // greater_than
    assert_eq!(&b[96..104], &2u64.to_le_bytes()); // literal of two bytes
    assert_eq!(&b[104..106], &[1, 2]);
    assert_eq!(&b[872..880], &1u64.to_le_bytes());
    assert_eq!(&b[880..884], &1u32.to_le_bytes()); // kill
    assert_eq!(&b[900..904], &1u32.to_le_bytes());
}

#[test]
fn event_types_fill_five_slots() {
    let r = raw_rule(0, 0, 7).compile();
    assert_eq!(
        *r.event_types(),
        [
            EventType::Network_SendPacket,
            EventType::Process_Start,
            EventType::File_Open,
            EventType::Agent_Heartbeat,
            EventType::Event_None,
        ]
    );
    let r2 = raw_rule(0, 0, 1).compile();
    assert_eq!(r2.event_types()[1], EventType::Event_None);
}

#[test]
fn rule_keeps_scalar_fields() {
    let r = raw_rule(0, 0, 0).compile();
    assert_eq!(r.id(), 7);
    assert_eq!(r.order(), 3);
    assert_eq!(r.name(), "block");
    assert!(r.enabled());
    assert_eq!(r.priority(), 2);
}

#[test]
fn name_mappings() {
    assert_eq!(EventType::from_string("file.created"), EventType::File_Created);
    assert_eq!(EventType::from_string("x"), EventType::Event_None);
    assert_eq!(ConditionKey::from_string("user.name"), ConditionKey::User_Name);
    assert_eq!(ConditionKey::from_string("packet.is_connection_establishing"), ConditionKey::Packet_IsConnectionEstablishing);
    assert_eq!(ConditionKey::from_string(""), ConditionKey::Condition_None);
    assert_eq!(Operator::from_string("in_payload_at"), Operator::InPayloadAt);
    assert_eq!(Operator::from_string("???"), Operator::Equals);
    assert_eq!(Response::from_string("isolate").type_, ResponseType::Isolate);
    assert_eq!(Response::from_string("other").type_, ResponseType::Alert);
    assert_eq!(ResponseType::from_u32(4), ResponseType::Run);
    assert_eq!(ResponseType::from_u32(9), ResponseType::Alert);
    assert_eq!(EventType::Agent_Disconnect.as_u32(), 14);
    assert_eq!(ConditionKey::User_Name.as_u32(), 17);
}

#[test]
fn literal_sides_decode_base64() {
    let v = ConditionValue::from_raw(side(false, "AQID"));
    assert_eq!(v.raw_length, 3);
    assert_eq!(&v.raw[..4], &[1, 2, 3, 0]);
    assert_eq!(v.key, ConditionKey::Condition_None);
    let bad = ConditionValue::from_raw(side(false, "not base64!"));
    assert_eq!(bad.raw_length, 0);
    assert_eq!(bad.raw, [0u8; 32]);
    let long = ConditionValue::from_raw(side(false, &"QUFB".repeat(20)));
    assert_eq!(long.raw_length, 32);
    assert_eq!(long.raw, [b'A'; 32]);
    let key = ConditionValue::from_raw(side(true, "process.name"));
    assert_eq!(key.key, ConditionKey::Process_Name);
    assert_eq!(key.raw_length, 0);
}

#[test]
fn condition_from_raw_maps_operator() {
    let c = Condition::from_raw(cond(0));
    assert_eq!(c.op, Operator::GreaterThan);
    assert_eq!(c.key.key, ConditionKey::Packet_SrcPort);
    assert_eq!(c.value.raw_length, 2);
}
