use scout_wrapper::agent::{
    classify_server_message, heartbeat_fields, report_fields, rule_request_fields, Agent,
    AgentState, LoaderOutcome, ServerMessage, HEARTBEAT_INTERVAL, RULE_REQUEST_INTERVAL,
};
use scout_wrapper::condition::{RawCondition, RawConditionValue};
use scout_wrapper::fields::{Fields, FieldsBuilder};
use scout_wrapper::network::{
    select_active_interface, HostIdentity, InterfaceInfo, NetworkDetails, NetworkInfo,
    NETWORK_INFO_SIZE,
};
use scout_wrapper::report::{
    direction_to_string, ip_to_string, mac_to_string, report_type_to_string,
    violation_response_to_string, violation_type_to_string, Report, ReportType, REPORT_SIZE,
};
use scout_wrapper::rule::{RawRule, Rule, COMPILED_RULE_SIZE};
use scout_wrapper::shm::{loader_ready, CommID, RawCommsResponse, ShmChannel, LOADER_SHM_KEY, WRAPPER_SHM_KEY};

fn rule(id: u64, enabled: bool) -> Rule {
    RawRule {
        id,
        order: 0,
        name: format!("r{}", id),
        enabled,
        priority: 0,
        event_types: vec![],
        conditions: vec![RawCondition {
            key: RawConditionValue { is_key: true, value: "packet.dst_port".to_string() },
            operator: "equals".to_string(),
            value: RawConditionValue { is_key: false, value: "AFA=".to_string() },
        }],
        responses: vec!["alert".to_string()],
    }
    .compile()
}

fn request(cid: u32, code: u32, data: &[u8]) -> RawCommsResponse {
    let mut r = RawCommsResponse::new();
    r.current_conversation_id = cid;
    r.request_id = code;
    r.data[..data.len()].copy_from_slice(data);
    r.size = data.len();
    r
}

fn packet_report_bytes() -> Vec<u8> {
    let mut b = vec![0u8; REPORT_SIZE];
    b[0..4].copy_from_slice(&1u32.to_le_bytes());
    let p = 8;
    b[p..p + 8].copy_from_slice(&7u64.to_le_bytes());
    b[p + 8] = 0;
    b[p + 12..p + 16].copy_from_slice(&1u32.to_le_bytes());
    b[p + 16..p + 18].copy_from_slice(&6u16.to_le_bytes());
    b[p + 33] = 1;
    b[p + 36..p + 40].copy_from_slice(&1234u32.to_le_bytes());
    b[p + 40..p + 44].copy_from_slice(b"curl");
    b[p + 56..p + 62].copy_from_slice(&[0xde, 0xad, 0xbe, 0xef, 0x00, 0x01]);
    b[p + 68] = 1;
    b[p + 72..p + 74].copy_from_slice(&443u16.to_le_bytes());
    b[p + 74..p + 76].copy_from_slice(&51000u16.to_le_bytes());
    b[p + 76] = 1;
    b[p + 80..p + 84].copy_from_slice(&[10, 0, 0, 1]);
    b[p + 84..p + 88].copy_from_slice(&[10, 0, 0, 2]);
    b[p + 112..p + 120].copy_from_slice(&100u64.to_le_bytes());
    b[p + 120..p + 128].copy_from_slice(&3u64.to_le_bytes());
    b[p + 128..p + 131].copy_from_slice(b"abc");
    b
}

#[test]
fn active_rule_ids_are_answered_in_the_same_conversation() {
    let mut agent = Agent::new(vec![rule(1, true), rule(2, false), rule(3, true)], 0);
    let input = request(5, 1, &[]);
    let mut out = RawCommsResponse::new();
    assert!(matches!(agent.service_loader(&input, &mut out), LoaderOutcome::Responded));
    assert_eq!(out.current_conversation_id, 5);
    assert_eq!(out.request_id, CommID::ResActiveRuleIds.as_u32());
    assert_eq!(out.size, 16);
    assert_eq!(&out.data[..8], &1u64.to_le_bytes());
    assert_eq!(&out.data[8..16], &3u64.to_le_bytes());
    // the same record again is nothing new
    assert!(matches!(agent.service_loader(&input, &mut out), LoaderOutcome::Idle));
}

#[test]
fn rule_data_is_the_compiled_record() {
    let rules = vec![rule(1, true), rule(9, true)];
    let expected = rules[1].compile().to_bytes();
    let mut agent = Agent::new(rules, 0);
    let mut out = RawCommsResponse::new();
    let input = request(11, 2, &9u64.to_le_bytes());
    assert!(matches!(agent.service_loader(&input, &mut out), LoaderOutcome::Responded));
    assert_eq!(out.request_id, 5);
    assert_eq!(out.current_conversation_id, 11);
    assert_eq!(out.size, COMPILED_RULE_SIZE);
    assert_eq!(&out.data[..COMPILED_RULE_SIZE], &expected[..]);
}

#[test]
fn unknown_rule_gets_empty_answer() {
    let mut agent = Agent::new(vec![rule(1, true)], 0);
    let mut out = RawCommsResponse::new();
    let input = request(12, 2, &42u64.to_le_bytes());
    assert!(matches!(agent.service_loader(&input, &mut out), LoaderOutcome::Responded));
    assert_eq!(out.size, 0);
    assert_eq!(out.current_conversation_id, 12);
}

#[test]
fn packet_violation_is_forwarded() {
    let mut agent = Agent::new(vec![], 0);
    let mut out = RawCommsResponse::new();
    let input = request(3, 3, &packet_report_bytes());
    let rep = match agent.service_loader(&input, &mut out) {
        LoaderOutcome::Forward(r) => r,
        _ => panic!("expected a report to forward"),
    };
    assert_eq!(rep.type_, ReportType::ReportPacket);
    let p = rep.packet_report;
    assert_eq!(p.violated_rule_id, 7);
    assert_eq!(ip_to_string(&p.ip, true), "10.0.0.1");
    assert_eq!(ip_to_string(&p.ip, false), "10.0.0.2");
    assert_eq!(p.ip.src_port, 443);
    assert_eq!(p.process.pid, 1234);
    assert_eq!(p.process_name(), b"curl".to_vec());
    assert_eq!(mac_to_string(&p.src_mac), "de:ad:be:ef:00:01");
    assert_eq!(direction_to_string(p.direction), "outbound");
    assert_eq!(violation_type_to_string(p.violation_type), "packet");
    assert_eq!(violation_response_to_string(p.violation_response), "kill");
    assert_eq!(report_type_to_string(rep.type_), "packet");
    assert_eq!(p.payload_base64(), "YWJj");
    let fields = report_fields("{\"violated_rule_id\":7}").unwrap();
    let mut f = Fields::decode(&fields.to_bytes()).ok().unwrap();
    assert_eq!(f.consume_text_field().ok().unwrap().value(), b"report".to_vec());
    assert_eq!(f.consume_text_field().ok().unwrap().value(), b"{\"violated_rule_id\":7}".to_vec());
}

#[test]
fn short_or_other_reports_are_dropped() {
    let mut agent = Agent::new(vec![], 0);
    let mut out = RawCommsResponse::new();
    let input = request(4, 3, &[1, 0, 0, 0]);
    assert!(matches!(agent.service_loader(&input, &mut out), LoaderOutcome::Dropped(3)));
    let mut file = packet_report_bytes();
    file[0] = 2;
    let input = request(5, 3, &file);
    assert!(matches!(agent.service_loader(&input, &mut out), LoaderOutcome::Dropped(3)));
    let input = request(6, 9, &[]);
    assert!(matches!(agent.service_loader(&input, &mut out), LoaderOutcome::Dropped(9)));
    assert!(Report::from_bytes(&[0u8; 10]).is_none());
}

#[test]
fn ipv6_text_drops_leading_zeros() {
    let mut b = packet_report_bytes();
    b[8 + 76] = 0;
    let src: [u64; 2] = [0x2001_0db8_0000_0001, 0x0000_0000_0000_00ff];
    b[8 + 80..8 + 88].copy_from_slice(&src[0].to_le_bytes());
    b[8 + 88..8 + 96].copy_from_slice(&src[1].to_le_bytes());
    let rep = Report::from_bytes(&b).unwrap();
    assert_eq!(ip_to_string(&rep.packet_report.ip, true), "2001:db8:0:1:0:0:0:ff");
}

fn network_bytes(rows: &[(&str, u32)]) -> Vec<u8> {
    let mut b = vec![0u8; NETWORK_INFO_SIZE];
    for (i, (name, count)) in rows.iter().enumerate() {
        b[18 * i..18 * i + name.len()].copy_from_slice(name.as_bytes());
        b[1152 + 4 * i..1156 + 4 * i].copy_from_slice(&count.to_le_bytes());
    }
    b[1408..1412].copy_from_slice(&(rows.len() as u32).to_le_bytes());
    b
}

#[test]
fn network_update_adds_on_collision() {
    let mut agent = Agent::new(vec![], 0);
    let mut out = RawCommsResponse::new();
    let data = network_bytes(&[("aa:bb", 2), ("cc:dd", 1), ("aa:bb", 3)]);
    let input = request(8, 6, &data);
    assert!(matches!(agent.service_loader(&input, &mut out), LoaderOutcome::Merged));
    let n = agent.network_details();
    assert_eq!(n.len(), 2);
    assert_eq!(n.entry(0), (b"aa:bb".to_vec(), 5));
    assert_eq!(n.entry(1), (b"cc:dd".to_vec(), 1));
    agent.heartbeat_sent(10);
    assert_eq!(agent.network_details().len(), 0);
}

#[test]
fn merge_twice_adds_counts() {
    let info = NetworkInfo::from_bytes(&network_bytes(&[("x", 4)])).unwrap();
    let mut d = NetworkDetails::new();
    d.merge_network_info(&info);
    d.merge_network_info(&info);
    assert_eq!(d.entry(0), (b"x".to_vec(), 8));
    assert!(NetworkInfo::from_bytes(&[0u8; 100]).is_none());
}

#[test]
fn shm_write_then_read_pairs_conversation() {
    let mut wrapper = ShmChannel::new();
    let mut reader = ShmChannel::new();
    let mut region = RawCommsResponse::new();
    wrapper.write(&mut region, CommID::ReqRuleData, &[1, 2, 3], Some(77));
    let got = reader.read(&region, Some(77)).unwrap();
    assert_eq!(got.current_conversation_id, 77);
    assert_eq!(got.request_id, 2);
    assert_eq!(got.size, 3);
    assert_eq!(&got.data[..3], &[1, 2, 3]);
    assert!(reader.read(&region, None).is_none());
    assert!(reader.read(&region, Some(78)).is_none());
}

#[test]
fn shm_write_without_id_takes_next_and_truncates() {
    let mut ch = ShmChannel::new();
    let mut region = RawCommsResponse::new();
    ch.write(&mut region, CommID::ResNetworkInfoUpdate, &[9], None);
    assert_eq!(region.current_conversation_id, 1);
    ch.write(&mut region, CommID::ResRuleData, &vec![5u8; 5000], None);
    assert_eq!(region.current_conversation_id, 2);
    assert_eq!(region.size, 4096);
    ch.write(&mut region, CommID::ResRuleData, &[], Some(u32::MAX));
    ch.write(&mut region, CommID::ResRuleData, &[], None);
    assert_eq!(region.current_conversation_id, 0);
}

#[test]
fn comm_ids_round_trip() {
    for v in 0..7u32 {
        assert_eq!(CommID::from_u32(v).unwrap().as_u32(), v);
    }
    assert!(CommID::from_u32(7).is_none());
    assert_eq!(CommID::from_u32(0), Some(CommID::Idle));
}

#[test]
fn shm_keys() {
    assert!(loader_ready(0xCAFEBABEFACEFEED));
    assert!(!loader_ready(WRAPPER_SHM_KEY));
    assert_eq!(LOADER_SHM_KEY, 0xCAFEBABEFACEFEED);
}

#[test]
fn reconnect_cycle() {
    let mut agent = Agent::new(vec![], 0);
    assert_eq!(agent.current_state(), AgentState::NotConnected);
    agent.connection_attempted(true);
    assert!(agent.check_connection(true));
    assert!(!agent.check_connection(false));
    assert_eq!(agent.current_state(), AgentState::NotConnected);
    agent.connection_attempted(false);
    assert_eq!(agent.current_state(), AgentState::NotConnected);
    agent.connection_attempted(true);
    assert_eq!(agent.current_state(), AgentState::Connected);
}

#[test]
fn heartbeat_cadence() {
    let mut agent = Agent::new(vec![], 1000);
    assert!(!agent.heartbeat_due(1000 + HEARTBEAT_INTERVAL - 1));
    assert!(agent.heartbeat_due(1000 + HEARTBEAT_INTERVAL));
    agent.heartbeat_sent(1030);
    assert!(!agent.heartbeat_due(1030));
    assert!(!agent.heartbeat_due(1030 + HEARTBEAT_INTERVAL - 1));
    assert!(agent.heartbeat_due(1030 + HEARTBEAT_INTERVAL));
    assert!(!agent.heartbeat_due(10));
    assert!(agent.rule_request_due(1000 + RULE_REQUEST_INTERVAL));
    agent.rule_request_sent(1060);
    assert!(!agent.rule_request_due(1061));
}

#[test]
fn replace_rules_swaps_set() {
    let mut agent = Agent::new(vec![rule(1, true)], 0);
    agent.replace_rules(vec![]);
    assert_eq!(agent.rule_count(), 0);
    assert_eq!(agent.active_rule_ids(), Vec::<u8>::new());
}

#[test]
fn server_messages() {
    let mut rules = FieldsBuilder::new().add_str("rules_response").add_str("[]").build();
    match classify_server_message(&mut rules) {
        ServerMessage::RulesResponse(b) => assert_eq!(b, b"[]".to_vec()),
        _ => panic!("expected rules"),
    }
    let mut other = FieldsBuilder::new().add_str("ping").build();
    assert!(matches!(classify_server_message(&mut other), ServerMessage::Other(_)));
    let mut raw = FieldsBuilder::new().add_raw(vec![1]).build();
    assert!(matches!(classify_server_message(&mut raw), ServerMessage::Malformed));
    let mut cut = FieldsBuilder::new().add_str("rules_response").build();
    assert!(matches!(classify_server_message(&mut cut), ServerMessage::Malformed));
}

#[test]
fn outgoing_messages() {
    let hb = heartbeat_fields("aa", "{}").unwrap();
    let mut f = Fields::decode(&hb.to_bytes()).ok().unwrap();
    assert_eq!(f.consume_text_field().ok().unwrap().value(), b"aa".to_vec());
    assert_eq!(f.consume_text_field().ok().unwrap().value(), b"heartbeat".to_vec());
    assert_eq!(f.consume_text_field().ok().unwrap().value(), b"{}".to_vec());
    let rq = rule_request_fields("aa").unwrap();
    let mut g = Fields::decode(&rq.to_bytes()).ok().unwrap();
    g.seek(1);
    assert_eq!(g.consume_text_field().ok().unwrap().value(), b"req_rule_update".to_vec());
}

fn iface(up: bool, lo: bool, ip: Option<[u8; 4]>, mac: Option<[u8; 6]>) -> InterfaceInfo {
    InterfaceInfo { up, running: true, loopback: lo, ipv4: ip, mac }
}

#[test]
fn active_interface_and_identity() {
    let ifaces = vec![
        iface(true, true, Some([127, 0, 0, 1]), None),
        iface(false, false, Some([10, 1, 1, 1]), None),
        iface(true, false, Some([169, 254, 3, 4]), None),
        iface(true, false, Some([192, 168, 1, 20]), Some([0, 0x1b, 0x44, 0x11, 0x3a, 0xb7])),
    ];
    assert_eq!(select_active_interface(&ifaces), Some(3));
    let id = HostIdentity::from_probe(Some("box".to_string()), None, Some("12".to_string()), &ifaces);
    assert_eq!(id.device_name, "box");
    assert_eq!(id.os_details, "Unknown OS 12");
    assert_eq!(id.ip_address, "192.168.1.20");
    assert_eq!(id.mac_address, "00:1b:44:11:3a:b7");
    let none = HostIdentity::from_probe(None, None, None, &vec![]);
    assert_eq!(none.ip_address, "0.0.0.0");
    assert_eq!(none.mac_address, "00:00:00:00:00:00");
    assert_eq!(none.device_name, "Unknown Device");
    let u = HostIdentity::unknown();
    assert_eq!(u.os_details, "Unknown OS Unknown Version");
}
