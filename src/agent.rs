//! Decisions of the agent's control loop.
//!
//! The caller runs the loop: it checks the socket, connects and runs the
//! handshake, sends frames, and locks and copies the shared records. At each
//! point it hands this state what it observed and does what comes back.

use crate::fields::{FieldType, FieldValue, Fields, FieldsBuilder, MAX_FIELD_VALUE_LEN};
use crate::layout::{compiled_rule_bytes, le64, push_le64};
use crate::network::{merged, NetworkDetails, NetworkInfo, NETWORK_INFO_SIZE};
use crate::report::{
    le32_at, le64_at, packet_at, read_le64, report_type_of, Report, ReportType, REPORT_SIZE,
};
use crate::rule::{compiles_to, expands_to, CompiledRule, RawRule, Rule, RuleView};
use crate::shm::{accepts, written, CommID, RawCommsResponse, RecordView, ShmChannel};
use vstd::prelude::*;
use vstd::string::StringSliceAdditionalSpecFns;

verus! {

/// Seconds between heartbeats.
pub const HEARTBEAT_INTERVAL: u64 = 30;

/// Seconds between requests for rule updates.
pub const RULE_REQUEST_INTERVAL: u64 = 60;

/// Seconds between samples of the system metrics.
pub const SYSTEM_METRICS_INTERVAL: u64 = 5;

pub const MSG_HEARTBEAT: &'static str = "heartbeat";

pub const MSG_REQ_RULE_UPDATE: &'static str = "req_rule_update";

pub const MSG_RULES_RESPONSE: &'static str = "rules_response";

pub const MSG_REPORT: &'static str = "report";

#[derive(Clone, Copy, Debug, PartialEq, Eq, Structural)]
pub enum AgentState {
    NotConnected,
    Connected,
}

/// Whether `interval` seconds have passed since `last` at `now`; a clock
/// that went back counts as no time passed.
pub open spec fn elapsed(now: u64, last: u64, interval: u64) -> bool {
    now >= last && now - last >= interval
}

pub fn is_elapsed(now: u64, last: u64, interval: u64) -> (r: bool)
    ensures
        r == elapsed(now, last, interval),
{
    now >= last && now - last >= interval
}

/// What the agent did with a record from the loader.
pub enum LoaderOutcome {
    /// Nothing new was in the input record.
    Idle,
    /// A response was written into the output record.
    Responded,
    /// A packet report to forward to the server.
    Forward(Report),
    /// Contact counts were added to the network details.
    Merged,
    /// The record was dropped: its code, and why.
    Dropped(u32),
}

/// What the server sent.
pub enum ServerMessage {
    /// A new rule set, as the JSON text's bytes.
    RulesResponse(Vec<u8>),
    /// Another message id, to log and drop.
    Other(Vec<u8>),
    /// No message id could be read.
    Malformed,
}

/// The ids of enabled rules, in order.
pub open spec fn enabled_ids(rules: Seq<RuleView>) -> Seq<u64>
    decreases rules.len(),
{
    if rules.len() == 0 {
        Seq::empty()
    } else if rules.last().enabled {
        enabled_ids(rules.drop_last()).push(rules.last().id)
    } else {
        enabled_ids(rules.drop_last())
    }
}

/// Ids packed as little-endian eight-byte words.
pub open spec fn packed_ids(ids: Seq<u64>) -> Seq<u8>
    decreases ids.len(),
{
    if ids.len() == 0 {
        Seq::empty()
    } else {
        packed_ids(ids.drop_last()) + le64(ids.last())
    }
}

/// The index of the first rule with `id`, if any.
pub open spec fn first_with_id(rules: Seq<RuleView>, id: u64) -> Option<int> {
    if exists|i: int| 0 <= i < rules.len() && (#[trigger] rules[i]).id == id {
        Some(
            choose|i: int|
                0 <= i < rules.len() && (#[trigger] rules[i]).id == id && forall|j: int|
                    0 <= j < i ==> (#[trigger] rules[j]).id != id,
        )
    } else {
        None
    }
}

pub struct Agent {
    state: AgentState,
    rules: Vec<Rule>,
    shm: ShmChannel,
    network: NetworkDetails,
    last_heartbeat: u64,
    last_rule_request: u64,
}

impl Agent {
    pub closed spec fn state(&self) -> AgentState {
        self.state
    }

    pub closed spec fn rules(&self) -> Seq<RuleView> {
        self.rules@.map_values(|r: Rule| r@)
    }

    pub closed spec fn shm(&self) -> ShmChannel {
        self.shm
    }

    pub closed spec fn network(&self) -> NetworkDetails {
        self.network
    }

    pub closed spec fn last_heartbeat(&self) -> u64 {
        self.last_heartbeat
    }

    pub closed spec fn last_rule_request(&self) -> u64 {
        self.last_rule_request
    }

    pub open spec fn wf(&self) -> bool {
        self.network().wf()
    }

    /// A new agent: not connected, with `rules`, timers started at `now`.
    pub fn new(rules: Vec<Rule>, now: u64) -> (r: Agent)
        ensures
            r.state() == AgentState::NotConnected,
            r.rules() == rules@.map_values(|r: Rule| r@),
            r.network()@.len() == 0,
            r.last_heartbeat() == now,
            r.last_rule_request() == now,
            r.shm().last_read() == 0,
            r.shm().last_written() == 0,
            r.wf(),
    {
        Agent {
            state: AgentState::NotConnected,
            rules,
            shm: ShmChannel::new(),
            network: NetworkDetails::new(),
            last_heartbeat: now,
            last_rule_request: now,
        }
    }

    pub fn current_state(&self) -> (r: AgentState)
        ensures
            r == self.state(),
    {
        self.state
    }

    /// Step 1 of a tick: a connected agent whose peer is gone becomes not
    /// connected. Returns whether the rest of the tick runs as connected.
    pub fn check_connection(&mut self, peer_alive: bool) -> (r: bool)
        ensures
            final(self).state() == (if old(self).state() == AgentState::Connected && !peer_alive {
                AgentState::NotConnected
            } else {
                old(self).state()
            }),
            r == (old(self).state() == AgentState::Connected && peer_alive),
            final(self).rules() == old(self).rules(),
            final(self).network() == old(self).network(),
            final(self).shm() == old(self).shm(),
            final(self).last_heartbeat() == old(self).last_heartbeat(),
            final(self).last_rule_request() == old(self).last_rule_request(),
    {
        if self.state == AgentState::Connected && !peer_alive {
            self.state = AgentState::NotConnected;
        }
        self.state == AgentState::Connected
    }

    /// Step 2: the outcome of a connection attempt and its handshake.
    pub fn connection_attempted(&mut self, handshake_ok: bool)
        ensures
            final(self).state() == (if handshake_ok {
                AgentState::Connected
            } else {
                AgentState::NotConnected
            }),
            final(self).rules() == old(self).rules(),
            final(self).network() == old(self).network(),
            final(self).shm() == old(self).shm(),
            final(self).last_heartbeat() == old(self).last_heartbeat(),
            final(self).last_rule_request() == old(self).last_rule_request(),
    {
        self.state = if handshake_ok {
            AgentState::Connected
        } else {
            AgentState::NotConnected
        };
    }

    pub fn heartbeat_due(&self, now: u64) -> (r: bool)
        ensures
            r == elapsed(now, self.last_heartbeat(), HEARTBEAT_INTERVAL),
    {
        is_elapsed(now, self.last_heartbeat, HEARTBEAT_INTERVAL)
    }

    /// After a heartbeat went out at `now`: the timer restarts and the
    /// contact counts are cleared for the next one.
    pub fn heartbeat_sent(&mut self, now: u64)
        ensures
            final(self).last_heartbeat() == now,
            final(self).network()@.len() == 0,
            final(self).wf(),
            final(self).state() == old(self).state(),
            final(self).rules() == old(self).rules(),
            final(self).shm() == old(self).shm(),
            final(self).last_rule_request() == old(self).last_rule_request(),
    {
        self.last_heartbeat = now;
        self.network.clear();
    }

    pub fn rule_request_due(&self, now: u64) -> (r: bool)
        ensures
            r == elapsed(now, self.last_rule_request(), RULE_REQUEST_INTERVAL),
    {
        is_elapsed(now, self.last_rule_request, RULE_REQUEST_INTERVAL)
    }

    pub fn rule_request_sent(&mut self, now: u64)
        ensures
            final(self).last_rule_request() == now,
            final(self).state() == old(self).state(),
            final(self).rules() == old(self).rules(),
            final(self).network() == old(self).network(),
            final(self).shm() == old(self).shm(),
            final(self).last_heartbeat() == old(self).last_heartbeat(),
    {
        self.last_rule_request = now;
    }

    /// The contact counts gathered since the last heartbeat.
    pub fn network_details(&self) -> (r: &NetworkDetails)
        ensures
            *r == self.network(),
    {
        &self.network
    }

    pub fn rule_count(&self) -> (r: usize)
        ensures
            r == self.rules().len(),
    {
        self.rules.len()
    }

    /// The rule at `i`.
    pub fn rule(&self, i: usize) -> (r: &Rule)
        requires
            i < self.rules().len(),
        ensures
            r@ == self.rules()[i as int],
    {
        &self.rules[i]
    }

    /// Replaces the rule set at once with the compiled `raw` rules.
    pub fn replace_rules(&mut self, raw: Vec<RawRule>)
        ensures
            final(self).rules().len() == raw@.len(),
            forall|i: int|
                0 <= i < raw@.len() ==> expands_to(&raw@[i], #[trigger] final(self).rules()[i]),
            final(self).state() == old(self).state(),
            final(self).network() == old(self).network(),
            final(self).shm() == old(self).shm(),
            final(self).last_heartbeat() == old(self).last_heartbeat(),
            final(self).last_rule_request() == old(self).last_rule_request(),
    {
        let ghost raws = raw@;
        let mut rest = raw;
        let mut compiled: Vec<Rule> = Vec::new();
        let n = rest.len();
        let mut k: usize = 0;
        while k < n
            invariant
                n == raws.len(),
                k <= n,
                rest@ == raws.subrange(k as int, n as int),
                compiled@.len() == k,
                forall|i: int| 0 <= i < k ==> expands_to(&raws[i], (#[trigger] compiled@[i])@),
            decreases n - k,
        {
            let r = rest.remove(0);
            compiled.push(r.compile());
            k += 1;
            assert(rest@ =~= raws.subrange(k as int, n as int));
        }
        self.rules = compiled;
    }

    /// The ids of the enabled rules, packed as little-endian words.
    pub fn active_rule_ids(&self) -> (r: Vec<u8>)
        ensures
            r@ == packed_ids(enabled_ids(self.rules())),
    {
        let mut out: Vec<u8> = Vec::new();
        let mut i: usize = 0;
        while i < self.rules.len()
            invariant
                i <= self.rules@.len(),
                out@ == packed_ids(enabled_ids(self.rules().subrange(0, i as int))),
            decreases self.rules@.len() - i,
        {
            let ghost pre = self.rules().subrange(0, i as int);
            proof {
                assert(self.rules().subrange(0, i + 1).drop_last() =~= pre);
            }
            if self.rules[i].enabled() {
                proof {
                    assert(enabled_ids(self.rules().subrange(0, i + 1)) == enabled_ids(pre).push(
                        self.rules()[i as int].id,
                    ));
                    assert(enabled_ids(pre).push(self.rules()[i as int].id).drop_last()
                        =~= enabled_ids(pre));
                }
                push_le64(&mut out, self.rules[i].id());
            }
            i += 1;
        }
        assert(self.rules().subrange(0, i as int) =~= self.rules());
        out
    }

    /// The index of the first rule with `id`.
    pub fn find_rule(&self, id: u64) -> (r: Option<usize>)
        ensures
            r.is_some() ==> r.unwrap() < self.rules().len() && first_with_id(self.rules(), id)
                == Some(r.unwrap() as int),
            r.is_none() ==> first_with_id(self.rules(), id) is None,
    {
        let mut i: usize = 0;
        while i < self.rules.len()
            invariant
                i <= self.rules@.len(),
                forall|j: int| 0 <= j < i ==> (#[trigger] self.rules()[j]).id != id,
            decreases self.rules@.len() - i,
        {
            if self.rules[i].id() == id {
                proof {
                    let rs = self.rules();
                    assert(rs[i as int].id == id);
                    let c = choose|k: int|
                        0 <= k < rs.len() && (#[trigger] rs[k]).id == id && forall|j: int|
                            0 <= j < k ==> (#[trigger] rs[j]).id != id;
                    assert(c == i) by {
                        if c < i {
                        } else if c > i {
                            assert(rs[i as int].id != id);
                        }
                    }
                }
                return Some(i);
            }
            i += 1;
        }
        None
    }

    /// Step 6 of a tick: reads the loader's input record and acts on a new
    /// request. Responses go into `output` under the request's conversation
    /// id; a packet report comes back to be forwarded.
    pub fn service_loader(&mut self, input: &RawCommsResponse, output: &mut RawCommsResponse) -> (r:
        LoaderOutcome)
        requires
            old(self).wf(),
            input.wf(),
        ensures
            final(self).wf(),
            final(self).state() == old(self).state(),
            final(self).rules() == old(self).rules(),
            final(self).last_heartbeat() == old(self).last_heartbeat(),
            final(self).last_rule_request() == old(self).last_rule_request(),
            !accepts(input@.conversation_id, old(self).shm().last_read(), None) ==> (r is Idle
                && *final(output) == *old(output) && final(self).shm() == old(self).shm()
                && final(self).network() == old(self).network()),
            accepts(input@.conversation_id, old(self).shm().last_read(), None) ==> (
            final(self).shm().last_read() == input@.conversation_id && loader_outcome(
                old(self),
                final(self),
                input@,
                old(output)@,
                final(output)@,
                r,
            )),
            !(r is Responded) ==> *final(output) == *old(output),
    {
        let rec = match self.shm.read(input, None) {
            Some(rec) => rec,
            None => {
                return LoaderOutcome::Idle;
            },
        };
        let cid = rec.current_conversation_id;
        let code = rec.request_id;
        if code == 1 {
            let ids = self.active_rule_ids();
            self.shm.write(output, CommID::ResActiveRuleIds, ids.as_slice(), Some(cid));
            LoaderOutcome::Responded
        } else if code == 2 {
            let id = read_le64(rec.data.as_slice(), 0);
            match self.find_rule(id) {
                Some(i) => {
                    let compiled = self.rules[i].compile();
                    let bytes = compiled.to_bytes();
                    self.shm.write(output, CommID::ResRuleData, bytes.as_slice(), Some(cid));
                    proof {
                        assert(self.rules()[i as int] == self.rules@[i as int]@);
                    }
                },
                None => {
                    let empty: Vec<u8> = Vec::new();
                    self.shm.write(output, CommID::ResRuleData, empty.as_slice(), Some(cid));
                },
            }
            LoaderOutcome::Responded
        } else if code == 3 {
            if rec.size < REPORT_SIZE {
                return LoaderOutcome::Dropped(code);
            }
            match Report::from_bytes(rec.data.as_slice()) {
                Some(report) => match report.type_ {
                    ReportType::ReportPacket => LoaderOutcome::Forward(report),
                    _ => LoaderOutcome::Dropped(code),
                },
                None => LoaderOutcome::Dropped(code),
            }
        } else if code == 6 {
            if rec.size < NETWORK_INFO_SIZE {
                return LoaderOutcome::Dropped(code);
            }
            match NetworkInfo::from_bytes(rec.data.as_slice()) {
                Some(info) => {
                    self.network.merge_network_info(&info);
                    LoaderOutcome::Merged
                },
                None => LoaderOutcome::Dropped(code),
            }
        } else {
            LoaderOutcome::Dropped(code)
        }
    }
}

/// The contact table that `data` holds in the loader's layout.
pub open spec fn network_info_in(data: Seq<u8>, info: &NetworkInfo) -> bool {
    &&& info.wf()
    &&& info.mac_contacts.current_size == le32_at(data, 1408)
    &&& forall|i: int|
        0 <= i < crate::network::MAX_NETWORK_RECORDS ==> (#[trigger] info.mac_contacts.names@[i])@
            == data.subrange(18 * i, 18 * i + 18)
    &&& forall|i: int|
        0 <= i < crate::network::MAX_NETWORK_RECORDS ==> #[trigger] info.mac_contacts.counts@[i]
            == le32_at(data, 1152 + 4 * i)
}

/// What servicing a new input record `input` does, by its request code:
/// active rule ids and rule data are answered in `after_out` under the
/// request's conversation id; a packet report long enough is forwarded;
/// a network update long enough is added to the contact counts; anything
/// else is dropped.
pub open spec fn loader_outcome(
    before: &Agent,
    after: &Agent,
    input: RecordView,
    before_out: RecordView,
    after_out: RecordView,
    r: LoaderOutcome,
) -> bool {
    let cid = input.conversation_id;
    let code = input.request_id;
    if code == 1 {
        &&& r is Responded
        &&& after_out == written(before_out, 4, packed_ids(enabled_ids(before.rules())), cid)
        &&& after.shm().last_written() == cid
        &&& after.network() == before.network()
    } else if code == 2 {
        &&& r is Responded
        &&& after.shm().last_written() == cid
        &&& after.network() == before.network()
        &&& match first_with_id(before.rules(), le64_at(input.data, 0)) {
            Some(i) => exists|c: CompiledRule|
                compiles_to(before.rules()[i], c) && after_out == written(
                    before_out,
                    5,
                    #[trigger] compiled_rule_bytes(c),
                    cid,
                ),
            None => after_out == written(before_out, 5, Seq::empty(), cid),
        }
    } else if code == 3 {
        &&& after.network() == before.network()
        &&& after.shm().last_written() == before.shm().last_written()
        &&& if input.size >= REPORT_SIZE && report_type_of(le32_at(input.data, 0))
            == ReportType::ReportPacket {
            r matches LoaderOutcome::Forward(rep) && rep.type_ == ReportType::ReportPacket
                && packet_at(input.data, 8, rep.packet_report)
        } else {
            r == LoaderOutcome::Dropped(code)
        }
    } else if code == 6 {
        &&& after.shm().last_written() == before.shm().last_written()
        &&& if input.size >= NETWORK_INFO_SIZE {
            &&& r is Merged
            &&& exists|info: NetworkInfo|
                network_info_in(input.data, &info) && after.network()@ == #[trigger] merged(
                    before.network()@,
                    &info,
                    info.rows() as int,
                )
        } else {
            r == LoaderOutcome::Dropped(code) && after.network() == before.network()
        }
    } else {
        &&& r == LoaderOutcome::Dropped(code)
        &&& after.network() == before.network()
        &&& after.shm().last_written() == before.shm().last_written()
    }
}

/// Whether a text fits in one field.
pub open spec fn text_fits(s: &str) -> bool {
    s.spec_bytes().len() <= MAX_FIELD_VALUE_LEN
}

fn fits(s: &str) -> (r: bool)
    ensures
        r == text_fits(s),
{
    s.as_bytes().len() <= MAX_FIELD_VALUE_LEN
}

/// A text field of `s`.
pub open spec fn text(s: &str) -> FieldValue {
    (FieldType::Text, s.spec_bytes())
}

/// `[mac][heartbeat][json]`; nothing where a text does not fit a field.
pub fn heartbeat_fields(mac: &str, json: &str) -> (r: Option<Fields>)
    ensures
        (text_fits(mac) && text_fits(MSG_HEARTBEAT) && text_fits(json)) == r.is_some(),
        r.is_some() ==> r.unwrap()@ == seq![text(mac), text(MSG_HEARTBEAT), text(json)]
            && r.unwrap().wf() && r.unwrap().cursor() == 0,
{
    if !(fits(mac) && fits(MSG_HEARTBEAT) && fits(json)) {
        return None;
    }
    let f = FieldsBuilder::new().add_str(mac).add_str(MSG_HEARTBEAT).add_str(json).build();
    assert(f@ =~= seq![text(mac), text(MSG_HEARTBEAT), text(json)]);
    Some(f)
}

/// `[mac][req_rule_update]`; nothing where a text does not fit a field.
pub fn rule_request_fields(mac: &str) -> (r: Option<Fields>)
    ensures
        (text_fits(mac) && text_fits(MSG_REQ_RULE_UPDATE)) == r.is_some(),
        r.is_some() ==> r.unwrap()@ == seq![text(mac), text(MSG_REQ_RULE_UPDATE)] && r.unwrap().wf()
            && r.unwrap().cursor() == 0,
{
    if !(fits(mac) && fits(MSG_REQ_RULE_UPDATE)) {
        return None;
    }
    let f = FieldsBuilder::new().add_str(mac).add_str(MSG_REQ_RULE_UPDATE).build();
    assert(f@ =~= seq![text(mac), text(MSG_REQ_RULE_UPDATE)]);
    Some(f)
}

/// `[report][json]`; nothing where a text does not fit a field.
pub fn report_fields(json: &str) -> (r: Option<Fields>)
    ensures
        (text_fits(MSG_REPORT) && text_fits(json)) == r.is_some(),
        r.is_some() ==> r.unwrap()@ == seq![text(MSG_REPORT), text(json)] && r.unwrap().wf()
            && r.unwrap().cursor() == 0,
{
    if !(fits(MSG_REPORT) && fits(json)) {
        return None;
    }
    let f = FieldsBuilder::new().add_str(MSG_REPORT).add_str(json).build();
    assert(f@ =~= seq![text(MSG_REPORT), text(json)]);
    Some(f)
}

/// What a server message from field `c` on says: the first field must be
/// text, the message id; a rules response carries the rules as the next text
/// field.
pub open spec fn server_message_is(s: Seq<FieldValue>, c: nat, r: ServerMessage) -> bool {
    if c >= s.len() || s[c as int].0 != FieldType::Text {
        r is Malformed
    } else if s[c as int].1 == MSG_RULES_RESPONSE.spec_bytes() {
        if c + 1 < s.len() && s[c as int + 1].0 == FieldType::Text {
            r matches ServerMessage::RulesResponse(b) && b@ == s[c as int + 1].1
        } else {
            r is Malformed
        }
    } else {
        r matches ServerMessage::Other(b) && b@ == s[c as int].1
    }
}

/// Step 7 of a tick: reads what the server sent.
pub fn classify_server_message(fields: &mut Fields) -> (r: ServerMessage)
    requires
        old(fields).wf(),
    ensures
        server_message_is(old(fields)@, old(fields).cursor(), r),
        final(fields)@ == old(fields)@,
{
    let id = match fields.consume_text_field() {
        Ok(f) => f.value(),
        Err(_) => {
            return ServerMessage::Malformed;
        },
    };
    if crate::text::bytes_eq(id.as_slice(), MSG_RULES_RESPONSE.as_bytes()) {
        match fields.consume_text_field() {
            Ok(f) => ServerMessage::RulesResponse(f.value()),
            Err(_) => ServerMessage::Malformed,
        }
    } else {
        ServerMessage::Other(id)
    }
}

/// Once a heartbeat has gone out at `sent`, none is due again before
/// `HEARTBEAT_INTERVAL` seconds have passed, and one is due once they have.
pub proof fn lemma_heartbeat_cadence(sent: u64, now: u64)
    ensures
        now >= sent && now - sent < HEARTBEAT_INTERVAL ==> !elapsed(now, sent, HEARTBEAT_INTERVAL),
        now >= sent && now - sent >= HEARTBEAT_INTERVAL ==> elapsed(now, sent, HEARTBEAT_INTERVAL),
        now < sent ==> !elapsed(now, sent, HEARTBEAT_INTERVAL),
{
}

} // verus!
