//! Violation reports the loader writes into shared memory, read from their
//! C layout, and the text forms of their fields.

use crate::response::{response_type_of, ResponseType};
use base64::Engine;
use vstd::prelude::*;
use vstd::string::StringExecFns;

verus! {

/// Size of the sampled payload in a packet report.
pub const MAX_PAYLOAD_SIZE: usize = 128;

/// Size in bytes of a packet report in the loader's layout.
pub const PACKET_VIOLATION_INFO_SIZE: usize = 256;

/// Size in bytes of a report: its type, padding, and the packet report.
pub const REPORT_SIZE: usize = 264;

pub open spec fn le16_at(b: Seq<u8>, o: int) -> u16 {
    (b[o] as u16) | ((b[o + 1] as u16) << 8u16)
}

pub open spec fn le32_at(b: Seq<u8>, o: int) -> u32 {
    (b[o] as u32) | ((b[o + 1] as u32) << 8u32) | ((b[o + 2] as u32) << 16u32) | ((b[o
        + 3] as u32) << 24u32)
}

pub open spec fn le64_at(b: Seq<u8>, o: int) -> u64 {
    (b[o] as u64) | ((b[o + 1] as u64) << 8u64) | ((b[o + 2] as u64) << 16u64) | ((b[o
        + 3] as u64) << 24u64) | ((b[o + 4] as u64) << 32u64) | ((b[o + 5] as u64) << 40u64) | ((
    b[o + 6] as u64) << 48u64) | ((b[o + 7] as u64) << 56u64)
}

fn read_le16(b: &[u8], o: usize) -> (r: u16)
    requires
        o + 2 <= b@.len(),
    ensures
        r == le16_at(b@, o as int),
{
    (b[o] as u16) | ((b[o + 1] as u16) << 8u16)
}

fn read_le32(b: &[u8], o: usize) -> (r: u32)
    requires
        o + 4 <= b@.len(),
    ensures
        r == le32_at(b@, o as int),
{
    (b[o] as u32) | ((b[o + 1] as u32) << 8u32) | ((b[o + 2] as u32) << 16u32) | ((b[o
        + 3] as u32) << 24u32)
}

/// Reads a little-endian eight-byte word at `o`.
pub fn read_le64(b: &[u8], o: usize) -> (r: u64)
    requires
        o + 8 <= b@.len(),
    ensures
        r == le64_at(b@, o as int),
{
    (b[o] as u64) | ((b[o + 1] as u64) << 8u64) | ((b[o + 2] as u64) << 16u64) | ((b[o
        + 3] as u64) << 24u64) | ((b[o + 4] as u64) << 32u64) | ((b[o + 5] as u64) << 40u64) | ((
    b[o + 6] as u64) << 48u64) | ((b[o + 7] as u64) << 56u64)
}

fn read_array<const N: usize>(b: &[u8], o: usize) -> (r: [u8; N])
    requires
        o + N <= b@.len(),
    ensures
        r@ == b@.subrange(o as int, o + N),
{
    let mut a = [0u8; N];
    let blen = b.len();
    let mut i: usize = 0;
    while i < N
        invariant
            blen == b@.len(),
            o + N <= b@.len(),
            i <= N,
            a@.len() == N,
            forall|j: int| 0 <= j < i ==> a@[j] == b@[o + j],
        decreases N - i,
    {
        a[i] = b[o + i];
        i += 1;
    }
    assert(a@ =~= b@.subrange(o as int, o + N));
    a
}

#[derive(Clone, Copy, Debug, PartialEq, Eq, Structural)]
pub enum ReportType {
    ReportNone,
    ReportPacket,
    ReportFile,
}

/// The report type a number stands for; unknown numbers read as `ReportNone`.
pub open spec fn report_type_of(v: u32) -> ReportType {
    if v == 1 {
        ReportType::ReportPacket
    } else if v == 2 {
        ReportType::ReportFile
    } else {
        ReportType::ReportNone
    }
}

impl ReportType {
    pub fn from_u32(v: u32) -> (r: ReportType)
        ensures
            r == report_type_of(v),
    {
        if v == 1 {
            ReportType::ReportPacket
        } else if v == 2 {
            ReportType::ReportFile
        } else {
            ReportType::ReportNone
        }
    }
}

#[derive(Clone, Copy)]
pub struct PayloadBuffer {
    pub full_size: u64,
    pub sample_size: u64,
    pub sample_data: [u8; 128],
}

#[derive(Clone, Copy)]
pub struct ProcessInfo {
    pub pid: u32,
    pub name: [u8; 16],
}

#[derive(Clone, Copy, Debug, PartialEq, Eq, Structural)]
pub struct Ipv4Addr {
    pub src_ip: u32,
    pub dst_ip: u32,
}

#[derive(Clone, Copy)]
pub struct Ipv6Addr {
    pub src_ip: [u64; 2],
    pub dst_ip: [u64; 2],
}

/// Ports and addresses of a packet. The loader stores the two address forms
/// over the same bytes; `is_ipv4` says which one holds.
#[derive(Clone, Copy)]
pub struct IpInfo {
    pub src_port: u16,
    pub dst_port: u16,
    pub is_ipv4: u8,
    pub ipv4: Ipv4Addr,
    pub ipv6: Ipv6Addr,
}

#[derive(Clone, Copy)]
pub struct PacketViolationInfo {
    pub violated_rule_id: u64,
    pub violation_type: u8,
    pub violation_response: u32,
    pub protocol: u16,
    pub timestamp_ns: u64,
    pub is_connection_establishing: u8,
    pub direction: u8,
    pub process: ProcessInfo,
    pub src_mac: [u8; 6],
    pub dst_mac: [u8; 6],
    pub is_ip: u8,
    pub ip: IpInfo,
    pub payload: PayloadBuffer,
}

/// A report from the loader. Only packet reports carry data in this version.
#[derive(Clone, Copy)]
pub struct Report {
    pub type_: ReportType,
    pub packet_report: PacketViolationInfo,
}

/// The packet report that the 256 bytes of `b` from offset `o` hold, in the
/// loader's layout.
pub open spec fn packet_at(b: Seq<u8>, o: int, p: PacketViolationInfo) -> bool {
    &&& p.violated_rule_id == le64_at(b, o)
    &&& p.violation_type == b[o + 8]
    &&& p.violation_response == le32_at(b, o + 12)
    &&& p.protocol == le16_at(b, o + 16)
    &&& p.timestamp_ns == le64_at(b, o + 24)
    &&& p.is_connection_establishing == b[o + 32]
    &&& p.direction == b[o + 33]
    &&& p.process.pid == le32_at(b, o + 36)
    &&& p.process.name@ == b.subrange(o + 40, o + 56)
    &&& p.src_mac@ == b.subrange(o + 56, o + 62)
    &&& p.dst_mac@ == b.subrange(o + 62, o + 68)
    &&& p.is_ip == b[o + 68]
    &&& p.ip.src_port == le16_at(b, o + 72)
    &&& p.ip.dst_port == le16_at(b, o + 74)
    &&& p.ip.is_ipv4 == b[o + 76]
    &&& p.ip.ipv4.src_ip == le32_at(b, o + 80)
    &&& p.ip.ipv4.dst_ip == le32_at(b, o + 84)
    &&& p.ip.ipv6.src_ip@ == seq![le64_at(b, o + 80), le64_at(b, o + 88)]
    &&& p.ip.ipv6.dst_ip@ == seq![le64_at(b, o + 96), le64_at(b, o + 104)]
    &&& p.payload.full_size == le64_at(b, o + 112)
    &&& p.payload.sample_size == le64_at(b, o + 120)
    &&& p.payload.sample_data@ == b.subrange(o + 128, o + 256)
}

impl PacketViolationInfo {
    /// Reads a packet report from its layout at offset `o` of `b`.
    pub fn from_bytes_at(b: &[u8], o: usize) -> (r: PacketViolationInfo)
        requires
            o + PACKET_VIOLATION_INFO_SIZE <= b@.len(),
        ensures
            packet_at(b@, o as int, r),
    {
        let blen = b.len();
        let src6 = [read_le64(b, o + 80), read_le64(b, o + 88)];
        let dst6 = [read_le64(b, o + 96), read_le64(b, o + 104)];
        let r = PacketViolationInfo {
            violated_rule_id: read_le64(b, o),
            violation_type: b[o + 8],
            violation_response: read_le32(b, o + 12),
            protocol: read_le16(b, o + 16),
            timestamp_ns: read_le64(b, o + 24),
            is_connection_establishing: b[o + 32],
            direction: b[o + 33],
            process: ProcessInfo { pid: read_le32(b, o + 36), name: read_array::<16>(b, o + 40) },
            src_mac: read_array::<6>(b, o + 56),
            dst_mac: read_array::<6>(b, o + 62),
            is_ip: b[o + 68],
            ip: IpInfo {
                src_port: read_le16(b, o + 72),
                dst_port: read_le16(b, o + 74),
                is_ipv4: b[o + 76],
                ipv4: Ipv4Addr { src_ip: read_le32(b, o + 80), dst_ip: read_le32(b, o + 84) },
                ipv6: Ipv6Addr { src_ip: src6, dst_ip: dst6 },
            },
            payload: PayloadBuffer {
                full_size: read_le64(b, o + 112),
                sample_size: read_le64(b, o + 120),
                sample_data: read_array::<128>(b, o + 128),
            },
        };
        assert(r.ip.ipv6.src_ip@ =~= seq![le64_at(b@, o + 80), le64_at(b@, o + 88)]);
        assert(r.ip.ipv6.dst_ip@ =~= seq![le64_at(b@, o + 96), le64_at(b@, o + 104)]);
        r
    }

    /// The sampled payload bytes: the first `sample_size` of the sample,
    /// at most all 128.
    pub fn payload_sample(&self) -> (r: Vec<u8>)
        ensures
            r@ == self.payload.sample_data@.subrange(
                0,
                if self.payload.sample_size < 128 {
                    self.payload.sample_size as int
                } else {
                    128
                },
            ),
    {
        let n: usize = if self.payload.sample_size < 128 {
            self.payload.sample_size as usize
        } else {
            128
        };
        let mut r: Vec<u8> = Vec::new();
        let mut i: usize = 0;
        while i < n
            invariant
                n <= 128,
                i <= n,
                r@ == self.payload.sample_data@.subrange(0, i as int),
            decreases n - i,
        {
            r.push(self.payload.sample_data[i]);
            i += 1;
        }
        r
    }

    /// The process name: the bytes before the first NUL.
    pub fn process_name(&self) -> (r: Vec<u8>)
        ensures
            r@ == until_nul(self.process.name@),
    {
        name_before_nul(&self.process.name)
    }
}

/// The bytes of a NUL-padded name before its first NUL.
pub fn name_before_nul<const N: usize>(name: &[u8; N]) -> (r: Vec<u8>)
    ensures
        r@ == until_nul(name@),
{
    let mut r: Vec<u8> = Vec::new();
    let mut i: usize = 0;
    while i < N && name[i] != 0
        invariant
            i <= N,
            name@.len() == N,
            r@ == name@.subrange(0, i as int),
            forall|j: int| 0 <= j < i ==> name@[j] != 0,
        decreases N - i,
    {
        r.push(name[i]);
        i += 1;
    }
    proof {
        lemma_until_nul(name@, i as int);
    }
    r
}

/// The bytes of `s` before its first NUL (all of them where there is none).
pub open spec fn until_nul(s: Seq<u8>) -> Seq<u8>
    decreases s.len(),
{
    if s.len() == 0 || s[0] == 0 {
        Seq::empty()
    } else {
        seq![s[0]] + until_nul(s.drop_first())
    }
}

proof fn lemma_until_nul(s: Seq<u8>, i: int)
    requires
        0 <= i <= s.len(),
        forall|j: int| 0 <= j < i ==> s[j] != 0,
        i == s.len() || s[i] == 0,
    ensures
        until_nul(s) == s.subrange(0, i),
    decreases s.len(),
{
    if i == 0 {
        assert(s.subrange(0, 0) =~= Seq::<u8>::empty());
    } else {
        lemma_until_nul(s.drop_first(), i - 1);
        assert(seq![s[0]] + s.drop_first().subrange(0, i - 1) =~= s.subrange(0, i));
    }
}

impl Report {
    /// Reads a report from the data of a loader record; nothing where the
    /// data is shorter than a report.
    pub fn from_bytes(data: &[u8]) -> (r: Option<Report>)
        ensures
            data@.len() < REPORT_SIZE ==> r.is_none(),
            data@.len() >= REPORT_SIZE ==> r.is_some() && r.unwrap().type_ == report_type_of(
                le32_at(data@, 0),
            ) && packet_at(data@, 8, r.unwrap().packet_report),
    {
        if data.len() < REPORT_SIZE {
            return None;
        }
        let t = ReportType::from_u32(read_le32(data, 0));
        let p = PacketViolationInfo::from_bytes_at(data, 8);
        Some(Report { type_: t, packet_report: p })
    }
}

/// The hexadecimal digit of a value below 16, in lower case.
pub open spec fn hex_digit(d: u8) -> Seq<char> {
    if d == 0 {
        "0"@
    } else if d == 1 {
        "1"@
    } else if d == 2 {
        "2"@
    } else if d == 3 {
        "3"@
    } else if d == 4 {
        "4"@
    } else if d == 5 {
        "5"@
    } else if d == 6 {
        "6"@
    } else if d == 7 {
        "7"@
    } else if d == 8 {
        "8"@
    } else if d == 9 {
        "9"@
    } else if d == 10 {
        "a"@
    } else if d == 11 {
        "b"@
    } else if d == 12 {
        "c"@
    } else if d == 13 {
        "d"@
    } else if d == 14 {
        "e"@
    } else {
        "f"@
    }
}

fn hex_digit_str(d: u8) -> (r: &'static str)
    requires
        d < 16,
    ensures
        r@ == hex_digit(d),
{
    if d == 0 {
        "0"
    } else if d == 1 {
        "1"
    } else if d == 2 {
        "2"
    } else if d == 3 {
        "3"
    } else if d == 4 {
        "4"
    } else if d == 5 {
        "5"
    } else if d == 6 {
        "6"
    } else if d == 7 {
        "7"
    } else if d == 8 {
        "8"
    } else if d == 9 {
        "9"
    } else if d == 10 {
        "a"
    } else if d == 11 {
        "b"
    } else if d == 12 {
        "c"
    } else if d == 13 {
        "d"
    } else if d == 14 {
        "e"
    } else {
        "f"
    }
}

/// Two lower-case hexadecimal digits.
pub open spec fn hex2(b: u8) -> Seq<char> {
    hex_digit(b / 16) + hex_digit(b % 16)
}

/// Lower-case hexadecimal without leading zeros.
pub open spec fn hex_text(n: u64) -> Seq<char>
    decreases n,
{
    if n < 16 {
        hex_digit(n as u8)
    } else {
        hex_text(n / 16) + hex_digit((n % 16) as u8)
    }
}

/// Decimal without leading zeros.
pub open spec fn dec_text(n: u8) -> Seq<char> {
    if n >= 100 {
        hex_digit(n / 100) + hex_digit((n / 10) % 10) + hex_digit(n % 10)
    } else if n >= 10 {
        hex_digit(n / 10) + hex_digit(n % 10)
    } else {
        hex_digit(n)
    }
}

/// Six bytes as `aa:bb:cc:dd:ee:ff`.
pub open spec fn mac_text(m: Seq<u8>) -> Seq<char> {
    hex2(m[0]) + ":"@ + hex2(m[1]) + ":"@ + hex2(m[2]) + ":"@ + hex2(m[3]) + ":"@ + hex2(m[4])
        + ":"@ + hex2(m[5])
}

/// An IPv4 address stored least significant byte first, dotted.
pub open spec fn ipv4_text(n: u32) -> Seq<char> {
    dec_text((n & 0xff) as u8) + "."@ + dec_text(((n >> 8u32) & 0xff) as u8) + "."@ + dec_text(
        ((n >> 16u32) & 0xff) as u8,
    ) + "."@ + dec_text(((n >> 24u32) & 0xff) as u8)
}

/// The four 16-bit groups of a word, most significant first, joined by `:`.
pub open spec fn groups_text(x: u64) -> Seq<char> {
    hex_text(x >> 48u64) + ":"@ + hex_text((x >> 32u64) & 0xffff) + ":"@ + hex_text(
        (x >> 16u64) & 0xffff,
    ) + ":"@ + hex_text(x & 0xffff)
}

/// An IPv6 address held as two words, as eight groups.
pub open spec fn ipv6_text(a: Seq<u64>) -> Seq<char> {
    groups_text(a[0]) + ":"@ + groups_text(a[1])
}

pub fn hex2_string(out: &mut String, b: u8)
    ensures
        final(out)@ == old(out)@ + hex2(b),
{
    out.append(hex_digit_str(b / 16));
    out.append(hex_digit_str(b % 16));
}

fn append_hex(out: &mut String, n: u64)
    ensures
        final(out)@ == old(out)@ + hex_text(n),
    decreases n,
{
    if n < 16 {
        out.append(hex_digit_str(n as u8));
    } else {
        append_hex(out, n / 16);
        out.append(hex_digit_str((n % 16) as u8));
        assert(final(out)@ =~= old(out)@ + hex_text(n));
    }
}

pub fn append_dec(out: &mut String, n: u8)
    ensures
        final(out)@ == old(out)@ + dec_text(n),
{
    if n >= 100 {
        out.append(hex_digit_str(n / 100));
        out.append(hex_digit_str((n / 10) % 10));
        out.append(hex_digit_str(n % 10));
    } else if n >= 10 {
        out.append(hex_digit_str(n / 10));
        out.append(hex_digit_str(n % 10));
    } else {
        out.append(hex_digit_str(n));
    }
    assert(final(out)@ =~= old(out)@ + dec_text(n));
}

pub fn mac_to_string(mac: &[u8; 6]) -> (r: String)
    ensures
        r@ == mac_text(mac@),
{
    let mut s = String::new();
    hex2_string(&mut s, mac[0]);
    s.append(":");
    hex2_string(&mut s, mac[1]);
    s.append(":");
    hex2_string(&mut s, mac[2]);
    s.append(":");
    hex2_string(&mut s, mac[3]);
    s.append(":");
    hex2_string(&mut s, mac[4]);
    s.append(":");
    hex2_string(&mut s, mac[5]);
    assert(s@ =~= mac_text(mac@));
    s
}

fn ipv4_to_string(n: u32) -> (r: String)
    ensures
        r@ == ipv4_text(n),
{
    let mut s = String::new();
    append_dec(&mut s, (n & 0xff) as u8);
    s.append(".");
    append_dec(&mut s, ((n >> 8u32) & 0xff) as u8);
    s.append(".");
    append_dec(&mut s, ((n >> 16u32) & 0xff) as u8);
    s.append(".");
    append_dec(&mut s, ((n >> 24u32) & 0xff) as u8);
    assert(s@ =~= ipv4_text(n));
    s
}

fn append_groups(out: &mut String, x: u64)
    ensures
        final(out)@ == old(out)@ + groups_text(x),
{
    append_hex(out, x >> 48u64);
    out.append(":");
    append_hex(out, (x >> 32u64) & 0xffff);
    out.append(":");
    append_hex(out, (x >> 16u64) & 0xffff);
    out.append(":");
    append_hex(out, x & 0xffff);
    assert(final(out)@ =~= old(out)@ + groups_text(x));
}

fn ipv6_to_string(a: &[u64; 2]) -> (r: String)
    ensures
        r@ == ipv6_text(a@),
{
    let mut s = String::new();
    append_groups(&mut s, a[0]);
    s.append(":");
    append_groups(&mut s, a[1]);
    assert(s@ =~= ipv6_text(a@));
    s
}

/// The text of the source (`is_src`) or destination address, in the form
/// that `is_ipv4` selects.
pub open spec fn ip_text(ip: IpInfo, is_src: bool) -> Seq<char> {
    if ip.is_ipv4 != 0 {
        ipv4_text(
            if is_src {
                ip.ipv4.src_ip
            } else {
                ip.ipv4.dst_ip
            },
        )
    } else {
        ipv6_text(
            if is_src {
                ip.ipv6.src_ip@
            } else {
                ip.ipv6.dst_ip@
            },
        )
    }
}

pub fn ip_to_string(ip_info: &IpInfo, is_src: bool) -> (r: String)
    ensures
        r@ == ip_text(*ip_info, is_src),
{
    if ip_info.is_ipv4 != 0 {
        ipv4_to_string(
            if is_src {
                ip_info.ipv4.src_ip
            } else {
                ip_info.ipv4.dst_ip
            },
        )
    } else if is_src {
        ipv6_to_string(&ip_info.ipv6.src_ip)
    } else {
        ipv6_to_string(&ip_info.ipv6.dst_ip)
    }
}

pub open spec fn direction_text(d: u8) -> Seq<char> {
    if d == 0 {
        "inbound"@
    } else if d == 1 {
        "outbound"@
    } else {
        "unknown"@
    }
}

pub fn direction_to_string(direction: u8) -> (r: &'static str)
    ensures
        r@ == direction_text(direction),
{
    if direction == 0 {
        "inbound"
    } else if direction == 1 {
        "outbound"
    } else {
        "unknown"
    }
}

pub open spec fn violation_type_text(v: u8) -> Seq<char> {
    if v == 0 {
        "packet"@
    } else if v == 1 {
        "connection"@
    } else {
        "unknown"@
    }
}

pub fn violation_type_to_string(violation_type: u8) -> (r: &'static str)
    ensures
        r@ == violation_type_text(violation_type),
{
    if violation_type == 0 {
        "packet"
    } else if violation_type == 1 {
        "connection"
    } else {
        "unknown"
    }
}

pub open spec fn response_text(t: ResponseType) -> Seq<char> {
    match t {
        ResponseType::AirGap => "airgap"@,
        ResponseType::Kill => "kill"@,
        ResponseType::Isolate => "isolate"@,
        ResponseType::Alert => "alert"@,
        ResponseType::Run => "run"@,
    }
}

pub fn violation_response_to_string(violation_response: u32) -> (r: &'static str)
    ensures
        r@ == response_text(response_type_of(violation_response)),
{
    match ResponseType::from_u32(violation_response) {
        ResponseType::AirGap => "airgap",
        ResponseType::Kill => "kill",
        ResponseType::Isolate => "isolate",
        ResponseType::Alert => "alert",
        ResponseType::Run => "run",
    }
}

pub open spec fn report_type_text(t: ReportType) -> Seq<char> {
    match t {
        ReportType::ReportPacket => "packet"@,
        ReportType::ReportFile => "file"@,
        ReportType::ReportNone => "none"@,
    }
}

pub fn report_type_to_string(t: ReportType) -> (r: &'static str)
    ensures
        r@ == report_type_text(t),
{
    match t {
        ReportType::ReportPacket => "packet",
        ReportType::ReportFile => "file",
        ReportType::ReportNone => "none",
    }
}

/// Standard base64 (with padding) of `b`.
pub uninterp spec fn base64_encoded(b: Seq<u8>) -> Seq<char>;

/// Relies on `base64::engine::general_purpose::STANDARD.encode`: the standard
/// base64 text of the bytes; no bytes give no text.
#[verifier::external_body]
fn bytes_to_base64(bytes: &[u8]) -> (r: String)
    ensures
        r@ == base64_encoded(bytes@),
        bytes@.len() == 0 ==> r@.len() == 0,
{
    base64::engine::general_purpose::STANDARD.encode(bytes)
}

impl PacketViolationInfo {
    /// The sampled payload in standard base64.
    pub fn payload_base64(&self) -> (r: String)
        ensures
            r@ == base64_encoded(
                self.payload.sample_data@.subrange(
                    0,
                    if self.payload.sample_size < 128 {
                        self.payload.sample_size as int
                    } else {
                        128
                    },
                ),
            ),
    {
        let sample = self.payload_sample();
        bytes_to_base64(sample.as_slice())
    }
}

} // verus!
