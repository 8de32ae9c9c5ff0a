//! Client side of the key-agreement handshake with the command server.
//!
//! 1. server → client: `Raw(iv[16]) Raw(server_public[32])`
//! 2. client → server: `Raw(client_public[32])`, in plaintext; then the
//!    session key `SHA-256(shared || "SpearIT-K9Dev")[..16]` is installed and
//!    encryption turned on
//! 3. server → client: `Raw(unix_seconds_be[8])`, refused when older than the
//!    acceptance window
//! 4. client → server: `Raw(unix_seconds_be[8])`
//!
//! Each step is a function from what was received to the bytes to send; the
//! caller does the reading and writing.

use crate::channel::Connection;
use crate::fields::{
    be64, be64_value, push_be64, read_be64, FieldType, FieldValue, Fields, FieldsBuilder,
};
use sha2::Digest;
use vstd::prelude::*;
use vstd::string::StringSliceAdditionalSpecFns;

verus! {

/// Text appended to the shared secret before hashing it into a session key.
pub const KDF_SUFFIX: &'static str = "SpearIT-K9Dev";

/// How many seconds old the server's timestamp may be.
pub const HANDSHAKE_WINDOW_SECS: u64 = 5;

/// SHA-256 digest of `data`.
pub uninterp spec fn sha256_of(data: Seq<u8>) -> Seq<u8>;

/// Relies on `sha2::Sha256::digest`: the SHA-256 digest of the input.
#[verifier::external_body]
fn sha256(data: &[u8]) -> (r: [u8; 32])
    ensures
        r@ == sha256_of(data@),
{
    sha2::Sha256::digest(data).into()
}

/// RFC 7748 X25519: the scalar `k` (clamped) times the curve point `u`.
pub uninterp spec fn x25519_of(k: Seq<u8>, u: Seq<u8>) -> Seq<u8>;

/// The X25519 base point: 9 followed by 31 zero bytes.
pub open spec fn basepoint() -> Seq<u8> {
    seq![9u8] + Seq::new(31, |_i: int| 0u8)
}

/// Relies on `rand_core::OsRng::fill_bytes`: 32 bytes from the operating
/// system's generator, of which nothing is known.
#[verifier::external_body]
fn random_secret() -> [u8; 32] {
    let mut k = [0u8; 32];
    rand_core::RngCore::fill_bytes(&mut rand_core::OsRng, &mut k);
    k
}

/// Relies on `x25519_dalek::x25519`: the X25519 function of RFC 7748.
#[verifier::external_body]
fn x25519(k: &[u8; 32], u: &[u8; 32]) -> (r: [u8; 32])
    ensures
        r@ == x25519_of(k@, u@),
{
    x25519_dalek::x25519(*k, *u)
}

/// The base point as bytes.
fn basepoint_bytes() -> (r: [u8; 32])
    ensures
        r@ == basepoint(),
{
    let mut b = [0u8; 32];
    b[0] = 9;
    assert(b@ =~= basepoint());
    b
}

/// The 32-byte digest whose first 16 bytes become the session key.
pub open spec fn session_digest(shared: Seq<u8>) -> Seq<u8> {
    sha256_of(shared + KDF_SUFFIX.spec_bytes())
}

/// The server's timestamp is inside the acceptance window: at most
/// `HANDSHAKE_WINDOW_SECS` old (a timestamp ahead of `now` is accepted).
pub open spec fn timestamp_fresh(now: u64, server_ts: u64) -> bool {
    now as int - server_ts as int <= HANDSHAKE_WINDOW_SECS as int
}

/// The IV and public key that the server's first message carries from
/// field `c` on: two raw fields of 16 and 32 bytes.
pub open spec fn hello_parts(s: Seq<FieldValue>, c: nat) -> Option<(Seq<u8>, Seq<u8>)> {
    if c + 2 <= s.len() && s[c as int].0 == FieldType::Raw && s[c as int].1.len() == 16
        && s[c as int + 1].0 == FieldType::Raw && s[c as int + 1].1.len() == 32 {
        Some((s[c as int].1, s[c as int + 1].1))
    } else {
        None
    }
}

/// The server's timestamp in its confirmation from field `c` on: one raw
/// field of eight big-endian bytes.
pub open spec fn confirmation_ts(s: Seq<FieldValue>, c: nat) -> Option<u64> {
    if c < s.len() && s[c as int].0 == FieldType::Raw && s[c as int].1.len() == 8 {
        Some(be64_value(s[c as int].1))
    } else {
        None
    }
}

#[derive(Clone, Copy, Debug, PartialEq, Eq, Structural)]
pub enum HandshakeStage {
    AwaitServerHello,
    AwaitServerTime,
    Done,
    Failed,
}

#[derive(Clone, Copy, Debug, PartialEq, Eq, Structural)]
pub enum HandshakeError {
    /// A message did not hold the fields expected.
    Malformed,
    /// The server's timestamp is outside the acceptance window.
    Stale,
    /// The step does not belong to the present stage.
    OutOfOrder,
}

pub struct Handshake {
    stage: HandshakeStage,
}

/// Copies a 16-byte value into an array.
fn to_array16(v: &Vec<u8>) -> (r: [u8; 16])
    requires
        v@.len() == 16,
    ensures
        r@ == v@,
{
    let mut a = [0u8; 16];
    let mut i: usize = 0;
    while i < 16
        invariant
            i <= 16,
            v@.len() == 16,
            forall|j: int| 0 <= j < i ==> a@[j] == v@[j],
        decreases 16 - i,
    {
        a[i] = v[i];
        i += 1;
    }
    assert(a@ =~= v@);
    a
}

/// Copies a 32-byte value into an array.
fn to_array32(v: &Vec<u8>) -> (r: [u8; 32])
    requires
        v@.len() == 32,
    ensures
        r@ == v@,
{
    let mut a = [0u8; 32];
    let mut i: usize = 0;
    while i < 32
        invariant
            i <= 32,
            v@.len() == 32,
            forall|j: int| 0 <= j < i ==> a@[j] == v@[j],
        decreases 32 - i,
    {
        a[i] = v[i];
        i += 1;
    }
    assert(a@ =~= v@);
    a
}

impl Handshake {
    pub closed spec fn stage(&self) -> HandshakeStage {
        self.stage
    }

    pub fn new() -> (r: Handshake)
        ensures
            r.stage() == HandshakeStage::AwaitServerHello,
    {
        Handshake { stage: HandshakeStage::AwaitServerHello }
    }

    pub fn current_stage(&self) -> (r: HandshakeStage)
        ensures
            r == self.stage(),
    {
        self.stage
    }

    /// Installs the server's IV and the session key derived from `shared`,
    /// then turns encryption on.
    pub fn install_session(conn: &mut Connection, iv: [u8; 16], shared: [u8; 32])
        ensures
            final(conn).iv() == iv@,
            final(conn).key() == session_digest(shared@).subrange(0, 16),
            final(conn).encrypting(),
            final(conn).wf(),
            final(conn).attached() == old(conn).attached(),
            final(conn).spill() == old(conn).spill(),
    {
        let mut input: Vec<u8> = Vec::new();
        let mut i: usize = 0;
        while i < 32
            invariant
                i <= 32,
                input@ == shared@.subrange(0, i as int),
            decreases 32 - i,
        {
            input.push(shared[i]);
            i += 1;
        }
        let suffix = KDF_SUFFIX.as_bytes();
        let mut k: usize = 0;
        while k < suffix.len()
            invariant
                k <= suffix@.len(),
                suffix@ == KDF_SUFFIX.spec_bytes(),
                input@ == shared@ + suffix@.subrange(0, k as int),
            decreases suffix@.len() - k,
        {
            input.push(suffix[k]);
            k += 1;
            assert(input@ =~= shared@ + suffix@.subrange(0, k as int));
        }
        assert(suffix@.subrange(0, k as int) =~= suffix@);
        assert(shared@.subrange(0, 32) =~= shared@);
        let digest = sha256(input.as_slice());
        conn.set_iv(iv);
        conn.set_session_key(digest);
        conn.enable_encryption();
    }

    /// Step 1 → 2: reads the server's IV and public key, answers with a fresh
    /// public key in plaintext, and installs the session. Returns the frame to
    /// send.
    pub fn on_server_hello(&mut self, conn: &mut Connection, fields: &mut Fields) -> (r: Result<
        Vec<u8>,
        HandshakeError,
    >)
        requires
            old(fields).wf(),
        ensures
            old(self).stage() != HandshakeStage::AwaitServerHello ==> r == Err::<
                Vec<u8>,
                HandshakeError,
            >(HandshakeError::OutOfOrder) && final(self).stage() == old(self).stage()
                && *final(conn) == *old(conn),
            old(self).stage() == HandshakeStage::AwaitServerHello && hello_parts(
                old(fields)@,
                old(fields).cursor(),
            ) is None ==> r == Err::<Vec<u8>, HandshakeError>(HandshakeError::Malformed)
                && final(self).stage() == HandshakeStage::Failed,
            old(self).stage() == HandshakeStage::AwaitServerHello && hello_parts(
                old(fields)@,
                old(fields).cursor(),
            ) is Some ==> ({
                let (iv, server_public) = hello_parts(old(fields)@, old(fields).cursor()).unwrap();
                &&& r is Ok
                &&& final(self).stage() == HandshakeStage::AwaitServerTime
                &&& final(conn).iv() == iv
                &&& final(conn).encrypting()
                &&& final(conn).wf()
                &&& exists|secret: Seq<u8>|
                    #![trigger x25519_of(secret, server_public)]
                    secret.len() == 32 && r->Ok_0@ == old(conn).sealed(
                        seq![(FieldType::Raw, x25519_of(secret, basepoint()))],
                    ) && final(conn).key() == session_digest(
                        x25519_of(secret, server_public),
                    ).subrange(0, 16)
            }),
    {
        if self.stage != HandshakeStage::AwaitServerHello {
            return Err(HandshakeError::OutOfOrder);
        }
        let ghost c = fields.cursor();
        let iv_field = fields.consume_raw_field();
        let pub_field = fields.consume_raw_field();
        let (iv_bytes, pub_bytes) = match (iv_field, pub_field) {
            (Ok(a), Ok(b)) => (a.value(), b.value()),
            _ => {
                self.stage = HandshakeStage::Failed;
                return Err(HandshakeError::Malformed);
            },
        };
        if iv_bytes.len() != 16 || pub_bytes.len() != 32 {
            self.stage = HandshakeStage::Failed;
            return Err(HandshakeError::Malformed);
        }
        let iv = to_array16(&iv_bytes);
        let server_public = to_array32(&pub_bytes);
        let secret = random_secret();
        let base = basepoint_bytes();
        let my_public = x25519(&secret, &base);
        let mut raw: Vec<u8> = Vec::new();
        let mut i: usize = 0;
        while i < 32
            invariant
                i <= 32,
                raw@ == my_public@.subrange(0, i as int),
            decreases 32 - i,
        {
            raw.push(my_public[i]);
            i += 1;
        }
        let hello = FieldsBuilder::new().add_raw(raw).build();
        let frame = conn.frame_fields(&hello);
        let shared = x25519(&secret, &server_public);
        Handshake::install_session(conn, iv, shared);
        self.stage = HandshakeStage::AwaitServerTime;
        proof {
            assert(hello@ =~= seq![(FieldType::Raw, raw@)]);
            assert(conn.key() == session_digest(x25519_of(secret@, server_public@)).subrange(0, 16));
            assert(raw@ =~= my_public@);
            assert(hello@ =~= seq![(FieldType::Raw, x25519_of(secret@, basepoint()))]);
            assert(server_public@ == hello_parts(old(fields)@, c).unwrap().1);
            assert(secret@.len() == 32);
            assert(secret@.len() == 32 && frame@ == old(conn).sealed(
                seq![(FieldType::Raw, x25519_of(secret@, basepoint()))],
            ) && conn.key() == session_digest(x25519_of(secret@, server_public@)).subrange(0, 16));
        }
        Ok(frame)
    }

    /// Step 3 → 4: checks the server's timestamp against `now` (unix
    /// seconds) and answers with `now`. Returns the frame to send.
    pub fn on_server_time(&mut self, conn: &Connection, fields: &mut Fields, now: u64) -> (r:
        Result<Vec<u8>, HandshakeError>)
        requires
            old(fields).wf(),
        ensures
            old(self).stage() != HandshakeStage::AwaitServerTime ==> r == Err::<
                Vec<u8>,
                HandshakeError,
            >(HandshakeError::OutOfOrder) && final(self).stage() == old(self).stage(),
            old(self).stage() == HandshakeStage::AwaitServerTime ==> match confirmation_ts(
                old(fields)@,
                old(fields).cursor(),
            ) {
                None => r == Err::<Vec<u8>, HandshakeError>(HandshakeError::Malformed)
                    && final(self).stage() == HandshakeStage::Failed,
                Some(ts) => if timestamp_fresh(now, ts) {
                    r is Ok && r->Ok_0@ == conn.sealed(seq![(FieldType::Raw, be64(now))])
                        && final(self).stage() == HandshakeStage::Done
                } else {
                    r == Err::<Vec<u8>, HandshakeError>(HandshakeError::Stale)
                        && final(self).stage() == HandshakeStage::Failed
                },
            },
    {
        if self.stage != HandshakeStage::AwaitServerTime {
            return Err(HandshakeError::OutOfOrder);
        }
        let ts_bytes = match fields.consume_raw_field() {
            Ok(f) => f.value(),
            Err(_) => {
                self.stage = HandshakeStage::Failed;
                return Err(HandshakeError::Malformed);
            },
        };
        if ts_bytes.len() != 8 {
            self.stage = HandshakeStage::Failed;
            return Err(HandshakeError::Malformed);
        }
        let server_ts = read_be64(ts_bytes.as_slice(), 0);
        proof {
            assert(ts_bytes@.subrange(0, 8) =~= ts_bytes@);
        }
        if !is_timestamp_fresh(now, server_ts) {
            self.stage = HandshakeStage::Failed;
            return Err(HandshakeError::Stale);
        }
        let mut raw: Vec<u8> = Vec::new();
        push_be64(&mut raw, now);
        let answer = FieldsBuilder::new().add_raw(raw).build();
        proof {
            assert(raw@ =~= be64(now));
            assert(answer@ =~= seq![(FieldType::Raw, be64(now))]);
        }
        self.stage = HandshakeStage::Done;
        Ok(conn.frame_fields(&answer))
    }
}

/// Whether a server timestamp is inside the acceptance window at `now`.
pub fn is_timestamp_fresh(now: u64, server_ts: u64) -> (r: bool)
    ensures
        r == timestamp_fresh(now, server_ts),
{
    now <= server_ts || now - server_ts <= HANDSHAKE_WINDOW_SECS
}

} // verus!
