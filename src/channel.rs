//! State of the encrypted channel to the command server, and its framing.
//!
//! The socket itself is held by the caller; this type holds what decides the
//! bytes that go over it: the IV, the session key, whether encryption is on,
//! whether a socket is attached, and the bytes received but not yet framed.

use crate::fields::{
    be64, be64_value, decode_body, encode_body, push_be64, read_be64, values_fit,
    FieldValue, Fields, FieldsError,
};
use crate::padding::pad_len;
use cbc::cipher::{BlockDecryptMut, BlockEncryptMut, KeyIvInit};
use vstd::prelude::*;

verus! {

/// AES-128-CBC encryption of `plain` after PKCS#7 padding, under `key` and `iv`.
pub uninterp spec fn aes128_cbc_pkcs7_encrypt(key: Seq<u8>, iv: Seq<u8>, plain: Seq<u8>) -> Seq<u8>;

/// Relies on `cbc::Encryptor::<aes::Aes128>::encrypt_padded_vec_mut::<Pkcs7>`:
/// the ciphertext of the padded message, as long as the padded message.
#[verifier::external_body]
fn cbc_encrypt(key: &[u8; 16], iv: &[u8; 16], plain: &[u8]) -> (r: Vec<u8>)
    ensures
        r@ == aes128_cbc_pkcs7_encrypt(key@, iv@, plain@),
        r@.len() == plain@.len() + pad_len(plain@.len()),
{
    let enc = cbc::Encryptor::<aes::Aes128>::new(&(*key).into(), &(*iv).into());
    enc.encrypt_padded_vec_mut::<cbc::cipher::block_padding::Pkcs7>(plain)
}

/// Relies on `cbc::Decryptor::<aes::Aes128>::decrypt_padded_vec_mut::<Pkcs7>`:
/// a ciphertext that the encryptor made under the same key and IV decrypts to
/// its message; a message that comes back encrypts to the input, so input that
/// is no such ciphertext (a partial block, bad padding) is refused.
#[verifier::external_body]
fn cbc_decrypt(key: &[u8; 16], iv: &[u8; 16], data: &[u8]) -> (r: Option<Vec<u8>>)
    ensures
        data@.len() % 16 != 0 ==> r.is_none(),
        r.is_some() ==> aes128_cbc_pkcs7_encrypt(key@, iv@, r.unwrap()@) == data@,
        forall|p: Seq<u8>| #[trigger] aes128_cbc_pkcs7_encrypt(key@, iv@, p) == data@ ==> r.is_some() && r.unwrap()@ == p,
{
    let dec = cbc::Decryptor::<aes::Aes128>::new(&(*key).into(), &(*iv).into());
    dec.decrypt_padded_vec_mut::<cbc::cipher::block_padding::Pkcs7>(data).ok()
}

pub struct Connection {
    iv: [u8; 16],
    session_key: [u8; 16],
    iv_installed: bool,
    key_installed: bool,
    in_encrypt_mode: bool,
    attached: bool,
    spill: Vec<u8>,
}

/// The payload that carries `body` on the wire: the body itself, or its
/// ciphertext when encryption is on.
pub open spec fn payload_of(encrypting: bool, key: Seq<u8>, iv: Seq<u8>, body: Seq<u8>) -> Seq<u8> {
    if encrypting {
        aes128_cbc_pkcs7_encrypt(key, iv, body)
    } else {
        body
    }
}

/// A frame: the payload's length as eight big-endian bytes, then the payload.
pub open spec fn frame_of(payload: Seq<u8>) -> Seq<u8> {
    be64(payload.len() as u64) + payload
}

impl Connection {
    pub closed spec fn iv(&self) -> Seq<u8> {
        self.iv@
    }

    pub closed spec fn key(&self) -> Seq<u8> {
        self.session_key@
    }

    pub closed spec fn iv_installed(&self) -> bool {
        self.iv_installed
    }

    pub closed spec fn key_installed(&self) -> bool {
        self.key_installed
    }

    pub closed spec fn encrypting(&self) -> bool {
        self.in_encrypt_mode
    }

    pub closed spec fn attached(&self) -> bool {
        self.attached
    }

    pub closed spec fn spill(&self) -> Seq<u8> {
        self.spill@
    }

    /// Encryption is on only once both the key and the IV are installed.
    pub open spec fn wf(&self) -> bool {
        self.encrypting() ==> self.iv_installed() && self.key_installed()
    }

    /// No socket, no key, no IV, encryption off, nothing spilled.
    pub open spec fn is_cleared(&self) -> bool {
        &&& self.iv() == Seq::new(16, |_i: int| 0u8)
        &&& self.key() == Seq::new(16, |_i: int| 0u8)
        &&& !self.iv_installed()
        &&& !self.key_installed()
        &&& !self.encrypting()
        &&& !self.attached()
        &&& self.spill().len() == 0
    }

    /// The frame that carries `s` from this channel in its present mode.
    pub open spec fn sealed(&self, s: Seq<FieldValue>) -> Seq<u8> {
        frame_of(payload_of(self.encrypting(), self.key(), self.iv(), encode_body(s)))
    }

    pub fn new() -> (r: Connection)
        ensures
            r.is_cleared(),
            r.wf(),
    {
        let r = Connection {
            iv: [0u8; 16],
            session_key: [0u8; 16],
            iv_installed: false,
            key_installed: false,
            in_encrypt_mode: false,
            attached: false,
            spill: Vec::new(),
        };
        assert(r.iv@ =~= Seq::new(16, |_i: int| 0u8));
        assert(r.session_key@ =~= Seq::new(16, |_i: int| 0u8));
        r
    }

    pub fn set_iv(&mut self, iv: [u8; 16])
        ensures
            final(self).iv() == iv@,
            final(self).iv_installed(),
            final(self).key() == old(self).key(),
            final(self).key_installed() == old(self).key_installed(),
            final(self).encrypting() == old(self).encrypting(),
            final(self).attached() == old(self).attached(),
            final(self).spill() == old(self).spill(),
            old(self).wf() ==> final(self).wf(),
    {
        self.iv = iv;
        self.iv_installed = true;
    }

    /// Installs the first 16 bytes of a 32-byte digest as the AES-128 key.
    pub fn set_session_key(&mut self, session_key: [u8; 32])
        ensures
            final(self).key() == session_key@.subrange(0, 16),
            final(self).key_installed(),
            final(self).iv() == old(self).iv(),
            final(self).iv_installed() == old(self).iv_installed(),
            final(self).encrypting() == old(self).encrypting(),
            final(self).attached() == old(self).attached(),
            final(self).spill() == old(self).spill(),
            old(self).wf() ==> final(self).wf(),
    {
        let mut k = [0u8; 16];
        let mut i: usize = 0;
        while i < 16
            invariant
                i <= 16,
                forall|j: int| 0 <= j < i ==> k@[j] == session_key@[j],
            decreases 16 - i,
        {
            k[i] = session_key[i];
            i += 1;
        }
        assert(k@ =~= session_key@.subrange(0, 16));
        self.session_key = k;
        self.key_installed = true;
    }

    /// Turns encryption on where the key and the IV are installed.
    pub fn enable_encryption(&mut self)
        ensures
            final(self).encrypting() == (old(self).iv_installed() && old(self).key_installed()),
            final(self).iv() == old(self).iv(),
            final(self).key() == old(self).key(),
            final(self).iv_installed() == old(self).iv_installed(),
            final(self).key_installed() == old(self).key_installed(),
            final(self).attached() == old(self).attached(),
            final(self).spill() == old(self).spill(),
            final(self).wf(),
    {
        self.in_encrypt_mode = self.iv_installed && self.key_installed;
    }

    pub fn disable_encryption(&mut self)
        ensures
            !final(self).encrypting(),
            final(self).iv() == old(self).iv(),
            final(self).key() == old(self).key(),
            final(self).iv_installed() == old(self).iv_installed(),
            final(self).key_installed() == old(self).key_installed(),
            final(self).attached() == old(self).attached(),
            final(self).spill() == old(self).spill(),
            final(self).wf(),
    {
        self.in_encrypt_mode = false;
    }

    /// Drops the socket and clears key, IV, mode and spill. On a channel that
    /// is already cleared this changes nothing; afterwards the channel is not
    /// connected.
    pub fn reset(&mut self)
        ensures
            final(self).is_cleared(),
            final(self).wf(),
            !final(self).is_connected_spec(),
    {
        *self = Connection::new();
    }

    /// Two cleared channels hold the same state: resetting a channel that is
    /// already cleared changes nothing, and resetting twice is resetting once.
    pub proof fn lemma_cleared_unique(a: &Connection, b: &Connection)
        requires
            a.is_cleared(),
            b.is_cleared(),
        ensures
            a.iv() == b.iv(),
            a.key() == b.key(),
            a.iv_installed() == b.iv_installed(),
            a.key_installed() == b.key_installed(),
            a.encrypting() == b.encrypting(),
            a.attached() == b.attached(),
            a.spill() == b.spill(),
    {
        assert(a.spill() =~= b.spill());
    }

    /// Whether a socket is attached.
    pub open spec fn is_connected_spec(&self) -> bool {
        self.attached()
    }

    pub fn is_connected(&self) -> (r: bool)
        ensures
            r == self.is_connected_spec(),
    {
        self.attached
    }

    /// Records that a fresh socket is attached; nothing is spilled from an
    /// earlier one.
    pub fn attach(&mut self)
        ensures
            final(self).attached(),
            final(self).spill().len() == 0,
            final(self).iv() == old(self).iv(),
            final(self).key() == old(self).key(),
            final(self).iv_installed() == old(self).iv_installed(),
            final(self).key_installed() == old(self).key_installed(),
            final(self).encrypting() == old(self).encrypting(),
            old(self).wf() ==> final(self).wf(),
    {
        self.attached = true;
        self.spill = Vec::new();
    }

    /// The bytes to write for `fields`: `[8-byte length][payload]`, where the
    /// payload is the fields' body, encrypted when encryption is on.
    pub fn frame_fields(&self, fields: &Fields) -> (r: Vec<u8>)
        requires
            fields.wf(),
        ensures
            r@ == self.sealed(fields@),
            self.encrypting() ==> r@.len() == 8 + encode_body(fields@).len() + pad_len(
                encode_body(fields@).len(),
            ),
            !self.encrypting() ==> r@.len() == 8 + encode_body(fields@).len(),
    {
        let body = fields.to_bytes_no_length();
        let mut payload = if self.in_encrypt_mode {
            cbc_encrypt(&self.session_key, &self.iv, body.as_slice())
        } else {
            body
        };
        let mut r: Vec<u8> = Vec::new();
        push_be64(&mut r, payload.len() as u64);
        r.append(&mut payload);
        r
    }

    /// Reads the fields that a payload carries, decrypting it first when
    /// encryption is on. A payload that this channel's `frame_fields` made
    /// from fields whose values fit gives those fields back.
    pub fn open_payload(&self, payload: &[u8]) -> (r: Result<Fields, FieldsError>)
        ensures
            r is Ok ==> r->Ok_0.cursor() == 0 && r->Ok_0.wf(),
            r is Err ==> r == Err::<Fields, FieldsError>(FieldsError::InvalidData),
            !self.encrypting() ==> match decode_body(payload@) {
                Some(s) => r matches Ok(f) && f@ == s,
                None => r is Err,
            },
            self.encrypting() && payload@.len() % 16 != 0 ==> r is Err,
            self.encrypting() && (forall|p: Seq<u8>|
                #[trigger] aes128_cbc_pkcs7_encrypt(self.key(), self.iv(), p) != payload@) ==> r is Err,
            forall|s: Seq<FieldValue>|
                values_fit(s) && #[trigger] payload_of(
                    self.encrypting(),
                    self.key(),
                    self.iv(),
                    encode_body(s),
                ) == payload@ ==> (r matches Ok(f) && f@ == s),
    {
        proof {
            assert forall|s: Seq<FieldValue>| values_fit(s) implies decode_body(encode_body(s))
                == Some(s) by {
                crate::fields::lemma_decode_encode_body(s);
            }
        }
        if self.in_encrypt_mode {
            match cbc_decrypt(&self.session_key, &self.iv, payload) {
                Some(plain) => {
                    proof {
                        assert(aes128_cbc_pkcs7_encrypt(self.key(), self.iv(), plain@) == payload@);
                    }
                    Fields::from_bytes(plain.as_slice())
                },
                None => Err(FieldsError::InvalidData),
            }
        } else {
            Fields::from_bytes(payload)
        }
    }

    /// Reads a whole frame: its 8-byte length must equal the length of the
    /// payload that follows. What `frame_fields` wrote, this reads back.
    pub fn open_frame(&self, frame: &[u8]) -> (r: Result<Fields, FieldsError>)
        ensures
            r is Ok ==> r->Ok_0.cursor() == 0 && r->Ok_0.wf(),
            frame@.len() < 8 || be64_value(frame@.subrange(0, 8)) != frame@.len() - 8 ==> r
                == Err::<Fields, FieldsError>(FieldsError::InvalidData),
            forall|s: Seq<FieldValue>|
                values_fit(s) && #[trigger] self.sealed(s) == frame@ ==> (r matches Ok(f) && f@
                    == s),
    {
        let flen = frame.len();
        proof {
            assert forall|s: Seq<FieldValue>| values_fit(s) && #[trigger] self.sealed(s)
                == frame@ implies frame@.len() >= 8 && be64_value(frame@.subrange(0, 8))
                == frame@.len() - 8 && frame@.subrange(8, frame@.len() as int) == payload_of(
                self.encrypting(),
                self.key(),
                self.iv(),
                encode_body(s),
            ) by {
                let p = payload_of(self.encrypting(), self.key(), self.iv(), encode_body(s));
                assert(frame@.len() == 8 + p.len());
                assert(frame@.len() == flen);
                assert(p.len() <= u64::MAX);
                crate::fields::lemma_be64_round_trip(p.len() as u64);
                assert(frame@.subrange(0, 8) =~= be64(p.len() as u64));
                assert(frame@.subrange(8, frame@.len() as int) =~= p);
            }
        }
        if frame.len() < 8 {
            return Err(FieldsError::InvalidData);
        }
        let n = read_be64(frame, 0);
        if n != (frame.len() - 8) as u64 {
            return Err(FieldsError::InvalidData);
        }
        let mut payload: Vec<u8> = Vec::new();
        let mut i: usize = 8;
        while i < frame.len()
            invariant
                8 <= i <= frame@.len(),
                payload@ == frame@.subrange(8, i as int),
            decreases frame@.len() - i,
        {
            payload.push(frame[i]);
            i += 1;
        }
        self.open_payload(payload.as_slice())
    }

    /// Keeps bytes that arrived without blocking until a whole frame is there.
    pub fn push_received(&mut self, bytes: &[u8])
        ensures
            final(self).spill() == old(self).spill() + bytes@,
            final(self).iv() == old(self).iv(),
            final(self).key() == old(self).key(),
            final(self).iv_installed() == old(self).iv_installed(),
            final(self).key_installed() == old(self).key_installed(),
            final(self).encrypting() == old(self).encrypting(),
            final(self).attached() == old(self).attached(),
            old(self).wf() ==> final(self).wf(),
    {
        let mut i: usize = 0;
        while i < bytes.len()
            invariant
                i <= bytes@.len(),
                self.spill@ == old(self).spill@ + bytes@.subrange(0, i as int),
                self.iv == old(self).iv,
                self.session_key == old(self).session_key,
                self.iv_installed == old(self).iv_installed,
                self.key_installed == old(self).key_installed,
                self.in_encrypt_mode == old(self).in_encrypt_mode,
                self.attached == old(self).attached,
            decreases bytes@.len() - i,
        {
            self.spill.push(bytes[i]);
            i += 1;
            assert(self.spill@ =~= old(self).spill@ + bytes@.subrange(0, i as int));
        }
        assert(bytes@.subrange(0, i as int) =~= bytes@);
    }

    /// Whether the spill starts with a whole frame.
    pub open spec fn frame_ready(spill: Seq<u8>) -> bool {
        spill.len() >= 8 && spill.len() - 8 >= be64_value(spill.subrange(0, 8))
    }

    /// Takes the payload of the first whole frame out of the spill, or
    /// nothing when the spill does not hold one yet.
    pub fn take_frame(&mut self) -> (r: Option<Vec<u8>>)
        ensures
            final(self).iv() == old(self).iv(),
            final(self).key() == old(self).key(),
            final(self).iv_installed() == old(self).iv_installed(),
            final(self).key_installed() == old(self).key_installed(),
            final(self).encrypting() == old(self).encrypting(),
            final(self).attached() == old(self).attached(),
            old(self).wf() ==> final(self).wf(),
            !Self::frame_ready(old(self).spill()) ==> r.is_none() && final(self).spill() == old(
                self,
            ).spill(),
            Self::frame_ready(old(self).spill()) ==> ({
                let n = be64_value(old(self).spill().subrange(0, 8)) as int;
                &&& r.is_some()
                &&& r.unwrap()@ == old(self).spill().subrange(8, 8 + n)
                &&& final(self).spill() == old(self).spill().subrange(8 + n, old(
                    self,
                ).spill().len() as int)
            }),
    {
        let len = self.spill.len();
        if len < 8 {
            return None;
        }
        let n = read_be64(self.spill.as_slice(), 0);
        if ((len - 8) as u64) < n {
            return None;
        }
        let end = 8 + n as usize;
        let mut payload: Vec<u8> = Vec::new();
        let mut rest: Vec<u8> = Vec::new();
        let mut i: usize = 0;
        while i < len
            invariant
                len == self.spill@.len(),
                8 <= end <= len,
                end == 8 + be64_value(self.spill@.subrange(0, 8)),
                i <= len,
                i <= 8 ==> payload@.len() == 0,
                i > 8 && i <= end ==> payload@ == self.spill@.subrange(8, i as int),
                i > end ==> payload@ == self.spill@.subrange(8, end as int),
                i <= end ==> rest@.len() == 0,
                i > end ==> rest@ == self.spill@.subrange(end as int, i as int),
            decreases len - i,
        {
            let b = self.spill[i];
            if i >= end {
                rest.push(b);
            } else if i >= 8 {
                payload.push(b);
            }
            i += 1;
            proof {
                if i > 8 && i <= end {
                    assert(payload@ =~= self.spill@.subrange(8, i as int));
                }
                if i > end {
                    assert(rest@ =~= self.spill@.subrange(end as int, i as int));
                }
                if i == end + 1 && end == 8 {
                    assert(payload@ =~= self.spill@.subrange(8, end as int));
                }
            }
        }
        proof {
            if end == len {
                assert(rest@ =~= self.spill@.subrange(end as int, len as int));
                if end == 8 {
                    assert(payload@ =~= self.spill@.subrange(8, end as int));
                }
            }
        }
        self.spill = rest;
        Some(payload)
    }
}

} // verus!
