use aes::cipher::{BlockDecryptMut, BlockEncryptMut, KeyIvInit};
use scout_wrapper::channel::Connection;
use scout_wrapper::fields::{Fields, FieldsBuilder};
use scout_wrapper::handshake::{is_timestamp_fresh, Handshake, HandshakeError, HandshakeStage};
use sha2::Digest;

struct Server {
    iv: [u8; 16],
    secret: Option<x25519_dalek::EphemeralSecret>,
    public: [u8; 32],
    key: [u8; 16],
}

impl Server {
    fn new() -> Server {
        let secret = x25519_dalek::EphemeralSecret::random_from_rng(rand_core::OsRng);
        let public = x25519_dalek::PublicKey::from(&secret).to_bytes();
        Server { iv: [0x42; 16], secret: Some(secret), public, key: [0; 16] }
    }

    fn hello(&self) -> Fields {
        FieldsBuilder::new().add_raw(self.iv.to_vec()).add_raw(self.public.to_vec()).build()
    }

    fn accept_client(&mut self, frame: &[u8]) {
        let mut f = Fields::decode(frame).ok().unwrap();
        let raw = f.consume_raw_field().ok().unwrap().value();
        assert_eq!(raw.len(), 32);
        let mut client = [0u8; 32];
        client.copy_from_slice(&raw);
        let shared = self
            .secret
            .take()
            .unwrap()
            .diffie_hellman(&x25519_dalek::PublicKey::from(client));
        let mut h = sha2::Sha256::new();
        h.update(shared.as_bytes());
        h.update(b"SpearIT-K9Dev");
        let digest: [u8; 32] = h.finalize().into();
        self.key.copy_from_slice(&digest[..16]);
    }

    fn encrypt(&self, body: &[u8]) -> Vec<u8> {
        cbc::Encryptor::<aes::Aes128>::new(&self.key.into(), &self.iv.into())
            .encrypt_padded_vec_mut::<cbc::cipher::block_padding::Pkcs7>(body)
    }

    fn decrypt(&self, data: &[u8]) -> Vec<u8> {
        cbc::Decryptor::<aes::Aes128>::new(&self.key.into(), &self.iv.into())
            .decrypt_padded_vec_mut::<cbc::cipher::block_padding::Pkcs7>(data)
            .unwrap()
    }

    fn time_payload(&self, ts: u64) -> Vec<u8> {
        let f = FieldsBuilder::new().add_raw(ts.to_be_bytes().to_vec()).build();
        self.encrypt(&f.to_bytes_no_length())
    }
}

fn run(server_age: u64) -> (Result<Vec<u8>, HandshakeError>, Server, Connection, Handshake) {
    let now: u64 = 1_700_000_000;
    let mut server = Server::new();
    let mut conn = Connection::new();
    conn.attach();
    let mut hs = Handshake::new();
    let mut hello = server.hello();
    let reply = hs.on_server_hello(&mut conn, &mut hello).ok().unwrap();
    server.accept_client(&reply);
    let payload = server.time_payload(now - server_age);
    let mut fields = conn.open_payload(&payload).ok().unwrap();
    let r = hs.on_server_time(&conn, &mut fields, now);
    (r, server, conn, hs)
}

#[test]
fn handshake_accepts_recent_timestamp() {
    let (r, server, _conn, hs) = run(2);
    let frame = r.ok().unwrap();
    assert_eq!(hs.current_stage(), HandshakeStage::Done);
    let len = u64::from_be_bytes(frame[..8].try_into().unwrap()) as usize;
    assert_eq!(len, frame.len() - 8);
    let body = server.decrypt(&frame[8..]);
    let mut f = Fields::from_bytes(&body).ok().unwrap();
    let ts = f.consume_raw_field().ok().unwrap().value();
    assert_eq!(ts, 1_700_000_000u64.to_be_bytes().to_vec());
}

#[test]
fn handshake_rejects_replayed_timestamp() {
    let (r, _server, _conn, hs) = run(10);
    assert_eq!(r.err(), Some(HandshakeError::Stale));
    assert_eq!(hs.current_stage(), HandshakeStage::Failed);
}

#[test]
fn handshake_window_edges() {
    let (r, _s, _c, _h) = run(5);
    assert!(r.is_ok());
    let (r, _s, _c, _h) = run(6);
    assert_eq!(r.err(), Some(HandshakeError::Stale));
}

#[test]
fn timestamp_window() {
    assert!(is_timestamp_fresh(100, 98));
    assert!(is_timestamp_fresh(100, 95));
    assert!(!is_timestamp_fresh(100, 94));
    assert!(!is_timestamp_fresh(100, 90));
    assert!(is_timestamp_fresh(100, 200));
}

#[test]
fn client_hello_is_plaintext_public_key() {
    let mut server = Server::new();
    let mut conn = Connection::new();
    let mut hs = Handshake::new();
    let mut hello = server.hello();
    let reply = hs.on_server_hello(&mut conn, &mut hello).ok().unwrap();
    let mut f = Fields::decode(&reply).ok().unwrap();
    assert_eq!(f.consume_raw_field().ok().unwrap().value().len(), 32);
    assert_eq!(hs.current_stage(), HandshakeStage::AwaitServerTime);
    server.accept_client(&reply);
    // both sides now share a key: the server's ciphertext opens on the client
    let payload = server.time_payload(7);
    let mut opened = conn.open_payload(&payload).ok().unwrap();
    assert_eq!(opened.consume_raw_field().ok().unwrap().value(), 7u64.to_be_bytes().to_vec());
}

#[test]
fn malformed_hello_fails() {
    let mut conn = Connection::new();
    let mut hs = Handshake::new();
    let mut bad = FieldsBuilder::new().add_raw(vec![0u8; 15]).add_raw(vec![0u8; 32]).build();
    assert_eq!(hs.on_server_hello(&mut conn, &mut bad).err(), Some(HandshakeError::Malformed));
    assert_eq!(hs.current_stage(), HandshakeStage::Failed);
    let mut again = FieldsBuilder::new().build();
    assert_eq!(hs.on_server_hello(&mut conn, &mut again).err(), Some(HandshakeError::OutOfOrder));
}

#[test]
fn time_before_hello_is_out_of_order() {
    let conn = Connection::new();
    let mut hs = Handshake::new();
    let mut f = FieldsBuilder::new().add_raw(vec![0u8; 8]).build();
    assert_eq!(hs.on_server_time(&conn, &mut f, 0).err(), Some(HandshakeError::OutOfOrder));
}
