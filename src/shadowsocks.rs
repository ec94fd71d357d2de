use vstd::prelude::*;

use crate::header::{
    encode_header, header_bytes, server_header_step, step_matches, HeaderStep, MAX_PADDING_LEN,
};
use crate::location::NetLocation;
use crate::random::{fill_random, random_in_range};
use vstd::string::StringSliceAdditionalSpecFns;

verus! {

/// The window, in seconds, within which the AEAD-2022 variant refuses a salt seen before.
pub const AEAD2022_REPLAY_WINDOW_SECS: u64 = 60;

/// The AEAD ciphers that the handshake can run over.
#[derive(Debug, Clone, Copy, PartialEq, Eq)]
pub enum ShadowsocksCipher {
    Aes128Gcm,
    Aes256Gcm,
    Chacha20IetfPoly1305,
    Blake3Aes128Gcm,
    Blake3Aes256Gcm,
    Blake3Chacha20Poly1305,
}

/// The cipher that a configured name selects.
pub open spec fn cipher_of_name(name: Seq<char>) -> Option<ShadowsocksCipher> {
    if name == "aes-128-gcm"@ {
        Some(ShadowsocksCipher::Aes128Gcm)
    } else if name == "aes-256-gcm"@ {
        Some(ShadowsocksCipher::Aes256Gcm)
    } else if name == "chacha20-ietf-poly1305"@ {
        Some(ShadowsocksCipher::Chacha20IetfPoly1305)
    } else if name == "2022-blake3-aes-128-gcm"@ || name == "aead2022-blake3-aes-128-gcm"@ {
        Some(ShadowsocksCipher::Blake3Aes128Gcm)
    } else if name == "2022-blake3-aes-256-gcm"@ || name == "aead2022-blake3-aes-256-gcm"@ {
        Some(ShadowsocksCipher::Blake3Aes256Gcm)
    } else if name == "2022-blake3-chacha20-poly1305"@ || name
        == "aead2022-blake3-chacha20-poly1305"@ {
        Some(ShadowsocksCipher::Blake3Chacha20Poly1305)
    } else {
        None
    }
}

fn name_is(name: &str, candidate: &str) -> (r: bool)
    ensures
        r == (name@ == candidate@),
{
    name.to_owned() == candidate.to_owned()
}

impl ShadowsocksCipher {
    pub open spec fn spec_key_len(self) -> usize {
        match self {
            ShadowsocksCipher::Aes128Gcm | ShadowsocksCipher::Blake3Aes128Gcm => 16,
            _ => 32,
        }
    }

    /// The cipher a name selects; `None` for a name that selects none.
    pub fn from_name(name: &str) -> (r: Option<ShadowsocksCipher>)
        ensures
            r == cipher_of_name(name@),
    {
        if name_is(name, "aes-128-gcm") {
            Some(ShadowsocksCipher::Aes128Gcm)
        } else if name_is(name, "aes-256-gcm") {
            Some(ShadowsocksCipher::Aes256Gcm)
        } else if name_is(name, "chacha20-ietf-poly1305") {
            Some(ShadowsocksCipher::Chacha20IetfPoly1305)
        } else if name_is(name, "2022-blake3-aes-128-gcm") || name_is(
            name,
            "aead2022-blake3-aes-128-gcm",
        ) {
            Some(ShadowsocksCipher::Blake3Aes128Gcm)
        } else if name_is(name, "2022-blake3-aes-256-gcm") || name_is(
            name,
            "aead2022-blake3-aes-256-gcm",
        ) {
            Some(ShadowsocksCipher::Blake3Aes256Gcm)
        } else if name_is(name, "2022-blake3-chacha20-poly1305") || name_is(
            name,
            "aead2022-blake3-chacha20-poly1305",
        ) {
            Some(ShadowsocksCipher::Blake3Chacha20Poly1305)
        } else {
            None
        }
    }

    /// The length in bytes of the cipher's key.
    pub fn key_len(&self) -> (r: usize)
        ensures
            r == self.spec_key_len(),
    {
        match self {
            ShadowsocksCipher::Aes128Gcm | ShadowsocksCipher::Blake3Aes128Gcm => 16,
            _ => 32,
        }
    }

    /// The length in bytes of a connection's salt: the key's length for these ciphers.
    pub fn salt_len(&self) -> (r: usize)
        ensures
            r == self.spec_key_len(),
    {
        self.key_len()
    }
}

/// Where the handler's key comes from: a password, stretched to the cipher's
/// key length, or raw pre-shared key bytes.
#[derive(Debug, Clone, Copy, PartialEq, Eq)]
pub enum KeySource {
    Password,
    PreSharedKey,
}

/// The Shadowsocks handshake over an already established stream, in the legacy
/// AEAD variant or the AEAD-2022 variant.
#[derive(Debug, Clone)]
pub struct ShadowsocksTcpHandler {
    cipher: ShadowsocksCipher,
    key_source: KeySource,
    secret: Vec<u8>,
    aead2022: bool,
}

fn copy_str_bytes(s: &[u8]) -> (r: Vec<u8>)
    ensures
        r@ == s@,
{
    let mut out: Vec<u8> = Vec::new();
    let mut i: usize = 0;
    while i < s.len()
        invariant
            i <= s@.len(),
            out@ == s@.subrange(0, i as int),
        decreases s@.len() - i,
    {
        out.push(s[i]);
        i = i + 1;
        assert(out@ =~= s@.subrange(0, i as int));
    }
    assert(out@ =~= s@);
    out
}

impl ShadowsocksTcpHandler {
    pub closed spec fn spec_cipher(&self) -> ShadowsocksCipher {
        self.cipher
    }

    pub closed spec fn spec_key_source(&self) -> KeySource {
        self.key_source
    }

    pub closed spec fn spec_secret(&self) -> Seq<u8> {
        self.secret@
    }

    pub closed spec fn spec_aead2022(&self) -> bool {
        self.aead2022
    }

    /// The legacy AEAD variant: the key comes from `password`; no replay protection.
    pub fn new(cipher_name: &str, password: &str) -> (r: Self)
        requires
            cipher_of_name(cipher_name@) is Some,
        ensures
            r.spec_cipher() == cipher_of_name(cipher_name@)->0,
            r.spec_key_source() == KeySource::Password,
            r.spec_secret() == password.spec_bytes(),
            !r.spec_aead2022(),
    {
        let cipher = ShadowsocksCipher::from_name(cipher_name).unwrap();
        ShadowsocksTcpHandler {
            cipher,
            key_source: KeySource::Password,
            secret: copy_str_bytes(password.as_bytes()),
            aead2022: false,
        }
    }

    /// The AEAD-2022 variant: the key comes from the raw `key_bytes`, and salts
    /// are checked for replays over a window of `AEAD2022_REPLAY_WINDOW_SECS`.
    pub fn new_aead2022(cipher_name: &str, key_bytes: &[u8]) -> (r: Self)
        requires
            cipher_of_name(cipher_name@) is Some,
        ensures
            r.spec_cipher() == cipher_of_name(cipher_name@)->0,
            r.spec_key_source() == KeySource::PreSharedKey,
            r.spec_secret() == key_bytes@,
            r.spec_aead2022(),
    {
        let cipher = ShadowsocksCipher::from_name(cipher_name).unwrap();
        ShadowsocksTcpHandler {
            cipher,
            key_source: KeySource::PreSharedKey,
            secret: copy_str_bytes(key_bytes),
            aead2022: true,
        }
    }

    pub fn cipher(&self) -> (r: ShadowsocksCipher)
        ensures
            r == self.spec_cipher(),
    {
        self.cipher
    }

    pub fn key_source(&self) -> (r: KeySource)
        ensures
            r == self.spec_key_source(),
    {
        self.key_source
    }

    /// The password or pre-shared key bytes that the key is derived from.
    pub fn secret(&self) -> (r: &Vec<u8>)
        ensures
            r@ == self.spec_secret(),
    {
        &self.secret
    }

    pub fn is_aead2022(&self) -> (r: bool)
        ensures
            r == self.spec_aead2022(),
    {
        self.aead2022
    }

    /// The replay window that server connections share: only the AEAD-2022 variant has one.
    pub fn replay_window_secs(&self) -> (r: Option<u64>)
        ensures
            r == if self.spec_aead2022() {
                Some(AEAD2022_REPLAY_WINDOW_SECS)
            } else {
                None
            },
    {
        if self.aead2022 {
            Some(AEAD2022_REPLAY_WINDOW_SECS)
        } else {
            None
        }
    }

    /// The server's next move on the decrypted header bytes read so far.
    pub fn server_header_step(&self, buf: &Vec<u8>) -> (r: HeaderStep)
        ensures
            step_matches(buf@, self.spec_aead2022(), r),
    {
        server_header_step(buf, self.aead2022)
    }

    /// The header the client sends first: the destination, then, in the
    /// AEAD-2022 variant, a random padding block of 1 to 900 random bytes
    /// behind its length.
    pub fn client_header(&self, remote_location: &NetLocation) -> (r: Vec<u8>)
        requires
            remote_location.wf(),
        ensures
            self.spec_aead2022() ==> exists|padding: Seq<u8>|
                1 <= padding.len() <= MAX_PADDING_LEN && r@ == header_bytes(
                    remote_location@,
                    Some(padding),
                ),
            !self.spec_aead2022() ==> r@ == header_bytes(remote_location@, None),
    {
        if self.aead2022 {
            let padding_len = random_in_range(1, MAX_PADDING_LEN);
            let mut padding: Vec<u8> = Vec::new();
            let mut i: usize = 0;
            while i < padding_len
                invariant
                    i <= padding_len,
                    padding@.len() == i,
                decreases padding_len - i,
            {
                padding.push(0);
                i = i + 1;
            }
            fill_random(&mut padding);
            encode_header(remote_location, Some(&padding))
        } else {
            encode_header(remote_location, None)
        }
    }
}

} // verus!
