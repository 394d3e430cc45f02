//! The encrypted file format: a version byte, a key-derivation byte, the
//! salt, the nonce and the ciphertext, in that order; the notes file holds
//! these bytes as hexadecimal text.

use vstd::prelude::*;

use crate::globals::Globals;
use crate::hex::{from_hex, hex_decode, lemma_hex_round_trip, to_hex};
use crate::text::string_from_utf8;
use crate::crypto::{argon2id_derive, argon2id_hash, opt_bytes, random_bytes, scrypt_derive_interactive, scrypt_derive_sensitive, scrypt_interactive_key, scrypt_sensitive_key, sodium_ietf_decrypt, sodium_ietf_open, sodium_xchacha_decrypt, sodium_xchacha_open, xchacha_decrypt, xchacha_encrypt, xchacha_open, xchacha_seal};

verus! {

/// Why sealing or opening the notes failed.
#[derive(Debug, PartialEq, Eq, Structural)]
pub enum CryptoError {
    /// The bytes are too short for the salt and nonce their version needs.
    InvalidLength,
    /// The key-derivation byte names no known method.
    WrongDerivation,
    /// The key could not be derived from the password.
    KeyDerivation,
    /// The cipher refused to encrypt.
    Encryption,
    /// The ciphertext did not authenticate with the derived key.
    Decryption,
    /// The decrypted bytes are not UTF-8.
    InvalidText,
    /// A password is needed and none has been given yet.
    NeedPassword,
    /// The notes text to save is empty: it has no header line.
    EmptyNotes,
    /// The operating system's random source gave no salt or nonce.
    Random,
    /// The file is not the hexadecimal text of an encrypted file.
    InvalidHex,
}

/// The salt length of a file version: 32 bytes before version 4, 16 after.
pub open spec fn salt_len(version: u8) -> int {
    if version < 4 { 32 } else { 16 }
}

/// The nonce length of a file version: 12 bytes before version 3, 24 after.
pub open spec fn nonce_len(version: u8) -> int {
    if version < 3 { 12 } else { 24 }
}

/// The contents of an encrypted file, as plain values.
pub struct SealedView {
    pub version: u8,
    pub derivation: u8,
    pub salt: Seq<u8>,
    /// Whether the nonce is the short (12-byte) kind of the oldest files.
    pub short_nonce: bool,
    pub nonce: Seq<u8>,
    pub ciphertext: Seq<u8>,
}

/// Whether the salt and nonce have the lengths the version calls for.
pub open spec fn view_well_formed(v: SealedView) -> bool {
    &&& v.salt.len() == salt_len(v.version)
    &&& v.nonce.len() == nonce_len(v.version)
    &&& v.short_nonce == (v.version < 3)
}

/// The bytes of a file.
pub open spec fn serialize(v: SealedView) -> Seq<u8> {
    seq![v.version, v.derivation] + v.salt + v.nonce + v.ciphertext
}

/// Reads the bytes of a file: `None` where they are too short for the salt
/// and nonce of their version.
pub open spec fn parse(b: Seq<u8>) -> Option<SealedView> {
    if b.len() < 2 {
        None
    } else {
        let s = salt_len(b[0]);
        let n = nonce_len(b[0]);
        if b.len() < 2 + s + n {
            None
        } else {
            Some(
                SealedView {
                    version: b[0],
                    derivation: b[1],
                    salt: b.subrange(2, 2 + s),
                    short_nonce: b[0] < 3,
                    nonce: b.subrange(2 + s, 2 + s + n),
                    ciphertext: b.subrange(2 + s + n, b.len() as int),
                },
            )
        }
    }
}

/// Reading the bytes written for well-formed contents gives those contents.
pub proof fn lemma_parse_serialize(v: SealedView)
    requires
        view_well_formed(v),
    ensures
        parse(serialize(v)) == Some(v),
{
    let b = serialize(v);
    let s = salt_len(v.version);
    let n = nonce_len(v.version);
    assert(b[0] == v.version);
    assert(b[1] == v.derivation);
    assert(b.subrange(2, 2 + s) =~= v.salt);
    assert(b.subrange(2 + s, 2 + s + n) =~= v.nonce);
    assert(b.subrange(2 + s + n, b.len() as int) =~= v.ciphertext);
}

/// Writing the contents read from some bytes gives those bytes back.
pub proof fn lemma_serialize_parse(b: Seq<u8>)
    requires
        parse(b) is Some,
    ensures
        serialize(parse(b)->0) == b,
        view_well_formed(parse(b)->0),
{
    assert(serialize(parse(b)->0) =~= b);
}

/// A nonce: 12 bytes in files before version 3, 24 bytes after.
pub enum NonceType {
    V2(Vec<u8>),
    V3(Vec<u8>),
}

impl NonceType {
    /// The bytes of the nonce.
    pub open spec fn bytes(&self) -> Seq<u8> {
        match self {
            NonceType::V2(n) => n@,
            NonceType::V3(n) => n@,
        }
    }

    /// The bytes of the nonce.
    pub fn as_bytes(&self) -> (r: &[u8])
        ensures
            r@ == self.bytes(),
    {
        match self {
            NonceType::V2(n) => n.as_slice(),
            NonceType::V3(n) => n.as_slice(),
        }
    }
}

/// The contents of an encrypted file.
pub struct EncryptedData {
    pub version: u8,
    pub derivation: u8,
    pub salt: Vec<u8>,
    pub nonce: NonceType,
    pub ciphertext: Vec<u8>,
}

/// The bytes `b[lo..hi]` as a vector.
pub fn copy_bytes(b: &[u8], lo: usize, hi: usize) -> (r: Vec<u8>)
    requires
        lo <= hi <= b@.len(),
    ensures
        r@ == b@.subrange(lo as int, hi as int),
{
    let mut r: Vec<u8> = Vec::new();
    let mut i = lo;
    while i < hi
        invariant
            lo <= i <= hi <= b@.len(),
            r@ == b@.subrange(lo as int, i as int),
        decreases hi - i,
    {
        r.push(b[i]);
        i = i + 1;
    }
    r
}

/// Appends the bytes of `b` to `v`.
pub fn extend_bytes(v: &mut Vec<u8>, b: &[u8])
    ensures
        final(v)@ == old(v)@ + b@,
{
    let mut i: usize = 0;
    while i < b.len()
        invariant
            i <= b@.len(),
            v@ == old(v)@ + b@.subrange(0, i as int),
        decreases b@.len() - i,
    {
        v.push(b[i]);
        i = i + 1;
    }
}

impl EncryptedData {
    /// The contents as plain values.
    pub open spec fn view(&self) -> SealedView {
        SealedView {
            version: self.version,
            derivation: self.derivation,
            salt: self.salt@,
            short_nonce: self.nonce is V2,
            nonce: self.nonce.bytes(),
            ciphertext: self.ciphertext@,
        }
    }

    /// Whether salt and nonce, the nonce kind included, fit the version.
    pub open spec fn well_formed(&self) -> bool {
        view_well_formed(self.view())
    }

    /// Whether a version authenticates its header: from version 3 on.
    pub fn use_authenticated_header(version: u8) -> (r: bool)
        ensures
            r == (version >= 3),
    {
        version >= 3
    }

    /// The associated data that binds the header to the ciphertext.
    pub fn associated_data(version: u8, derivation: u8, salt: &[u8], nonce: &[u8]) -> (r: Vec<u8>)
        ensures
            r@ == header_data(version, derivation, salt@, nonce@),
    {
        let mut data: Vec<u8> = Vec::new();
        data.push(version);
        data.push(derivation);
        extend_bytes(&mut data, salt);
        extend_bytes(&mut data, nonce);
        assert(data@ =~= header_data(version, derivation, salt@, nonce@));
        data
    }

    /// The bytes of the file.
    pub fn to_bytes(&self) -> (r: Vec<u8>)
        ensures
            r@ == serialize(self.view()),
    {
        let mut bytes: Vec<u8> = Vec::new();
        bytes.push(self.version);
        bytes.push(self.derivation);
        extend_bytes(&mut bytes, self.salt.as_slice());
        extend_bytes(&mut bytes, self.nonce.as_bytes());
        extend_bytes(&mut bytes, self.ciphertext.as_slice());
        assert(bytes@ =~= serialize(self.view()));
        bytes
    }

    /// Reads the bytes of a file (see `parse`).
    pub fn from_bytes(bytes: &[u8]) -> (r: Result<EncryptedData, CryptoError>)
        requires
            bytes@.len() >= 2,
        ensures
            r is Ok <==> parse(bytes@) is Some,
            r matches Ok(e) ==> e.well_formed() && e.view() == parse(bytes@)->0,
            r matches Err(err) ==> err == CryptoError::InvalidLength,
    {
        let n: usize = 2;
        let version = bytes[0];
        let derivation = bytes[1];
        let sbytes: usize = if version < 4 { 32 } else { 16 };
        let nbytes: usize = if version < 3 { 12 } else { 24 };
        if bytes.len() < n + sbytes + nbytes {
            return Err(CryptoError::InvalidLength);
        }
        let nonce_bytes = copy_bytes(bytes, n + sbytes, n + sbytes + nbytes);
        let nonce = if version < 3 { NonceType::V2(nonce_bytes) } else { NonceType::V3(nonce_bytes) };
        let ciphertext = copy_bytes(bytes, n + sbytes + nbytes, bytes.len());
        let salt = copy_bytes(bytes, n, n + sbytes);
        Ok(EncryptedData { version, derivation, salt, nonce, ciphertext })
    }
}

/// The associated data of a header: version, derivation, salt and nonce.
pub open spec fn header_data(version: u8, derivation: u8, salt: Seq<u8>, nonce: Seq<u8>) -> Seq<u8> {
    seq![version, derivation] + salt + nonce
}


/// The UTF-8 bytes of some text.
pub open spec fn utf8(s: Seq<char>) -> Seq<u8> {
    vstd::utf8::encode_utf8(s)
}

/// The all-zero key used when nothing is encrypted.
pub open spec fn zero_key() -> Seq<u8> {
    Seq::new(32, |i: int| 0u8)
}

/// The key a derivation method gives for a password and a salt (file
/// version 4): 0 is no encryption (a zero key), 1 is Argon2id with 64 MiB
/// and 2 passes, 2 is Argon2id with 1 GiB and 4 passes.
pub open spec fn spec_key(pw: Seq<u8>, salt: Seq<u8>, derivation: u8) -> Option<Seq<u8>> {
    if derivation == 0 {
        Some(zero_key())
    } else if derivation == 1 {
        argon2id_hash(pw, salt, 65536, 2)
    } else if derivation == 2 {
        argon2id_hash(pw, salt, 1048576, 4)
    } else {
        None
    }
}

/// The bytes of a result as plain values.
pub open spec fn res_bytes(r: Result<Vec<u8>, CryptoError>) -> Result<Seq<u8>, CryptoError> {
    match r {
        Ok(v) => Ok(v@),
        Err(e) => Err(e),
    }
}

/// Derives the key for a password and salt (see `spec_key`); a derivation
/// byte above 2 is an error of its own.
pub fn key_from_pw(password: &str, salt: &[u8], derivation: u8) -> (r: Result<Vec<u8>, CryptoError>)
    ensures
        derivation > 2 ==> r == Err::<Vec<u8>, CryptoError>(CryptoError::WrongDerivation),
        derivation <= 2 ==> (r is Ok <==> spec_key(utf8(password@), salt@, derivation) is Some),
        derivation <= 2 && r is Err ==> r == Err::<Vec<u8>, CryptoError>(CryptoError::KeyDerivation),
        r matches Ok(k) ==> k@ == spec_key(utf8(password@), salt@, derivation)->0 && k@.len() == 32,
        (derivation == 1 || derivation == 2) && 8 <= salt@.len() <= 0xFFFF_FFFF && utf8(password@).len()
            <= 0xFFFF_FFFF ==> r is Ok,
{
    if derivation == 0 {
        let mut key: Vec<u8> = Vec::new();
        let mut i: usize = 0;
        while i < 32
            invariant
                i <= 32,
                key@ == Seq::new(i as nat, |j: int| 0u8),
            decreases 32 - i,
        {
            key.push(0u8);
            i = i + 1;
        }
        return Ok(key);
    }
    let pw = password.as_bytes();
    let derived = if derivation == 1 {
        argon2id_derive(pw, salt, 65536, 2)
    } else if derivation == 2 {
        argon2id_derive(pw, salt, 1048576, 4)
    } else {
        return Err(CryptoError::WrongDerivation);
    };
    match derived {
        Some(k) => Ok(k),
        None => Err(CryptoError::KeyDerivation),
    }
}

/// The associated data a version binds to its ciphertext: the whole header
/// from version 3 on, the salt before.
pub open spec fn spec_aad(v: SealedView) -> Seq<u8> {
    if v.version >= 3 {
        header_data(v.version, v.derivation, v.salt, v.nonce)
    } else {
        v.salt
    }
}

/// What opening the contents of a file with a password gives, where the
/// key is derived and the text sealed as in version 4 (see `spec_key`):
/// XChaCha20-Poly1305 over the header. Files before version 4 are opened
/// with the legacy ciphers instead (see `legacy_open`).
pub open spec fn spec_open(v: SealedView, pw: Seq<u8>) -> Result<Seq<u8>, CryptoError> {
    if v.derivation == 0 {
        Ok(v.ciphertext)
    } else if v.derivation > 2 {
        Err(CryptoError::WrongDerivation)
    } else {
        match spec_key(pw, v.salt, v.derivation) {
            None => Err(CryptoError::KeyDerivation),
            Some(k) => {
                match xchacha_open(k, v.nonce, v.ciphertext, spec_aad(v)) {
                    Some(m) => Ok(m),
                    None => Err(CryptoError::Decryption),
                }
            },
        }
    }
}

/// What opening the contents of a file before version 4 gives, for a key
/// derivation that succeeds: scrypt keys and libsodium's ciphers.
pub open spec fn legacy_open(v: SealedView, pw: Seq<u8>) -> Option<Seq<u8>> {
    let key = if v.derivation == 1 {
        scrypt_interactive_key(pw, v.salt)
    } else {
        scrypt_sensitive_key(pw, v.salt)
    };
    if v.version < 3 {
        sodium_ietf_open(key, v.nonce, v.ciphertext, v.salt)
    } else {
        sodium_xchacha_open(key, v.nonce, v.ciphertext, header_data(v.version, v.derivation, v.salt, v.nonce))
    }
}

/// Opens the contents of a file written before version 4, whose keys come
/// from scrypt and whose ciphers are libsodium's.
pub fn legacy_decrypt(
    version: u8,
    derivation: u8,
    salt_bytes: &[u8],
    nonce_bytes: &[u8],
    ciphertext: &[u8],
    password: &str,
) -> (r: Result<Vec<u8>, CryptoError>)
    requires
        salt_bytes@.len() == 32,
        nonce_bytes@.len() == nonce_len(version),
    ensures
        derivation == 0 ==> (r matches Ok(m) && m@ == ciphertext@),
        derivation > 2 ==> r == Err::<Vec<u8>, CryptoError>(CryptoError::WrongDerivation),
        1 <= derivation <= 2 ==> (r matches Ok(m) ==> legacy_open(
            SealedView {
                version,
                derivation,
                salt: salt_bytes@,
                short_nonce: version < 3,
                nonce: nonce_bytes@,
                ciphertext: ciphertext@,
            },
            utf8(password@),
        ) == Some(m@)),
        1 <= derivation <= 2 ==> (r matches Err(e) ==> (e == CryptoError::KeyDerivation || e
            == CryptoError::Decryption)),
        1 <= derivation <= 2 && r == Err::<Vec<u8>, CryptoError>(CryptoError::Decryption) ==> legacy_open(
            SealedView {
                version,
                derivation,
                salt: salt_bytes@,
                short_nonce: version < 3,
                nonce: nonce_bytes@,
                ciphertext: ciphertext@,
            },
            utf8(password@),
        ) is None,
{
    if derivation == 0 {
        let c = copy_bytes(ciphertext, 0, ciphertext.len());
        assert(c@ =~= ciphertext@);
        return Ok(c);
    }
    let pw = password.as_bytes();
    let derived = if derivation == 1 {
        scrypt_derive_interactive(pw, salt_bytes)
    } else if derivation == 2 {
        scrypt_derive_sensitive(pw, salt_bytes)
    } else {
        return Err(CryptoError::WrongDerivation);
    };
    let key = match derived {
        Some(k) => k,
        None => return Err(CryptoError::KeyDerivation),
    };
    let opened = if version < 3 {
        sodium_ietf_decrypt(&key, nonce_bytes, ciphertext, salt_bytes)
    } else {
        let header_ad = EncryptedData::associated_data(version, derivation, salt_bytes, nonce_bytes);
        sodium_xchacha_decrypt(&key, nonce_bytes, ciphertext, &header_ad)
    };
    match opened {
        Some(m) => Ok(m),
        None => Err(CryptoError::Decryption),
    }
}

impl EncryptedData {
    /// Seals `plaintext` as a version 4 file: a fresh random 16-byte salt
    /// and 24-byte nonce, the key from `password`, and XChaCha20-Poly1305
    /// over the header (nothing is encrypted with derivation 0).
    pub fn new(plaintext: &str, password: &str, derivation: u8) -> (r: Result<EncryptedData, CryptoError>)
        ensures
            derivation == 0 ==> r is Ok || r == Err::<EncryptedData, CryptoError>(CryptoError::Random),
            (derivation == 1 || derivation == 2) && utf8(password@).len() <= 0xFFFF_FFFF && utf8(plaintext@).len()
                < 64 * 0xFFFF_FFFF ==> r is Ok || r == Err::<EncryptedData, CryptoError>(CryptoError::Random),
            derivation > 2 ==> (r matches Err(e) && e == CryptoError::WrongDerivation),
            r matches Err(e) ==> e == CryptoError::WrongDerivation || e == CryptoError::KeyDerivation
                || e == CryptoError::Encryption || e == CryptoError::Random,
            r matches Ok(e) ==> {
                &&& e.well_formed()
                &&& e.version == 4
                &&& e.derivation == derivation
                &&& e.salt@.len() == 16
                &&& e.nonce is V3
                &&& derivation == 0 ==> e.ciphertext@ == utf8(plaintext@)
                &&& derivation != 0 ==> (spec_key(utf8(password@), e.salt@, derivation) matches Some(k)
                    && xchacha_seal(k, e.nonce.bytes(), utf8(plaintext@), spec_aad(e.view()))
                    == Some(e.ciphertext@))
                &&& spec_open(e.view(), utf8(password@)) == Ok::<Seq<u8>, CryptoError>(utf8(plaintext@))
            },
    {
        let version: u8 = 4;
        if derivation > 2 {
            return Err(CryptoError::WrongDerivation);
        }
        let salt = match random_bytes(16) {
            Some(s) => s,
            None => return Err(CryptoError::Random),
        };
        let nonce_bytes = match random_bytes(24) {
            Some(n) => n,
            None => return Err(CryptoError::Random),
        };
        let key = key_from_pw(password, salt.as_slice(), derivation)?;
        let msg = plaintext.as_bytes();
        let ciphertext = if derivation == 0 {
            copy_bytes(msg, 0, msg.len())
        } else {
            let header_ad = if Self::use_authenticated_header(version) {
                Self::associated_data(version, derivation, salt.as_slice(), nonce_bytes.as_slice())
            } else {
                copy_bytes(salt.as_slice(), 0, salt.len())
            };
            match xchacha_encrypt(key.as_slice(), nonce_bytes.as_slice(), msg, header_ad.as_slice()) {
                Some(c) => c,
                None => return Err(CryptoError::Encryption),
            }
        };
        let e = EncryptedData { version, derivation, salt, nonce: NonceType::V3(nonce_bytes), ciphertext };
        assert(msg@.subrange(0, msg@.len() as int) =~= msg@);
        Ok(e)
    }

    /// Opens the contents with `password`: with derivation 0 the ciphertext
    /// is the text itself; before version 4 the legacy ciphers are used;
    /// otherwise see `spec_open`.
    pub fn decrypt(&self, password: &str) -> (r: Result<Vec<u8>, CryptoError>)
        requires
            self.well_formed(),
        ensures
            self.derivation == 0 || self.version >= 4 ==> res_bytes(r) == spec_open(
                self.view(),
                utf8(password@),
            ),
            self.derivation != 0 && self.version < 4 ==> {
                &&& self.derivation > 2 ==> r == Err::<Vec<u8>, CryptoError>(CryptoError::WrongDerivation)
                &&& r matches Ok(m) ==> legacy_open(self.view(), utf8(password@)) == Some(m@)
                &&& self.derivation <= 2 ==> (r matches Err(e) ==> (e == CryptoError::KeyDerivation || e
                    == CryptoError::Decryption))
                &&& r == Err::<Vec<u8>, CryptoError>(CryptoError::Decryption) ==> legacy_open(
                    self.view(),
                    utf8(password@),
                ) is None
            },
    {
        if self.derivation == 0 {
            let c = copy_bytes(self.ciphertext.as_slice(), 0, self.ciphertext.len());
            assert(c@ =~= self.ciphertext@);
            return Ok(c);
        }
        if self.version < 4 {
            return legacy_decrypt(
                self.version,
                self.derivation,
                self.salt.as_slice(),
                self.nonce.as_bytes(),
                self.ciphertext.as_slice(),
                password,
            );
        }
        let key = key_from_pw(password, self.salt.as_slice(), self.derivation)?;
        let nonce_bytes = self.nonce.as_bytes();
        let header_ad = if Self::use_authenticated_header(self.version) {
            Self::associated_data(self.version, self.derivation, self.salt.as_slice(), nonce_bytes)
        } else {
            copy_bytes(self.salt.as_slice(), 0, self.salt.len())
        };
        let opened = xchacha_decrypt(key.as_slice(), nonce_bytes, self.ciphertext.as_slice(), header_ad.as_slice());
        match opened {
            Some(m) => Ok(m),
            None => Err(CryptoError::Decryption),
        }
    }
}


/// The password the notes are sealed with: `none` when nothing is
/// encrypted, otherwise the one the user gave.
pub open spec fn password_of(g: Globals) -> Seq<char> {
    if g.derivation == 0 {
        "none"@
    } else {
        g.password@
    }
}

/// Text read from decrypted bytes: an error where they are not UTF-8.
pub open spec fn text_of(r: Result<Seq<u8>, CryptoError>) -> Result<Seq<char>, CryptoError> {
    match r {
        Ok(b) => if vstd::utf8::valid_utf8(b) {
            Ok(vstd::utf8::decode_utf8(b))
        } else {
            Err(CryptoError::InvalidText)
        },
        Err(e) => Err(e),
    }
}

/// A text result as plain values.
pub open spec fn res_text(r: Result<String, CryptoError>) -> Result<Seq<char>, CryptoError> {
    match r {
        Ok(s) => Ok(s@),
        Err(e) => Err(e),
    }
}

/// The contents a notes file holds: its hexadecimal text read back into
/// the bytes of an encrypted file, and those read (see `parse`).
pub open spec fn stored_contents(b: Seq<u8>) -> Option<SealedView> {
    match hex_decode(b) {
        Some(raw) => parse(raw),
        None => None,
    }
}

/// What a version 4 notes file, or any that encrypts nothing, opens to
/// with a password.
pub open spec fn spec_decrypt_bytes(b: Seq<u8>, pw: Seq<char>) -> Result<Seq<char>, CryptoError> {
    match hex_decode(b) {
        None => Err(CryptoError::InvalidHex),
        Some(raw) => match parse(raw) {
            None => Err(CryptoError::InvalidLength),
            Some(v) => text_of(spec_open(v, utf8(pw))),
        },
    }
}

/// A file that was sealed from some text opens to that text again with the
/// same password.
pub proof fn lemma_decrypt_what_was_encrypted(b: Seq<u8>, pw: Seq<char>, text: Seq<char>)
    requires
        stored_contents(b) is Some,
        spec_open(stored_contents(b)->0, utf8(pw)) == Ok::<Seq<u8>, CryptoError>(utf8(text)),
    ensures
        spec_decrypt_bytes(b, pw) == Ok::<Seq<char>, CryptoError>(text),
{
    broadcast use vstd::utf8::encode_utf8_valid_utf8, vstd::utf8::encode_utf8_decode_utf8;
}

/// Seals the notes text with the state's password and key derivation, as
/// the hexadecimal text of a version 4 file.
pub fn encrypt_text(g: &Globals, plaintext: &str) -> (r: Result<Vec<u8>, CryptoError>)
    ensures
        g.derivation != 0 && g.password@.len() == 0 ==> r == Err::<Vec<u8>, CryptoError>(
            CryptoError::NeedPassword,
        ),
        g.derivation == 0 || g.password@.len() > 0 ==> {
            &&& (g.derivation as u8) == 0 ==> r is Ok || r == Err::<Vec<u8>, CryptoError>(CryptoError::Random)
            &&& (g.derivation == 1 || g.derivation == 2) && utf8(g.password@).len() <= 0xFFFF_FFFF && utf8(
                plaintext@,
            ).len() < 64 * 0xFFFF_FFFF ==> r is Ok || r == Err::<Vec<u8>, CryptoError>(CryptoError::Random)
            &&& (g.derivation as u8) > 2 ==> r == Err::<Vec<u8>, CryptoError>(CryptoError::WrongDerivation)
        },
        r matches Err(e) ==> seal_error(*g, e),
        r matches Ok(b) ==> seals(*g, b@, plaintext@),
{
    if g.derivation != 0 && g.password.as_str().is_empty() {
        return Err(CryptoError::NeedPassword);
    }
    let password = if g.derivation == 0 { "none".to_string() } else { g.password.clone() };
    let e = EncryptedData::new(plaintext, password.as_str(), g.derivation as u8)?;
    let raw = e.to_bytes();
    let b = to_hex(raw.as_slice());
    proof {
        lemma_parse_serialize(e.view());
        lemma_hex_round_trip(raw@);
        lemma_decrypt_what_was_encrypted(b@, password@, plaintext@);
    }
    Ok(b)
}

/// Opens the bytes of a notes file with the state's password, after taking
/// the file's key derivation into the state; asks for a password (as an
/// error) where one is needed and none is known yet.
pub fn decrypt_bytes(g: &mut Globals, bytes: &[u8]) -> (r: Result<String, CryptoError>)
    ensures
        hex_decode(bytes@) is None ==> r == Err::<String, CryptoError>(CryptoError::InvalidHex) && *final(g)
            == *old(g),
        (hex_decode(bytes@) matches Some(raw) && parse(raw) is None) ==> r == Err::<String, CryptoError>(
            CryptoError::InvalidLength,
        ) && *final(g) == *old(g),
        stored_contents(bytes@) matches Some(v) ==> {
            &&& *final(g) == (Globals { derivation: v.derivation as usize, ..*old(g) })
            &&& v.derivation != 0 && old(g).password@.len() == 0 ==> r == Err::<String, CryptoError>(
                CryptoError::NeedPassword,
            )
            &&& (v.derivation == 0 || old(g).password@.len() > 0) && (v.derivation == 0 || v.version >= 4)
                ==> res_text(r) == spec_decrypt_bytes(bytes@, password_of(*final(g)))
            &&& v.derivation != 0 && v.version < 4 ==> (r matches Ok(s) ==> exists|m: Seq<u8>|
                legacy_open(v, utf8(password_of(*final(g)))) == Some(m) && vstd::utf8::valid_utf8(m)
                    && s@ == vstd::utf8::decode_utf8(m))
            &&& v.derivation != 0 && v.version < 4 && old(g).password@.len() > 0 ==> {
                &&& v.derivation > 2 ==> r == Err::<String, CryptoError>(CryptoError::WrongDerivation)
                &&& v.derivation <= 2 ==> (r matches Err(e) ==> (e == CryptoError::KeyDerivation || e
                    == CryptoError::Decryption || e == CryptoError::InvalidText))
                &&& r == Err::<String, CryptoError>(CryptoError::Decryption) ==> legacy_open(
                    v,
                    utf8(password_of(*final(g))),
                ) is None
                &&& r == Err::<String, CryptoError>(CryptoError::InvalidText) ==> exists|m: Seq<u8>|
                    legacy_open(v, utf8(password_of(*final(g)))) == Some(m) && !vstd::utf8::valid_utf8(m)
            }
        },
{
    let raw = match from_hex(bytes) {
        Some(r) => r,
        None => return Err(CryptoError::InvalidHex),
    };
    if raw.len() < 2 {
        return Err(CryptoError::InvalidLength);
    }
    let e = EncryptedData::from_bytes(raw.as_slice())?;
    g.derivation = e.derivation as usize;
    if e.derivation != 0 && g.password.as_str().is_empty() {
        return Err(CryptoError::NeedPassword);
    }
    let password = if g.derivation == 0 { "none".to_string() } else { g.password.clone() };
    let plain = e.decrypt(password.as_str())?;
    let ghost m = plain@;
    match string_from_utf8(plain) {
        Some(s) => Ok(s),
        None => Err(CryptoError::InvalidText),
    }
}


/// The file text `b` seals `text` for the state `g`: a version 4 file with the
/// state's key derivation that opens to `text` with the state's password.
pub open spec fn seals(g: Globals, b: Seq<u8>, text: Seq<char>) -> bool {
    &&& stored_contents(b) matches Some(v)
    &&& v.version == 4
    &&& v.derivation == g.derivation as u8
    &&& spec_decrypt_bytes(b, password_of(g)) == Ok::<Seq<char>, CryptoError>(text)
}

/// Why sealing can fail for the state `g`.
pub open spec fn seal_error(g: Globals, e: CryptoError) -> bool {
    &&& g.derivation != 0 && g.password@.len() == 0 <==> e == CryptoError::NeedPassword
    &&& e == CryptoError::NeedPassword || e == CryptoError::WrongDerivation || e
        == CryptoError::KeyDerivation || e == CryptoError::Encryption || e == CryptoError::Random
    &&& (g.derivation as u8) == 0 ==> e == CryptoError::NeedPassword || e == CryptoError::Random
    &&& (g.derivation as u8) > 2 ==> e == CryptoError::NeedPassword || e == CryptoError::WrongDerivation
}


/// A notes file written as version 4 opens with its password to what
/// XChaCha20-Poly1305 opens its ciphertext to, with the file's header as
/// associated data, under the key Argon2id (version 0x13, one lane, 32
/// bytes) gives for the password and the salt: with 64 MiB of memory and 2
/// passes for key derivation 1, with 1 GiB and 4 passes for key derivation
/// 2. A ciphertext that does not open is a decryption error, a key Argon2id
/// refuses a key derivation error; read from the file's hexadecimal text,
/// the opened bytes are the notes text where they are UTF-8.
pub proof fn lemma_version4_keys(v: SealedView, pw: Seq<char>)
    requires
        view_well_formed(v),
        v.version >= 4,
        v.derivation == 1 || v.derivation == 2,
    ensures
        ({
            let key = if v.derivation == 1 {
                argon2id_hash(utf8(pw), v.salt, 65536, 2)
            } else {
                argon2id_hash(utf8(pw), v.salt, 1048576, 4)
            };
            let opened = match key {
                None => Err::<Seq<u8>, CryptoError>(CryptoError::KeyDerivation),
                Some(k) => match xchacha_open(
                    k,
                    v.nonce,
                    v.ciphertext,
                    header_data(v.version, v.derivation, v.salt, v.nonce),
                ) {
                    Some(m) => Ok(m),
                    None => Err(CryptoError::Decryption),
                },
            };
            &&& spec_open(v, utf8(pw)) == opened
            &&& spec_decrypt_bytes(crate::hex::hex_encode(serialize(v)), pw) == text_of(opened)
        }),
{
    lemma_parse_serialize(v);
    lemma_hex_round_trip(serialize(v));
}

/// A notes file from before version 4 opens with the key scrypt
/// (libsodium's scryptsalsa208sha256) gives for the password and the salt:
/// under the interactive limits for key derivation 1, under the sensitive
/// limits for key derivation 2. Version 2 files open with
/// ChaCha20-Poly1305 (IETF) and the salt as associated data, version 3
/// files with XChaCha20-Poly1305 and the header as associated data.
pub proof fn lemma_legacy_keys(v: SealedView, pw: Seq<u8>)
    requires
        v.version < 4,
    ensures
        v.derivation == 1 && v.version < 3 ==> legacy_open(v, pw) == sodium_ietf_open(
            scrypt_interactive_key(pw, v.salt),
            v.nonce,
            v.ciphertext,
            v.salt,
        ),
        v.derivation == 2 && v.version < 3 ==> legacy_open(v, pw) == sodium_ietf_open(
            scrypt_sensitive_key(pw, v.salt),
            v.nonce,
            v.ciphertext,
            v.salt,
        ),
        v.derivation == 1 && v.version == 3 ==> legacy_open(v, pw) == sodium_xchacha_open(
            scrypt_interactive_key(pw, v.salt),
            v.nonce,
            v.ciphertext,
            seq![3u8, 1u8] + v.salt + v.nonce,
        ),
        v.derivation == 2 && v.version == 3 ==> legacy_open(v, pw) == sodium_xchacha_open(
            scrypt_sensitive_key(pw, v.salt),
            v.nonce,
            v.ciphertext,
            seq![3u8, 2u8] + v.salt + v.nonce,
        ),
{
}

} // verus!
