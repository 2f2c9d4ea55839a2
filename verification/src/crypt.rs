//! The encrypted container and the password-derived encryption around it.

use crate::aead::{
    chacha20_applied, fits_one_nonce, open, opened, poly1305_tag, seal, sealed, MAX_DATA_LEN,
    NONCE_LEN, TAG_LEN,
};
use crate::encoding::{
    base64_bytes, base64_encode, base64_len, base64_text, is_base64_alphabet, unbase64,
};
use crate::error::Error;
use crate::kdf::{derive_key, derived_key, scrub, KdfParams, SALT_LEN};
use crate::text::grammar::{object_fields, rendered};
use crate::text::laws::lemma_rendered_reads_back;
use crate::text::prefix::lemma_truncated_text_is_rejected;
use crate::text::reader::parse;
use crate::text::writer::render;
use rand::RngCore;
use vstd::prelude::*;
use vstd::string::StringSliceAdditionalSpecFns;
use vstd::utf8::{decode_utf8, valid_utf8};

verus! {

/// The persisted container: everything needed, besides the password, to get
/// the plaintext back and to notice that something was changed.
///
/// A container is made whole by one encryption and never changed in place.
#[derive(Debug, Clone, PartialEq, Eq)]
pub struct Encrypted {
    /// Random bytes mixed into the key derivation, fresh for each encryption.
    pub salt: Vec<u8>,
    /// Random bytes used once under the derived key.
    pub nonce: Vec<u8>,
    /// The encrypted plaintext, of the same length.
    pub ciphertext: Vec<u8>,
    /// The authentication tag over the ciphertext.
    pub tag: Vec<u8>,
}

/// A container as four byte sequences.
pub struct EncryptedView {
    pub salt: Seq<u8>,
    pub nonce: Seq<u8>,
    pub ciphertext: Seq<u8>,
    pub tag: Seq<u8>,
}

impl EncryptedView {
    /// The fields have the lengths that an encryption gives them: a salt of
    /// 32 bytes, a nonce of 8 and a tag of 16.
    pub open spec fn well_formed(self) -> bool {
        &&& self.salt.len() == SALT_LEN
        &&& self.nonce.len() == NONCE_LEN
        &&& self.tag.len() == TAG_LEN
    }
}

impl View for Encrypted {
    type V = EncryptedView;

    open spec fn view(&self) -> EncryptedView {
        EncryptedView {
            salt: self.salt@,
            nonce: self.nonce@,
            ciphertext: self.ciphertext@,
            tag: self.tag@,
        }
    }
}

/// A container with each field written as unpadded base64 text.
#[derive(Debug, Clone, PartialEq, Eq)]
pub struct EncryptedSerializable {
    pub salt: String,
    pub nonce: String,
    pub ciphertext: String,
    pub tag: String,
}

/// The four texts of an [`EncryptedSerializable`].
pub struct SerializableView {
    pub salt: Seq<char>,
    pub nonce: Seq<char>,
    pub ciphertext: Seq<char>,
    pub tag: Seq<char>,
}

impl View for EncryptedSerializable {
    type V = SerializableView;

    open spec fn view(&self) -> SerializableView {
        SerializableView {
            salt: self.salt@,
            nonce: self.nonce@,
            ciphertext: self.ciphertext@,
            tag: self.tag@,
        }
    }
}

impl SerializableView {
    /// Each field has the length of the unpadded base64 text for the bytes of
    /// the container's field.
    pub open spec fn has_lengths_for(self, container: EncryptedView) -> bool {
        &&& self.salt.len() == base64_len(container.salt.len())
        &&& self.nonce.len() == base64_len(container.nonce.len())
        &&& self.ciphertext.len() == base64_len(container.ciphertext.len())
        &&& self.tag.len() == base64_len(container.tag.len())
    }

    /// Each field holds symbols of the base64 alphabet only.
    pub open spec fn is_base64(self) -> bool {
        &&& is_base64_alphabet(self.salt)
        &&& is_base64_alphabet(self.nonce)
        &&& is_base64_alphabet(self.ciphertext)
        &&& is_base64_alphabet(self.tag)
    }
}

/// The base64 form of a container, field by field.
pub open spec fn encoded(container: EncryptedView) -> SerializableView {
    SerializableView {
        salt: base64_text(container.salt),
        nonce: base64_text(container.nonce),
        ciphertext: base64_text(container.ciphertext),
        tag: base64_text(container.tag),
    }
}

/// The container that four texts stand for, if each of them is base64.
pub open spec fn decoded(texts: SerializableView) -> Option<EncryptedView> {
    match (
        base64_bytes(texts.salt),
        base64_bytes(texts.nonce),
        base64_bytes(texts.ciphertext),
        base64_bytes(texts.tag),
    ) {
        (Some(salt), Some(nonce), Some(ciphertext), Some(tag)) => Some(
            EncryptedView { salt, nonce, ciphertext, tag },
        ),
        _ => None,
    }
}

impl EncryptedSerializable {
    /// Encodes each field of a container as unpadded base64: symbols of the
    /// standard alphabet only, `(4 * n + 2) / 3` of them for a field of `n`
    /// bytes.
    ///
    /// The result decodes to the container it was made from.
    pub fn new(e: &Encrypted) -> (texts: Self)
        ensures
            texts@ == encoded(e@),
            texts@.is_base64(),
            texts@.has_lengths_for(e@),
            texts.salt@.len() == (4 * e.salt@.len() + 2) / 3,
            texts.nonce@.len() == (4 * e.nonce@.len() + 2) / 3,
            texts.ciphertext@.len() == (4 * e.ciphertext@.len() + 2) / 3,
            texts.tag@.len() == (4 * e.tag@.len() + 2) / 3,
            decoded(texts@) == Some(e@),
    {
        EncryptedSerializable {
            salt: base64_encode(e.salt.as_slice()),
            nonce: base64_encode(e.nonce.as_slice()),
            ciphertext: base64_encode(e.ciphertext.as_slice()),
            tag: base64_encode(e.tag.as_slice()),
        }
    }

    /// Decodes each field. A field that is not base64 makes the whole a
    /// malformed container.
    pub fn to_encrypted(&self) -> (container: Result<Encrypted, Error>)
        ensures
            match container {
                Ok(e) => decoded(self@) == Some(e@),
                Err(err) => decoded(self@) is None && err == Error::MalformedContainer,
            },
    {
        let salt = match unbase64(self.salt.as_str()) {
            Ok(bytes) => bytes,
            Err(err) => {
                return Err(err);
            },
        };
        let nonce = match unbase64(self.nonce.as_str()) {
            Ok(bytes) => bytes,
            Err(err) => {
                return Err(err);
            },
        };
        let ciphertext = match unbase64(self.ciphertext.as_str()) {
            Ok(bytes) => bytes,
            Err(err) => {
                return Err(err);
            },
        };
        let tag = match unbase64(self.tag.as_str()) {
            Ok(bytes) => bytes,
            Err(err) => {
                return Err(err);
            },
        };
        Ok(Encrypted { salt, nonce, ciphertext, tag })
    }
}

/// The text that a container is persisted as.
pub open spec fn container_text(container: EncryptedView) -> Seq<char> {
    rendered(encoded(container))
}

/// The container that a text stands for, if it is the text of one.
pub open spec fn container_from_text(text: Seq<char>) -> Option<EncryptedView> {
    match object_fields(text) {
        Some(texts) => decoded(texts),
        None => None,
    }
}

/// The container that the bytes of a file stand for, if they are UTF-8 and
/// the text of one.
pub open spec fn container_from_bytes(bytes: Seq<u8>) -> Option<EncryptedView> {
    if valid_utf8(bytes) {
        container_from_text(decode_utf8(bytes))
    } else {
        None
    }
}

/// The text of a container, cut short at whatever place, is the text of no
/// container.
pub proof fn lemma_truncated_text_is_no_container(container: EncryptedView, kept: int)
    requires
        0 <= kept < container_text(container).len(),
    ensures
        container_from_text(container_text(container).take(kept)) is None,
{
    lemma_truncated_text_is_rejected(encoded(container), kept);
}

impl Encrypted {
    /// Writes the container as text: one object with the four fields in
    /// base64, in a fixed order.
    ///
    /// It cannot fail, and [`Encrypted::from_text`] reads the container back
    /// from the result, byte for byte.
    pub fn to_text(&self) -> (text: String)
        ensures
            text@ == container_text(self@),
            container_from_text(text@) == Some(self@),
    {
        let texts = EncryptedSerializable::new(self);
        proof {
            lemma_rendered_reads_back(texts@);
        }
        render(&texts)
    }

    /// Reads a container from its text.
    ///
    /// Text that is not an object, that lacks a field or holds one twice, or
    /// in which a field is not a base64 string, is a malformed container.
    pub fn from_text(text: &str) -> (container: Result<Encrypted, Error>)
        ensures
            match container {
                Ok(c) => container_from_text(text@) == Some(c@),
                Err(e) => container_from_text(text@) is None && e == Error::MalformedContainer,
            },
    {
        match parse(text) {
            Ok(texts) => texts.to_encrypted(),
            Err(e) => Err(e),
        }
    }

    /// Reads a container from the bytes of a file. Bytes that are not UTF-8
    /// are a malformed container too.
    pub fn from_bytes(bytes: Vec<u8>) -> (container: Result<Encrypted, Error>)
        ensures
            match container {
                Ok(c) => container_from_bytes(bytes@) == Some(c@),
                Err(e) => container_from_bytes(bytes@) is None && e == Error::MalformedContainer,
            },
    {
        match String::from_utf8(bytes) {
            Ok(text) => Encrypted::from_text(text.as_str()),
            Err(_) => Err(Error::MalformedContainer),
        }
    }
}

/// Why `plaintext` is not encrypted under `params`, if it is not: the work
/// factor is not valid, or the plaintext is longer than one nonce can cover.
pub open spec fn refused(plaintext: Seq<u8>, params: KdfParams) -> Option<Error> {
    if !params.valid() {
        Some(Error::KeyDerivation)
    } else if plaintext.len() > MAX_DATA_LEN {
        Some(Error::TooLong)
    } else {
        None
    }
}

/// `container` is what encrypting `plaintext` under `password` gives for the
/// salt and the nonce that it holds.
pub open spec fn is_encryption_of(
    container: EncryptedView,
    plaintext: Seq<u8>,
    password: Seq<u8>,
    params: KdfParams,
) -> bool {
    &&& plaintext.len() <= MAX_DATA_LEN
    &&& container.salt.len() == SALT_LEN
    &&& container.nonce.len() == NONCE_LEN
    &&& (container.ciphertext, container.tag) == sealed(
        derived_key(password, container.salt, params),
        container.nonce,
        plaintext,
    )
}

/// What decrypting `container` under `password` gives. A salt, a nonce or a
/// tag of the wrong length cannot come from an encryption, nor can a
/// ciphertext that is longer than one nonce can cover: all of them count as
/// tampering.
pub open spec fn decrypted(
    container: EncryptedView,
    password: Seq<u8>,
    params: KdfParams,
) -> Result<Seq<u8>, Error> {
    if !params.valid() {
        Err(Error::KeyDerivation)
    } else if container.salt.len() != SALT_LEN || container.nonce.len() != NONCE_LEN {
        Err(Error::AuthenticationFailed)
    } else {
        match opened(
            derived_key(password, container.salt, params),
            container.nonce,
            container.ciphertext,
            container.tag,
        ) {
            Some(plaintext) => Ok(plaintext),
            None => Err(Error::AuthenticationFailed),
        }
    }
}

/// A password that opens a container which was encrypted under another one
/// has met a collision: under the key derived from it, the ciphertext has the
/// very tag that it has under the key of the right password. That this does
/// not happen is what is expected of the key derivation and of the tag; it is
/// not proved here.
pub proof fn lemma_other_password_needs_collision(
    container: EncryptedView,
    plaintext: Seq<u8>,
    password: Seq<u8>,
    other: Seq<u8>,
    params: KdfParams,
)
    requires
        is_encryption_of(container, plaintext, password, params),
        decrypted(container, other, params) is Ok,
    ensures
        poly1305_tag(
            derived_key(other, container.salt, params),
            container.nonce,
            container.ciphertext,
        ) == poly1305_tag(
            derived_key(password, container.salt, params),
            container.nonce,
            container.ciphertext,
        ),
{
}

/// Two encryptions of one plaintext under one password hold the salt and the
/// nonce that each was given, so they differ there wherever the draws do.
/// Where their ciphertexts are nevertheless the same, the key stream has met
/// a collision: under the two keys and nonces it turns the plaintext into the
/// same bytes. That this does not happen is what is expected of the cipher;
/// it is not proved here.
pub proof fn lemma_equal_ciphertexts_need_collision(
    first: EncryptedView,
    second: EncryptedView,
    plaintext: Seq<u8>,
    password: Seq<u8>,
    params: KdfParams,
)
    requires
        is_encryption_of(first, plaintext, password, params),
        is_encryption_of(second, plaintext, password, params),
        first.ciphertext == second.ciphertext,
    ensures
        chacha20_applied(derived_key(password, first.salt, params), first.nonce, plaintext)
            == chacha20_applied(
            derived_key(password, second.salt, params),
            second.nonce,
            plaintext,
        ),
{
}

/// A container whose salt, nonce or tag has not the length of the format
/// opens under no password.
pub proof fn lemma_wrong_lengths_are_rejected(
    container: EncryptedView,
    password: Seq<u8>,
    params: KdfParams,
)
    requires
        params.valid(),
        !container.well_formed(),
    ensures
        decrypted(container, password, params) == Err::<Seq<u8>, Error>(
            Error::AuthenticationFailed,
        ),
{
}

/// A container whose tag was changed, in one bit or in many, does not open
/// under the password that it was encrypted under.
pub proof fn lemma_changed_tag_is_rejected(
    container: EncryptedView,
    plaintext: Seq<u8>,
    password: Seq<u8>,
    params: KdfParams,
    tag: Seq<u8>,
)
    requires
        is_encryption_of(container, plaintext, password, params),
        params.valid(),
        tag != container.tag,
    ensures
        decrypted(EncryptedView { tag, ..container }, password, params) == Err::<Seq<u8>, Error>(
            Error::AuthenticationFailed,
        ),
{
}

/// Calls `rand::thread_rng` and fills a buffer of `len` bytes from it with
/// `RngCore::fill_bytes`. Nothing is known of the bytes but their number.
///
/// Where the system's random source cannot seed the generator, the call
/// panics. No argument decides this, so no `requires` can leave it out.
#[verifier::external_body]
fn random_bytes(len: usize) -> (bytes: Vec<u8>)
    requires
        len <= isize::MAX,
    ensures
        bytes@.len() == len,
{
    let mut bytes = vec![0u8; len];
    ::rand::thread_rng().fill_bytes(&mut bytes);
    bytes
}

/// Encrypts `plaintext` under `password` with the salt and the nonce given.
///
/// The caller answers for `salt` and `nonce` being fresh: a nonce must never
/// serve twice under one key. The failures are a work factor that is not
/// valid, which is [`Error::KeyDerivation`], and a plaintext of more than
/// [`MAX_DATA_LEN`] bytes, which is [`Error::TooLong`].
pub fn encrypt_with(
    plaintext: &[u8],
    password: &str,
    salt: Vec<u8>,
    nonce: Vec<u8>,
    params: &KdfParams,
) -> (container: Result<Encrypted, Error>)
    requires
        salt@.len() == SALT_LEN,
        nonce@.len() == NONCE_LEN,
    ensures
        match container {
            Ok(c) => {
                &&& refused(plaintext@, *params) is None
                &&& c.salt@ == salt@
                &&& c.nonce@ == nonce@
                &&& c@.well_formed()
                &&& c.ciphertext@.len() == plaintext@.len()
                &&& is_encryption_of(c@, plaintext@, password.spec_bytes(), *params)
                &&& decrypted(c@, password.spec_bytes(), *params) == Ok::<Seq<u8>, Error>(
                    plaintext@,
                )
            },
            Err(e) => refused(plaintext@, *params) == Some(e),
        },
{
    if !params.is_valid() {
        return Err(Error::KeyDerivation);
    }
    if !fits_one_nonce(plaintext.len()) {
        return Err(Error::TooLong);
    }
    let mut key = match derive_key(password.as_bytes(), salt.as_slice(), params) {
        Ok(key) => key,
        Err(e) => {
            return Err(e);
        },
    };
    let sealed = seal(plaintext, key.as_slice(), nonce.as_slice());
    scrub(&mut key);
    match sealed {
        Ok((ciphertext, tag)) => Ok(Encrypted { salt, nonce, ciphertext, tag }),
        Err(e) => Err(e),
    }
}

/// Decrypts `encrypted` under `password` and the work factor given.
///
/// The tag is checked before anything is handed out. A wrong password and a
/// changed container fail alike, with [`Error::AuthenticationFailed`], and so
/// does every container whose salt, nonce or tag has not the length of the
/// format.
pub fn decrypt_under(encrypted: &Encrypted, password: &str, params: &KdfParams) -> (plaintext:
    Result<Vec<u8>, Error>)
    ensures
        match plaintext {
            Ok(bytes) => decrypted(encrypted@, password.spec_bytes(), *params) == Ok::<
                Seq<u8>,
                Error,
            >(bytes@) && bytes@.len() == encrypted.ciphertext@.len()
                && encrypted@.well_formed(),
            Err(e) => decrypted(encrypted@, password.spec_bytes(), *params) == Err::<
                Seq<u8>,
                Error,
            >(e),
        },
{
    if !params.is_valid() {
        return Err(Error::KeyDerivation);
    }
    if encrypted.salt.len() != SALT_LEN || encrypted.nonce.len() != NONCE_LEN {
        return Err(Error::AuthenticationFailed);
    }
    let mut key = match derive_key(password.as_bytes(), encrypted.salt.as_slice(), params) {
        Ok(key) => key,
        Err(e) => {
            return Err(e);
        },
    };
    let plaintext = open(
        encrypted.ciphertext.as_slice(),
        key.as_slice(),
        encrypted.nonce.as_slice(),
        encrypted.tag.as_slice(),
    );
    scrub(&mut key);
    plaintext
}

/// Encrypts `plaintext` under `password` and the work factor given into a
/// new container, with a salt and a nonce drawn at random for this one call.
///
/// The failures are a work factor that is not valid and a plaintext of more
/// than [`MAX_DATA_LEN`] bytes. Decrypting the container under the same
/// password and work factor gives the plaintext back.
pub fn encrypt_under(plaintext: &[u8], password: &str, params: &KdfParams) -> (container: Result<
    Encrypted,
    Error,
>)
    ensures
        match container {
            Ok(c) => {
                &&& refused(plaintext@, *params) is None
                &&& c@.well_formed()
                &&& c.ciphertext@.len() == plaintext@.len()
                &&& is_encryption_of(c@, plaintext@, password.spec_bytes(), *params)
                &&& decrypted(c@, password.spec_bytes(), *params) == Ok::<Seq<u8>, Error>(
                    plaintext@,
                )
            },
            Err(e) => refused(plaintext@, *params) == Some(e),
        },
{
    let salt = random_bytes(SALT_LEN);
    let nonce = random_bytes(NONCE_LEN);
    encrypt_with(plaintext, password, salt, nonce, params)
}

/// Encrypts `plaintext` under `password` into a new container, with a salt
/// and a nonce drawn at random for this one call and the work factor of the
/// vault format.
///
/// It succeeds on every plaintext of at most [`MAX_DATA_LEN`] bytes; a longer
/// one is [`Error::TooLong`]. Decrypting the container under the same
/// password gives the plaintext back.
pub fn encrypt(plaintext: &[u8], password: &str) -> (container: Result<Encrypted, Error>)
    ensures
        match container {
            Ok(c) => {
                &&& plaintext@.len() <= MAX_DATA_LEN
                &&& c@.well_formed()
                &&& c.ciphertext@.len() == plaintext@.len()
                &&& is_encryption_of(
                    c@,
                    plaintext@,
                    password.spec_bytes(),
                    KdfParams::standard_spec(),
                )
                &&& decrypted(c@, password.spec_bytes(), KdfParams::standard_spec()) == Ok::<
                    Seq<u8>,
                    Error,
                >(plaintext@)
            },
            Err(e) => plaintext@.len() > MAX_DATA_LEN && e == Error::TooLong,
        },
{
    let params = KdfParams::standard();
    encrypt_under(plaintext, password, &params)
}

/// Decrypts a container under `password` and the work factor of the vault
/// format.
///
/// It succeeds exactly where salt, nonce and tag have their lengths, the
/// ciphertext is not longer than one nonce can cover, and the tag is the one
/// that belongs to the ciphertext under the key derived from `password` and
/// the container's salt. Every other case is
/// [`Error::AuthenticationFailed`], and no plaintext is returned.
pub fn decrypt(encrypted: Encrypted, password: &str) -> (plaintext: Result<Vec<u8>, Error>)
    ensures
        match plaintext {
            Ok(bytes) => decrypted(encrypted@, password.spec_bytes(), KdfParams::standard_spec())
                == Ok::<Seq<u8>, Error>(bytes@) && bytes@.len() == encrypted.ciphertext@.len()
                && encrypted@.well_formed(),
            Err(e) => decrypted(encrypted@, password.spec_bytes(), KdfParams::standard_spec())
                == Err::<Seq<u8>, Error>(e) && e == Error::AuthenticationFailed,
        },
{
    let params = KdfParams::standard();
    decrypt_under(&encrypted, password, &params)
}

} // verus!
