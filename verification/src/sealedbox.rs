//! Sealed boxes: authenticated encryption to the holder of a private key.
//!
//! A key exchange gives the sender a message and a shared secret; the secret
//! is the cipher's key. The receiver derives the same secret from the message
//! and the private key. A box carries the exchange's message in front of the
//! sealed data, and the message is also the associated data, so that sealed
//! data cannot be moved from one exchange to another.

use core::marker::PhantomData;
use vstd::prelude::*;
use vstd::slice::slice_to_vec;

use crate::aead::online::Online;
use crate::aead::{open_outcome, plain_of, round_trips, seal_outcome, AeadCipher};
use crate::kex::{exchange_agrees, CheckedExchange, KeyExchange};
use crate::seqs::{concat, copy_range};
use crate::utils::bytes::wipe;
use crate::utils::nonce::SystemRng;
use crate::{Error, Packing};

verus! {

/// Sealed boxes over the key exchange `KEX` and the authenticated cipher `AE`,
/// whose key must be as long as the exchange's shared secret.
pub struct SealedBox<KEX, AE>(PhantomData<(KEX, AE)>);

/// The sending side of an exchange: a cipher under the shared secret.
pub struct Sealing<AE: AeadCipher>(AE);

/// The receiving side of an exchange: a cipher under the shared secret.
pub struct Opening<AE: AeadCipher>(AE);

/// The box that holds `data`: the exchange's message, then what the cipher
/// seals under `key` with the message as associated data.
pub open spec fn sealed_box<AE: AeadCipher>(
    key: Seq<u8>,
    message: Seq<u8>,
    nonce: Seq<u8>,
    data: Seq<u8>,
) -> Seq<u8> {
    message + AE::sealed(key, nonce, message, data)
}

/// What opening a box gives to the holder of the private key `sk`: a length
/// error where the nonce has the wrong length or the box is shorter than a
/// message and a tag, a failed verification where what follows the message
/// does not verify under the secret that the message shares, else the
/// plaintext.
pub open spec fn opened_box<KEX: KeyExchange, AE: AeadCipher>(
    sk: Seq<u8>,
    nonce: Seq<u8>,
    data: Seq<u8>,
) -> Result<Seq<u8>, Error> {
    let message_length = <KEX::Message as Packing>::BYTES_LENGTH as nat;
    if nonce.len() != AE::NONCE_LENGTH || data.len() < message_length + AE::TAG_LENGTH {
        Err(Error::Length)
    } else {
        let message = data.subrange(0, message_length as int);
        let rest = data.subrange(message_length as int, data.len() as int);
        match AE::opened(KEX::shared(sk, message), nonce, message, rest) {
            Some(plain) => Ok(plain),
            None => Err(Error::VerificationFailed),
        }
    }
}

/// Whether `sealed` is a box that holds `data` for the holder of the public
/// key `pk`: as long as a message, the data and a tag together, and made of
/// its own first bytes as the message and of what the cipher seals under the
/// secret that the exchange made together with that message.
pub open spec fn is_sealed_box<KEX: KeyExchange, AE: AeadCipher>(
    pk: Seq<u8>,
    sealed: Seq<u8>,
    nonce: Seq<u8>,
    data: Seq<u8>,
) -> bool {
    let message_length = <KEX::Message as Packing>::BYTES_LENGTH as int;
    &&& sealed.len() == message_length + data.len() + AE::TAG_LENGTH
    &&& exists|key: Seq<u8>|
        {
            &&& key.len() == AE::KEY_LENGTH
            &&& KEX::exchanged(pk, sealed.subrange(0, message_length), key)
            &&& sealed == #[trigger] sealed_box::<AE>(
                key,
                sealed.subrange(0, message_length),
                nonce,
                data,
            )
        }
}

/// The encoding of a message, copied out.
fn bytes_of<P: Packing>(value: &P) -> (out: Vec<u8>)
    ensures
        out@ == value.bytes(),
{
    let copy = |bytes: &[u8]| -> (out: Vec<u8>)
        ensures
            out@ == bytes@,
        { slice_to_vec(bytes) };
    value.read_bytes(copy)
}

impl<KEX: KeyExchange, AE: AeadCipher> SealedBox<KEX, AE> {
    /// Whether the exchange and the cipher fit together.
    pub open spec fn fits() -> bool {
        AE::supported() && KEX::SHARED_LENGTH == AE::KEY_LENGTH
    }

    /// Starts an exchange with the holder of `pk`: the message for them, and
    /// the sending side, whose key is the secret that the exchange made
    /// together with the message.
    pub fn send(r: &mut SystemRng, pk: &KEX::PublicKey) -> (out: (KEX::Message, Sealing<AE>))
        requires
            Self::fits(),
        ensures
            out.1.valid(),
            out.1.key().len() == AE::KEY_LENGTH,
            KEX::exchanged(pk.bytes(), out.0.bytes(), out.1.key()),
    {
        let mut sharedkey = vec![0u8; KEX::SHARED_LENGTH];
        let m = KEX::exchange_to(r, sharedkey.as_mut_slice(), pk);
        (m, Sealing::under(sharedkey))
    }

    /// The receiving side of the exchange that `m` started.
    pub fn recv(sk: &KEX::PrivateKey, m: &KEX::Message) -> (opening: Opening<AE>)
        requires
            Self::fits(),
        ensures
            opening.valid(),
            opening.key() == KEX::shared(sk.bytes(), m.bytes()),
    {
        let mut sharedkey = vec![0u8; KEX::SHARED_LENGTH];
        KEX::exchange_from(sharedkey.as_mut_slice(), sk, m);
        proof {
            KEX::shared_has_length(sk.bytes(), m.bytes());
        }
        Opening::under(sharedkey)
    }

    /// Seals `data` in a box that carries `message`, the message of the
    /// exchange that `sealing` is the sending side of.
    pub fn seal_under(sealing: &Sealing<AE>, message: &[u8], nonce: &[u8], data: &[u8]) -> (out:
        Result<Vec<u8>, Error>)
        requires
            sealing.valid(),
            data@.len() + AE::TAG_LENGTH <= usize::MAX,
        ensures
            out is Ok <==> nonce@.len() == AE::NONCE_LENGTH,
            out matches Err(e) ==> e == Error::Length,
            out matches Ok(sealed) ==> sealed@ == sealed_box::<AE>(
                sealing.key(),
                message@,
                nonce@,
                data@,
            ),
    {
        let sealed_length = data.len() + AE::TAG_LENGTH;
        let mut sealed = vec![0u8; sealed_length];
        match sealing.seal(nonce, message, data, sealed.as_mut_slice()) {
            Ok(()) => Ok(concat(message, sealed.as_slice())),
            Err(e) => Err(e),
        }
    }

    /// Seals `data` in a box for the holder of `pk`.
    pub fn seal(r: &mut SystemRng, pk: &KEX::PublicKey, nonce: &[u8], data: &[u8]) -> (out: Result<
        Vec<u8>,
        Error,
    >)
        requires
            Self::fits(),
            data@.len() + AE::TAG_LENGTH <= usize::MAX,
        ensures
            out is Ok <==> nonce@.len() == AE::NONCE_LENGTH,
            out matches Err(e) ==> e == Error::Length,
            out matches Ok(sealed) ==> is_sealed_box::<KEX, AE>(
                pk.bytes(),
                sealed@,
                nonce@,
                data@,
            ),
    {
        let (m, sealing) = Self::send(r, pk);
        let message = bytes_of(&m);
        match Self::seal_under(&sealing, message.as_slice(), nonce, data) {
            Ok(out) => {
                proof {
                    m.bytes_have_length();
                    AE::sealed_has_length(sealing.key(), nonce@, message@, data@);
                    let message_length = <KEX::Message as Packing>::BYTES_LENGTH as int;
                    assert(message@.len() == message_length);
                    assert(out@.subrange(0, message_length) =~= message@);
                    assert(out@ == sealed_box::<AE>(
                        sealing.key(),
                        out@.subrange(0, message_length),
                        nonce@,
                        data@,
                    ));
                    assert(is_sealed_box::<KEX, AE>(pk.bytes(), out@, nonce@, data@));
                }
                Ok(out)
            },
            Err(e) => Err(e),
        }
    }

    /// Opens a box with the private key `sk`.
    pub fn open(sk: &KEX::PrivateKey, nonce: &[u8], data: &[u8]) -> (r: Result<Vec<u8>, Error>)
        requires
            Self::fits(),
        ensures
            plain_of(r) == opened_box::<KEX, AE>(sk.bytes(), nonce@, data@),
    {
        let message_length = <KEX::Message as Packing>::BYTES_LENGTH;
        if nonce.len() != AE::NONCE_LENGTH || data.len() < message_length || data.len()
            - message_length < AE::TAG_LENGTH {
            return Err(Error::Length);
        }
        let message = copy_range(data, 0, message_length);
        let rest = copy_range(data, message_length, data.len());
        let m = <KEX::Message as Packing>::from_bytes(message.as_slice());
        let opening = Self::recv(sk, &m);
        let plain_length = rest.len() - AE::TAG_LENGTH;
        let mut plain = vec![0u8; plain_length];
        match opening.open(nonce, message.as_slice(), rest.as_slice(), plain.as_mut_slice()) {
            Ok(()) => Ok(plain),
            Err(e) => Err(e),
        }
    }
}

impl<KEX: CheckedExchange, AE: AeadCipher> SealedBox<KEX, AE> {
    /// The receiving side of the exchange that `m` started, where `m`
    /// verifies under `sk`.
    pub fn checked_recv(sk: &KEX::PrivateKey, m: &KEX::Message) -> (r: Result<Opening<AE>, Error>)
        requires
            Self::fits(),
        ensures
            r is Ok <==> KEX::accepted(sk.bytes(), m.bytes()),
            r matches Err(e) ==> e == Error::VerificationFailed,
            r matches Ok(opening) ==> opening.valid() && opening.key() == KEX::shared(
                sk.bytes(),
                m.bytes(),
            ),
    {
        let mut sharedkey = vec![0u8; KEX::SHARED_LENGTH];
        match KEX::checked_exchange_from(sharedkey.as_mut_slice(), sk, m) {
            Ok(()) => Ok(Opening::under(sharedkey)),
            Err(e) => {
                wipe(&mut sharedkey);
                Err(e)
            },
        }
    }
}

impl<AE: AeadCipher> Sealing<AE> {
    /// Whether the cipher can seal.
    pub closed spec fn valid(&self) -> bool {
        self.0.valid()
    }

    /// The shared secret.
    pub closed spec fn key(&self) -> Seq<u8> {
        self.0.key()
    }

    /// The sending side under the shared secret `sharedkey`, whose buffer is
    /// wiped once the cipher has it.
    pub fn under(mut sharedkey: Vec<u8>) -> (sealing: Sealing<AE>)
        requires
            AE::supported(),
            sharedkey@.len() == AE::KEY_LENGTH,
        ensures
            sealing.valid(),
            sealing.key() == sharedkey@,
    {
        let cipher = AE::new(sharedkey.as_slice());
        wipe(&mut sharedkey);
        Sealing(cipher)
    }

    /// Seals `input` into `output`, which must be longer than `input` by the
    /// tag's length.
    #[inline]
    pub fn seal(&self, nonce: &[u8], aad: &[u8], input: &[u8], output: &mut [u8]) -> (r: Result<
        (),
        Error,
    >)
        requires
            self.valid(),
        ensures
            (r, final(output)@) == seal_outcome(
                nonce@.len() == AE::NONCE_LENGTH,
                AE::TAG_LENGTH as nat,
                input@.len(),
                old(output)@,
                AE::sealed(self.key(), nonce@, aad@, input@),
            ),
    {
        self.0.seal(nonce, aad, input, output)
    }
}

impl<'a, AE: AeadCipher + Online<'a>> Sealing<AE> {
    /// A process that encrypts one message piece by piece.
    #[inline]
    pub fn encrypt(&'a self, nonce: &[u8], aad: &[u8]) -> (process: AE::Encryption)
        requires
            self.valid(),
            nonce@.len() == AE::NONCE_LENGTH,
        ensures
            crate::aead::online::Encryption::valid(&process),
            crate::aead::online::Encryption::consumed(&process) == Seq::<u8>::empty(),
            crate::aead::online::Encryption::session(&process) == (crate::aead::online::Session {
                key: self.key(),
                nonce: nonce@,
                aad: aad@,
            }),
    {
        self.0.encrypt(nonce, aad)
    }
}

impl<AE: AeadCipher> Opening<AE> {
    /// Whether the cipher can open.
    pub closed spec fn valid(&self) -> bool {
        self.0.valid()
    }

    /// The shared secret.
    pub closed spec fn key(&self) -> Seq<u8> {
        self.0.key()
    }

    /// The receiving side under the shared secret `sharedkey`, whose buffer
    /// is wiped once the cipher has it.
    pub fn under(mut sharedkey: Vec<u8>) -> (opening: Opening<AE>)
        requires
            AE::supported(),
            sharedkey@.len() == AE::KEY_LENGTH,
        ensures
            opening.valid(),
            opening.key() == sharedkey@,
    {
        let cipher = AE::new(sharedkey.as_slice());
        wipe(&mut sharedkey);
        Opening(cipher)
    }

    /// Opens `input` into `output`, which must be shorter than `input` by the
    /// tag's length.
    #[inline]
    pub fn open(&self, nonce: &[u8], aad: &[u8], input: &[u8], output: &mut [u8]) -> (r: Result<
        (),
        Error,
    >)
        requires
            self.valid(),
        ensures
            (r, final(output)@) == open_outcome(
                nonce@.len() == AE::NONCE_LENGTH,
                AE::TAG_LENGTH as nat,
                input@.len(),
                old(output)@,
                AE::opened(self.key(), nonce@, aad@, input@),
            ),
    {
        self.0.open(nonce, aad, input, output)
    }
}

impl<'a, AE: AeadCipher + Online<'a>> Opening<AE> {
    /// A process that decrypts one message piece by piece.
    #[inline]
    pub fn decrypt(&'a self, nonce: &[u8], aad: &[u8]) -> (process: AE::Decryption)
        requires
            self.valid(),
            nonce@.len() == AE::NONCE_LENGTH,
        ensures
            crate::aead::online::Decryption::valid(&process),
            crate::aead::online::Decryption::consumed(&process) == Seq::<u8>::empty(),
            crate::aead::online::Decryption::session(&process) == (crate::aead::online::Session {
                key: self.key(),
                nonce: nonce@,
                aad: aad@,
            }),
    {
        self.0.decrypt(nonce, aad)
    }
}

/// A box opens again where the receiver derives the sender's secret: if the
/// message shares `key` with the holder of `sk`, then what was sealed under
/// `key` opens with `sk` and gives back what was put in, wherever the cipher
/// opens what it has sealed.
pub proof fn sealed_box_round_trip<KEX: KeyExchange, AE: AeadCipher>(
    sk: Seq<u8>,
    key: Seq<u8>,
    message: Seq<u8>,
    nonce: Seq<u8>,
    data: Seq<u8>,
)
    requires
        round_trips::<AE>(),
        nonce.len() == AE::NONCE_LENGTH,
        message.len() == <KEX::Message as Packing>::BYTES_LENGTH,
        KEX::shared(sk, message) == key,
    ensures
        opened_box::<KEX, AE>(sk, nonce, sealed_box::<AE>(key, message, nonce, data)) == Ok::<
            Seq<u8>,
            Error,
        >(data),
{
    let sealed = AE::sealed(key, nonce, message, data);
    let whole = message + sealed;
    AE::sealed_has_length(key, nonce, message, data);
    assert(whole.subrange(0, message.len() as int) =~= message);
    assert(whole.subrange(message.len() as int, whole.len() as int) =~= sealed);
    assert(AE::opened(key, nonce, message, AE::sealed(key, nonce, message, data)) == Some(data));
}

/// A box that was sealed for a public key opens with the private key that
/// belongs to it, and gives back what was put in, wherever the exchange
/// agrees and the cipher opens what it has sealed.
pub proof fn sealed_box_opens<KEX: KeyExchange, AE: AeadCipher>(
    sk: Seq<u8>,
    pk: Seq<u8>,
    sealed: Seq<u8>,
    nonce: Seq<u8>,
    data: Seq<u8>,
)
    requires
        exchange_agrees::<KEX>(),
        round_trips::<AE>(),
        KEX::paired(sk, pk),
        nonce.len() == AE::NONCE_LENGTH,
        is_sealed_box::<KEX, AE>(pk, sealed, nonce, data),
    ensures
        opened_box::<KEX, AE>(sk, nonce, sealed) == Ok::<Seq<u8>, Error>(data),
{
    let message_length = <KEX::Message as Packing>::BYTES_LENGTH as int;
    let message = sealed.subrange(0, message_length);
    let key = choose|key: Seq<u8>|
        {
            &&& key.len() == AE::KEY_LENGTH
            &&& KEX::exchanged(pk, message, key)
            &&& sealed == #[trigger] sealed_box::<AE>(key, message, nonce, data)
        };
    assert(KEX::shared(sk, message) == key);
    sealed_box_round_trip::<KEX, AE>(sk, key, message, nonce, data);
}

} // verus!
