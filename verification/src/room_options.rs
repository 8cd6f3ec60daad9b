//! The options that a LiveKit room is joined with, as far as they decide how media is encrypted.

use vstd::prelude::*;

verus! {

/// How media is encrypted.
#[derive(Debug, Clone, Copy, PartialEq, Eq, Structural)]
pub enum EncryptionType {
    Unencrypted,
    Gcm,
    Custom,
}

/// Encryption of media under the keys of a provider.
pub struct E2eeOptions<P> {
    pub encryption_type: EncryptionType,
    pub key_provider: P,
}

impl<P: Clone> Clone for E2eeOptions<P> {
    fn clone(&self) -> (copy: Self)
        ensures
            copy.encryption_type == self.encryption_type,
            cloned::<P>(self.key_provider, copy.key_provider),
    {
        E2eeOptions {
            encryption_type: self.encryption_type,
            key_provider: self.key_provider.clone(),
        }
    }
}

/// The options of a room that decide how media is encrypted. `e2ee` is the older of the two and
/// counts only where `encryption` is absent.
pub struct RoomOptions<P> {
    pub encryption: Option<E2eeOptions<P>>,
    pub e2ee: Option<E2eeOptions<P>>,
}

/// Provides LiveKit room options.
pub trait LiveKitRoomOptionsProvider {
    /// The key provider that media is encrypted under.
    type KeyProvider;

    /// The provider can be asked.
    spec fn is_ready(&self) -> bool;

    /// The provider may answer with `options`.
    spec fn provides(&self, options: RoomOptions<Self::KeyProvider>) -> bool;

    /// Create the LiveKit room options used when connecting to LiveKit.
    fn room_options(&self) -> (options: RoomOptions<Self::KeyProvider>)
        requires
            self.is_ready(),
        ensures
            self.provides(options),
    ;
}

/// A function that makes room options provides them.
impl<P, F> LiveKitRoomOptionsProvider for F where F: Fn() -> RoomOptions<P> {
    type KeyProvider = P;

    open spec fn is_ready(&self) -> bool {
        call_requires(*self, ())
    }

    open spec fn provides(&self, options: RoomOptions<P>) -> bool {
        call_ensures(*self, (), options)
    }

    fn room_options(&self) -> (options: RoomOptions<P>) {
        self()
    }
}

impl<P: Clone> RoomOptions<P> {
    /// `chosen` are these options with the older encryption setting in place of a missing newer
    /// one.
    pub open spec fn resolves_to(self, chosen: RoomOptions<P>) -> bool {
        &&& chosen.e2ee == self.e2ee
        &&& match (self.encryption, self.e2ee) {
            (Some(_), _) => chosen.encryption == self.encryption,
            (None, None) => chosen.encryption is None,
            (None, Some(older)) => {
                &&& chosen.encryption is Some
                &&& chosen.encryption->0.encryption_type == older.encryption_type
                &&& cloned::<P>(older.key_provider, chosen.encryption->0.key_provider)
            },
        }
    }

    /// Settles how media is encrypted: as `encryption` says, or else as `e2ee` says.
    pub fn resolve_encryption(self) -> (chosen: RoomOptions<P>)
        ensures
            self.resolves_to(chosen),
            chosen.encryption is Some <==> self.encryption is Some || self.e2ee is Some,
            self.encryption is Some ==> chosen.encryption == self.encryption,
            self.encryption is None && self.e2ee is Some ==> chosen.encryption->0.encryption_type
                == self.e2ee->0.encryption_type,
    {
        let mut chosen = self;
        if chosen.encryption.is_none() {
            if let Some(older) = &chosen.e2ee {
                chosen.encryption = Some(older.clone());
            }
        }
        chosen
    }
}

/// Media is encrypted where either setting asks for it, and in the way that setting asks for: the
/// newer one as it is, and the older one, whatever its type, only in the absence of the newer.
pub proof fn law_either_setting_encrypts<P: Clone>(provided: RoomOptions<P>, chosen: RoomOptions<P>)
    requires
        provided.resolves_to(chosen),
    ensures
        chosen.encryption is Some <==> provided.encryption is Some || provided.e2ee is Some,
        provided.encryption is Some ==> chosen.encryption == provided.encryption,
        provided.encryption is None && provided.e2ee is Some
            ==> chosen.encryption->0.encryption_type == provided.e2ee->0.encryption_type
            && cloned::<P>(
            provided.e2ee->0.key_provider,
            chosen.encryption->0.key_provider,
        ),
        chosen.e2ee == provided.e2ee,
{
}

/// To settle the encryption a second time changes nothing.
pub proof fn law_settled_encryption_stays<P: Clone>(
    provided: RoomOptions<P>,
    chosen: RoomOptions<P>,
    again: RoomOptions<P>,
)
    requires
        provided.resolves_to(chosen),
        chosen.resolves_to(again),
    ensures
        again.encryption == chosen.encryption,
        again.e2ee == chosen.e2ee,
{
}

/// Settling the encryption keeps it wherever either setting asks for it: with the newer setting as it
/// is, or with the type and a clone of the key provider of the older one.
pub proof fn law_settling_keeps_encryption<P: Clone>(
    provided: RoomOptions<P>,
    chosen: RoomOptions<P>,
)
    requires
        call_ensures(RoomOptions::<P>::resolve_encryption, (provided,), chosen),
    ensures
        chosen.encryption is Some <==> provided.encryption is Some || provided.e2ee is Some,
        provided.encryption is Some ==> chosen.encryption == provided.encryption,
        provided.encryption is None && provided.e2ee is Some
            ==> chosen.encryption->0.encryption_type == provided.e2ee->0.encryption_type
            && cloned::<P>(
            provided.e2ee->0.key_provider,
            chosen.encryption->0.key_provider,
        ),
        chosen.e2ee == provided.e2ee,
{
}

} // verus!
