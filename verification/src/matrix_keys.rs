//! Matrix key material for LiveKit E2EE integrations.
//!
//! The crypto machine and the error of its store are type parameters.

use crate::text;
use vstd::prelude::*;

verus! {

/// Errors returned while exporting Matrix key material.
#[derive(Debug)]
pub enum MatrixKeyMaterialError<E> {
    /// The Matrix SDK crypto machine is not initialized.
    NoOlmMachine,
    /// The crypto store returned an error while exporting keys.
    CryptoStore(E),
}

/// Matrix key material provider backed by a crypto machine.
#[derive(Debug, Clone)]
pub struct OlmMachineKeyMaterialProvider<M> {
    olm_machine: M,
}

impl<M> OlmMachineKeyMaterialProvider<M> {
    /// The crypto machine.
    pub closed spec fn spec_olm_machine(self) -> M {
        self.olm_machine
    }

    /// Create a provider from an initialized crypto machine.
    pub fn new(olm_machine: M) -> (provider: Self)
        ensures
            provider.spec_olm_machine() == olm_machine,
    {
        OlmMachineKeyMaterialProvider { olm_machine }
    }

    /// The crypto machine that keys are exported from.
    pub fn olm_machine(&self) -> (olm_machine: &M)
        ensures
            *olm_machine == self.spec_olm_machine(),
    {
        &self.olm_machine
    }
}

/// Whether the keys of a session are exported for `room_id`: those of the room's own sessions are.
pub fn exports_session(session_room_id: &str, room_id: &str) -> (exported: bool)
    ensures
        exported == (session_room_id@ == room_id@),
{
    text::same_text(session_room_id, room_id)
}

/// What an export from the crypto store comes to: the keys, or the error of the store.
pub fn export_room_keys<K, E>(exported: Result<K, E>) -> (result: Result<
    K,
    MatrixKeyMaterialError<E>,
>)
    ensures
        match exported {
            Ok(keys) => result == Ok::<K, MatrixKeyMaterialError<E>>(keys),
            Err(error) => result == Err::<K, MatrixKeyMaterialError<E>>(
                MatrixKeyMaterialError::CryptoStore(error),
            ),
        },
{
    match exported {
        Ok(keys) => Ok(keys),
        Err(error) => Err(MatrixKeyMaterialError::CryptoStore(error)),
    }
}

/// The current crypto machine of a room's client, if crypto is initialized.
pub fn room_olm_machine<M, E>(olm_machine: Option<M>) -> (result: Result<
    M,
    MatrixKeyMaterialError<E>,
>)
    ensures
        match olm_machine {
            Some(olm_machine) => result == Ok::<M, MatrixKeyMaterialError<E>>(olm_machine),
            None => result == Err::<M, MatrixKeyMaterialError<E>>(
                MatrixKeyMaterialError::NoOlmMachine,
            ),
        },
{
    match olm_machine {
        Some(olm_machine) => Ok(olm_machine),
        None => Err(MatrixKeyMaterialError::NoOlmMachine),
    }
}

/// Keys that were exported are handed on as they are, and so is the error of the store; without a
/// crypto machine there is none to hand out.
pub proof fn law_keys_and_errors_are_handed_on<K, M, E>(
    exported: Result<K, E>,
    keys: Result<K, MatrixKeyMaterialError<E>>,
    olm_machine: Option<M>,
    machine: Result<M, MatrixKeyMaterialError<E>>,
)
    requires
        call_ensures(export_room_keys::<K, E>, (exported,), keys),
        call_ensures(room_olm_machine::<M, E>, (olm_machine,), machine),
    ensures
        exported is Ok <==> keys is Ok,
        exported is Ok ==> keys->Ok_0 == exported->Ok_0,
        exported is Err ==> keys->Err_0 == MatrixKeyMaterialError::CryptoStore(exported->Err_0),
        olm_machine is Some <==> machine is Ok,
        olm_machine is Some ==> machine->Ok_0 == olm_machine->0,
        olm_machine is None ==> machine->Err_0 is NoOlmMachine,
{
}

/// The keys of a session are exported for one room only, its own.
pub proof fn law_sessions_are_of_one_room(
    session_room_id: &str,
    room_id: &str,
    other_room_id: &str,
    exported: bool,
    other_exported: bool,
)
    requires
        call_ensures(exports_session, (session_room_id, room_id), exported),
        call_ensures(exports_session, (session_room_id, other_room_id), other_exported),
    ensures
        room_id@ == session_room_id@ ==> exported,
        exported && other_exported ==> room_id@ == other_room_id@,
        exported ==> room_id@ == session_room_id@,
{
}

/// A provider hands out the crypto machine that it was made of.
pub proof fn law_provider_keeps_its_machine<M>(
    olm_machine: M,
    provider: OlmMachineKeyMaterialProvider<M>,
    found: &M,
)
    requires
        call_ensures(OlmMachineKeyMaterialProvider::<M>::new, (olm_machine,), provider),
        call_ensures(OlmMachineKeyMaterialProvider::<M>::olm_machine, (&provider,), found),
    ensures
        *found == olm_machine,
{
}

} // verus!
