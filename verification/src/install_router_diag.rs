//! Installs that are sent the way that they have to go, in the words of the
//! diagnostic interface.
//!
//! An install goes through the router; what the router does not support, the
//! engine does itself.

use crate::error::{BackendError, BackendFault, MachineError, MachineFault};
use vstd::prelude::*;

verus! {

/// What a refusal by the machine is answered with.
pub open spec fn machine_as_backend(e: MachineFault) -> BackendFault {
    match e {
        MachineFault::NotSupported(s) => BackendFault::NotSupported(s),
        MachineFault::NotFound(s) => BackendFault::EntityNotFound(s),
        MachineFault::InvalidArgument(s) => BackendFault::InvalidRequest(s),
        MachineFault::PolicyRejected(s) => BackendFault::InvalidRequest(s),
        MachineFault::Busy(s) => BackendFault::Busy(s),
        MachineFault::ManifestInvalid(s) => BackendFault::InvalidRequest(s),
        MachineFault::WrongTarget(s) => BackendFault::UnsupportedMediaType(s),
        MachineFault::UnknownFlashSession(s) => BackendFault::InvalidRequest(s),
        MachineFault::Storage(s) => BackendFault::Internal(s),
        MachineFault::Internal(s) => BackendFault::Internal(s),
    }
}

/// What a refusal by the machine is answered with.
pub fn map_machine_error(e: MachineError) -> (r: BackendError)
    ensures
        r@ == machine_as_backend(e@),
{
    match e {
        MachineError::NotSupported(s) => BackendError::NotSupported(s),
        MachineError::NotFound(s) => BackendError::EntityNotFound(s),
        MachineError::InvalidArgument(s) => BackendError::InvalidRequest(s),
        MachineError::PolicyRejected(s) => BackendError::InvalidRequest(s),
        MachineError::Busy(s) => BackendError::Busy(s),
        MachineError::ManifestInvalid(s) => BackendError::InvalidRequest(s),
        MachineError::WrongTarget(s) => BackendError::UnsupportedMediaType(s),
        MachineError::UnknownFlashSession(s) => BackendError::InvalidRequest(s),
        MachineError::Storage(s) => BackendError::Internal(s),
        MachineError::Internal(s) => BackendError::Internal(s),
    }
}

/// How a request goes on after the router was asked.
#[derive(Debug)]
pub enum Routed<T> {
    /// The router has answered.
    Answer(T),
    /// The engine is to be asked.
    Engine,
    Refused(BackendError),
}

/// How a request goes on after the router was asked.
pub open spec fn goes_on<T>(r: Result<T, MachineError>, on: Routed<T>) -> bool {
    match r {
        Ok(v) => on == Routed::Answer(v),
        Err(e) => match e@ {
            MachineFault::NotSupported(_) => on is Engine,
            why => match on {
                Routed::Refused(b) => b@ == machine_as_backend(why),
                _ => false,
            },
        },
    }
}

/// The answer to an upload.
pub open spec fn upload_ended(
    r: Result<String, MachineError>,
    on: Result<String, BackendError>,
) -> bool {
    match r {
        Ok(id) => on == Ok::<String, BackendError>(id),
        Err(e) => match on {
            Err(b) => b@ == (match e@ {
                MachineFault::NotSupported(_) => BackendFault::NotSupported(
                    "component does not support install pipeline"@,
                ),
                why => machine_as_backend(why),
            }),
            Ok(_) => false,
        },
    }
}

/// How a request for the state of an update goes on after the router was asked.
pub open spec fn state_asked<T>(r: Result<Option<T>, MachineError>, on: Routed<T>) -> bool {
    match r {
        Ok(Some(v)) => on == Routed::Answer(v),
        Ok(None) => on is Engine,
        Err(e) => goes_on(Err::<T, MachineError>(e), on),
    }
}

/// Sends installs through a router.
#[derive(Debug, Clone, Copy)]
pub struct InstallRouterDiag {}

impl InstallRouterDiag {
    /// A router in front of an engine.
    pub fn new() -> (r: InstallRouterDiag)
        ensures
            r == (InstallRouterDiag {  }),
    {
        InstallRouterDiag {  }
    }

    /// How a request goes on: what the router does not support is the engine's.
    pub fn route<T>(&self, r: Result<T, MachineError>) -> (on: Routed<T>)
        ensures
            goes_on(r, on),
    {
        match r {
            Ok(v) => Routed::Answer(v),
            Err(MachineError::NotSupported(_)) => Routed::Engine,
            Err(e) => Routed::Refused(map_machine_error(e)),
        }
    }

    /// How an upload ends: it cannot be handed to the engine once it was read, so
    /// a router that does not support it ends it.
    pub fn upload_via_install_pipeline(&self, r: Result<String, MachineError>) -> (on: Result<
        String,
        BackendError,
    >)
        ensures
            upload_ended(r, on),
    {
        match r {
            Ok(id) => Ok(id),
            Err(MachineError::NotSupported(_)) => Err(
                BackendError::NotSupported("component does not support install pipeline".to_owned()),
            ),
            Err(e) => Err(map_machine_error(e)),
        }
    }

    /// How a request for the state of an update goes on: a router that has nothing
    /// to say leaves it to the engine.
    pub fn get_activation_state<T>(&self, r: Result<Option<T>, MachineError>) -> (on: Routed<T>)
        ensures
            state_asked(r, on),
    {
        match r {
            Ok(Some(v)) => Routed::Answer(v),
            Ok(None) => Routed::Engine,
            Err(e) => self.route(Err(e)),
        }
    }
}

/// The engine is asked exactly when the router does not support a request; what the
/// router answers is the answer, and what it refuses otherwise is refused.
pub proof fn law_the_engine_does_what_the_router_does_not<T>(
    r: Result<T, MachineError>,
    on: Routed<T>,
)
    requires
        goes_on(r, on),
    ensures
        on is Engine <==> (r matches Err(e) && e@ is NotSupported),
        on is Answer <==> r is Ok,
        on matches Routed::Answer(v) ==> v == r->Ok_0,
        on is Refused <==> (r matches Err(e) && !(e@ is NotSupported)),
{
}

/// The engine is asked for the state of an update exactly when the router does not
/// support that or has nothing to say.
pub proof fn law_the_engine_knows_what_the_router_does_not<T>(
    r: Result<Option<T>, MachineError>,
    on: Routed<T>,
)
    requires
        state_asked(r, on),
    ensures
        on is Engine <==> (r matches Ok(said) && said is None) || (r matches Err(e) && e@
            is NotSupported),
        on is Answer <==> (r matches Ok(said) && said is Some),
        on matches Routed::Answer(v) ==> r->Ok_0 == Some(v),
        on is Refused <==> (r matches Err(e) && !(e@ is NotSupported)),
{
}

/// An upload is never handed to the engine: it ends with the router's answer, and is
/// refused where the router refuses it or does not support it.
pub proof fn law_an_upload_ends_at_the_router(
    r: Result<String, MachineError>,
    on: Result<String, BackendError>,
)
    requires
        upload_ended(r, on),
    ensures
        on is Ok <==> r is Ok,
        on matches Ok(id) ==> id == r->Ok_0,
        r matches Err(e) && e@ is NotSupported ==> (on matches Err(b) && b@ is NotSupported),
        r matches Err(e) && e@ is Busy ==> (on matches Err(b) && b@ is Busy),
{
}

/// What kind of refusal by the machine is which kind of refusal of a request.
pub proof fn law_kinds_of_machine_refusals(e: MachineFault)
    ensures
        machine_as_backend(e) is NotSupported <==> e is NotSupported,
        machine_as_backend(e) is EntityNotFound <==> e is NotFound,
        machine_as_backend(e) is InvalidRequest <==> e is InvalidArgument || e is PolicyRejected
            || e is ManifestInvalid || e is UnknownFlashSession,
        machine_as_backend(e) is Busy <==> e is Busy,
        machine_as_backend(e) is UnsupportedMediaType <==> e is WrongTarget,
        machine_as_backend(e) is Internal <==> e is Storage || e is Internal,
{
}

} // verus!
