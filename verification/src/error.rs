//! What can go wrong, in the words of the diagnostic interface and in those of
//! the machine interface.

use vstd::prelude::*;

verus! {

/// Why a diagnostic request was refused.
#[derive(Debug, Clone)]
pub enum BackendError {
    EntityNotFound(String),
    ParameterNotFound(String),
    OperationNotFound(String),
    OutputNotFound(String),
    SecurityRequired(u8),
    SessionRequired(String),
    NotSupported(String),
    InvalidRequest(String),
    Busy(String),
    Timeout,
    Protocol(String),
    Transport(String),
    Internal(String),
    RateLimited(String),
    EcuError { message: String, nrc: u8, sid: u8 },
    UpdateInProgress(String),
    UnsupportedMediaType(String),
}

/// What a refusal of a diagnostic request says.
pub enum BackendFault {
    EntityNotFound(Seq<char>),
    ParameterNotFound(Seq<char>),
    OperationNotFound(Seq<char>),
    OutputNotFound(Seq<char>),
    SecurityRequired(u8),
    SessionRequired(Seq<char>),
    NotSupported(Seq<char>),
    InvalidRequest(Seq<char>),
    Busy(Seq<char>),
    Timeout,
    Protocol(Seq<char>),
    Transport(Seq<char>),
    Internal(Seq<char>),
    RateLimited(Seq<char>),
    EcuError(Seq<char>, u8, u8),
    UpdateInProgress(Seq<char>),
    UnsupportedMediaType(Seq<char>),
}

impl View for BackendError {
    type V = BackendFault;

    open spec fn view(&self) -> BackendFault {
        match self {
            BackendError::EntityNotFound(s) => BackendFault::EntityNotFound(s@),
            BackendError::ParameterNotFound(s) => BackendFault::ParameterNotFound(s@),
            BackendError::OperationNotFound(s) => BackendFault::OperationNotFound(s@),
            BackendError::OutputNotFound(s) => BackendFault::OutputNotFound(s@),
            BackendError::SecurityRequired(l) => BackendFault::SecurityRequired(*l),
            BackendError::SessionRequired(s) => BackendFault::SessionRequired(s@),
            BackendError::NotSupported(s) => BackendFault::NotSupported(s@),
            BackendError::InvalidRequest(s) => BackendFault::InvalidRequest(s@),
            BackendError::Busy(s) => BackendFault::Busy(s@),
            BackendError::Timeout => BackendFault::Timeout,
            BackendError::Protocol(s) => BackendFault::Protocol(s@),
            BackendError::Transport(s) => BackendFault::Transport(s@),
            BackendError::Internal(s) => BackendFault::Internal(s@),
            BackendError::RateLimited(s) => BackendFault::RateLimited(s@),
            BackendError::EcuError { message, nrc, sid } => BackendFault::EcuError(
                message@,
                *nrc,
                *sid,
            ),
            BackendError::UpdateInProgress(s) => BackendFault::UpdateInProgress(s@),
            BackendError::UnsupportedMediaType(s) => BackendFault::UnsupportedMediaType(s@),
        }
    }
}

/// Why a request to the machine was refused.
#[derive(Debug, Clone)]
pub enum MachineError {
    NotSupported(String),
    NotFound(String),
    InvalidArgument(String),
    PolicyRejected(String),
    Busy(String),
    ManifestInvalid(String),
    WrongTarget(String),
    UnknownFlashSession(String),
    Storage(String),
    Internal(String),
}

/// What a refusal by the machine says.
pub enum MachineFault {
    NotSupported(Seq<char>),
    NotFound(Seq<char>),
    InvalidArgument(Seq<char>),
    PolicyRejected(Seq<char>),
    Busy(Seq<char>),
    ManifestInvalid(Seq<char>),
    WrongTarget(Seq<char>),
    UnknownFlashSession(Seq<char>),
    Storage(Seq<char>),
    Internal(Seq<char>),
}

impl View for MachineError {
    type V = MachineFault;

    open spec fn view(&self) -> MachineFault {
        match self {
            MachineError::NotSupported(s) => MachineFault::NotSupported(s@),
            MachineError::NotFound(s) => MachineFault::NotFound(s@),
            MachineError::InvalidArgument(s) => MachineFault::InvalidArgument(s@),
            MachineError::PolicyRejected(s) => MachineFault::PolicyRejected(s@),
            MachineError::Busy(s) => MachineFault::Busy(s@),
            MachineError::ManifestInvalid(s) => MachineFault::ManifestInvalid(s@),
            MachineError::WrongTarget(s) => MachineFault::WrongTarget(s@),
            MachineError::UnknownFlashSession(s) => MachineFault::UnknownFlashSession(s@),
            MachineError::Storage(s) => MachineFault::Storage(s@),
            MachineError::Internal(s) => MachineFault::Internal(s@),
        }
    }
}

/// A request was refused with a fault.
pub open spec fn refused<T>(r: Result<T, BackendError>, why: BackendFault) -> bool {
    match r {
        Err(e) => e@ == why,
        Ok(_) => false,
    }
}

/// The machine refused a request with a fault.
pub open spec fn declined<T>(r: Result<T, MachineError>, why: MachineFault) -> bool {
    match r {
        Err(e) => e@ == why,
        Ok(_) => false,
    }
}

/// A request that is refused with a fault has failed, and with that fault alone.
pub proof fn law_a_refusal_has_one_reason<T>(
    r: Result<T, BackendError>,
    why: BackendFault,
    other: BackendFault,
)
    requires
        refused(r, why),
    ensures
        r is Err,
        r->Err_0@ == why,
        refused(r, other) ==> other == why,
{
}

/// A request that the machine declines with a fault has failed, and with that fault
/// alone.
pub proof fn law_a_decline_has_one_reason<T>(
    r: Result<T, MachineError>,
    why: MachineFault,
    other: MachineFault,
)
    requires
        declined(r, why),
    ensures
        r is Err,
        r->Err_0@ == why,
        declined(r, other) ==> other == why,
{
}

} // verus!
