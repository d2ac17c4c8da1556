use vstd::prelude::*;

verus! {

/// What went wrong on a relay path.
#[derive(Clone, Copy, Debug, PartialEq, Eq, Structural)]
pub enum LinkError {
    /// The destination's light client is past its trust period.
    ClientExpired,
    /// The destination's light client was frozen on misbehaviour.
    ClientFrozen,
    /// A proof did not verify.
    InvalidProof,
    /// A query answered at another height than the one asked for.
    HeightMismatch,
    /// The chain refused the transaction at broadcast.
    TxBroadcast,
    /// No receipt came before the deadline.
    TxTimeout,
    /// The packet is no longer there: another relayer was faster.
    PacketNotFound,
}

/// What a worker does about an error.
#[derive(Clone, Copy, Debug, PartialEq, Eq, Structural)]
pub enum Disposition {
    /// No retry can succeed: the worker ends.
    Fatal,
    /// The work stays scheduled and is tried again.
    Retry,
    /// The work is no longer wanted and is dropped.
    Ignore,
}

impl LinkError {
    /// An error of a client that is expired or frozen.
    pub open spec fn expired_or_frozen(self) -> bool {
        self == LinkError::ClientExpired || self == LinkError::ClientFrozen
    }

    /// The disposition of each error: fatal for a client that is expired or
    /// frozen, ignored for a packet that is gone, a retry for all others.
    pub open spec fn disposition(self) -> Disposition {
        if self.expired_or_frozen() {
            Disposition::Fatal
        } else if self == LinkError::PacketNotFound {
            Disposition::Ignore
        } else {
            Disposition::Retry
        }
    }

    pub fn is_expired_or_frozen_error(&self) -> (r: bool)
        ensures
            r == self.expired_or_frozen(),
    {
        match self {
            LinkError::ClientExpired => true,
            LinkError::ClientFrozen => true,
            _ => false,
        }
    }

    /// The single place where an error's disposition is decided.
    pub fn classify(&self) -> (d: Disposition)
        ensures
            d == self.disposition(),
    {
        match self {
            LinkError::ClientExpired => Disposition::Fatal,
            LinkError::ClientFrozen => Disposition::Fatal,
            LinkError::PacketNotFound => Disposition::Ignore,
            _ => Disposition::Retry,
        }
    }

    /// A line of text for logs.
    pub fn message(&self) -> (s: &'static str)
        ensures
            s@.len() > 0,
    {
        let s = match self {
            LinkError::ClientExpired => "client expired",
            LinkError::ClientFrozen => "client frozen",
            LinkError::InvalidProof => "invalid proof",
            LinkError::HeightMismatch => "height mismatch",
            LinkError::TxBroadcast => "transaction broadcast failed",
            LinkError::TxTimeout => "transaction timed out",
            LinkError::PacketNotFound => "packet not found",
        };
        proof {
            reveal_strlit("client expired");
            reveal_strlit("client frozen");
            reveal_strlit("invalid proof");
            reveal_strlit("height mismatch");
            reveal_strlit("transaction broadcast failed");
            reveal_strlit("transaction timed out");
            reveal_strlit("packet not found");
        }
        s
    }
}

/// An error of a running worker.
#[derive(Clone, Copy, Debug, PartialEq, Eq, Structural)]
pub enum RunError {
    /// The relay path failed.
    Link(LinkError),
}

impl RunError {
    pub fn link(e: LinkError) -> (r: RunError)
        ensures
            r == RunError::Link(e),
    {
        RunError::Link(e)
    }
}

/// How a step of a background task failed: `Fatal` ends the task, `Ignore`
/// lets it go on with its next step.
#[derive(Clone, Copy, Debug, PartialEq, Eq)]
pub enum TaskError<E> {
    Fatal(E),
    Ignore(E),
}

/// What a task does after a step that succeeded.
#[derive(Clone, Copy, Debug, PartialEq, Eq, Structural)]
pub enum Next {
    Continue,
    Abort,
}

/// The task error that a path error becomes: fatal exactly where the client
/// is expired or frozen.
pub open spec fn task_error_of(e: LinkError) -> TaskError<RunError> {
    if e.expired_or_frozen() {
        TaskError::Fatal(RunError::Link(e))
    } else {
        TaskError::Ignore(RunError::Link(e))
    }
}

/// Labels a path error for the task that met it. A client that is expired or
/// frozen ends the worker, as nothing more can be relayed; after any other
/// error the worker goes on.
pub fn handle_link_error_in_task(e: LinkError) -> (r: TaskError<RunError>)
    ensures
        r == task_error_of(e),
{
    if e.is_expired_or_frozen_error() {
        TaskError::Fatal(RunError::link(e))
    } else {
        TaskError::Ignore(RunError::link(e))
    }
}

/// Only `Fatal` ends a worker, and a classified error is fatal exactly where
/// its disposition is.
pub proof fn fatal_iff_disposition_fatal(e: LinkError)
    ensures
        (task_error_of(e) is Fatal) <==> e.disposition() == Disposition::Fatal,
        (task_error_of(e) is Ignore) <==> (e.disposition() == Disposition::Retry
            || e.disposition() == Disposition::Ignore),
{
}

/// Why spawning a chain runtime failed.
#[derive(Clone, Debug, PartialEq, Eq)]
pub enum SpawnErrorDetail {
    /// The relayer could not start the runtime; the text says why.
    Relayer(String),
    /// The registry holds no runtime for the chain.
    RuntimeNotFound,
    /// The configuration has no entry for the chain of this identifier.
    MissingChainConfig(String),
}

impl SpawnErrorDetail {
    /// Whether the error is one to log at debug level only: that holds of a
    /// missing chain configuration and of nothing else.
    pub fn log_as_debug(&self) -> (r: bool)
        ensures
            r == (self is MissingChainConfig),
    {
        matches!(self, SpawnErrorDetail::MissingChainConfig(_))
    }
}

/// An error of spawning a chain runtime.
#[derive(Clone, Debug, PartialEq, Eq)]
pub struct SpawnError {
    pub detail: SpawnErrorDetail,
}

impl SpawnError {
    pub fn relayer(reason: String) -> (e: SpawnError)
        ensures
            e.detail == SpawnErrorDetail::Relayer(reason),
    {
        SpawnError { detail: SpawnErrorDetail::Relayer(reason) }
    }

    pub fn runtime_not_found() -> (e: SpawnError)
        ensures
            e.detail == SpawnErrorDetail::RuntimeNotFound,
    {
        SpawnError { detail: SpawnErrorDetail::RuntimeNotFound }
    }

    pub fn missing_chain_config(chain_id: String) -> (e: SpawnError)
        ensures
            e.detail == SpawnErrorDetail::MissingChainConfig(chain_id),
    {
        SpawnError { detail: SpawnErrorDetail::MissingChainConfig(chain_id) }
    }

    pub fn detail(&self) -> (d: &SpawnErrorDetail)
        ensures
            *d == self.detail,
    {
        &self.detail
    }

    /// Whether the error is one to log at debug level only.
    pub fn log_as_debug(&self) -> (r: bool)
        ensures
            r == (self.detail is MissingChainConfig),
    {
        self.detail().log_as_debug()
    }
}

} // verus!
