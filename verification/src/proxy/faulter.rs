//! Choosing the fault for a request, and what the fault asks of the session.

use crate::proxy::resp_util::command_of;
use crate::proxy::resp_util::decode;
use crate::proxy::resp_util::decode_result;
use crate::proxy::resp_util::encode_error_message;
use crate::proxy::resp_util::error_frame;
use crate::proxy::resp_util::fetch_redis_command;
use crate::proxy::resp_util::resp_decode;
use crate::proxy::resp_util::RespErrors;
use crate::proxy::resp_util::RespValue;
use crate::store::fault_store::has_fault_for;
use crate::store::fault_store::holds_record;
use crate::store::fault_store::opt_view;
use crate::store::fault_store::Fault;
use crate::store::fault_store::FaultStore;
use crate::store::fault_store::FaultVariants;
use crate::store::fault_store::FaultView;
use crate::store::fault_store::Records;
use vstd::prelude::*;
use vstd::string::StringExecFns;
use vstd::utf8::encode_utf8;

verus! {

/// What the session does once the fault has been carried out.
#[derive(Debug, Clone, Copy, PartialEq, Eq, Structural)]
pub enum RequestAction {
    /// End the session; the server is not contacted.
    Exit,
    /// Go on and forward the request to the server.
    Fallthrough,
}

/// Why a fault could not be carried out.
#[derive(Debug, Clone, Copy, PartialEq, Eq, Structural)]
pub enum FaulterErrors {
    /// An `error` fault holds no message to encode.
    EncodeErrMsgError,
    /// The fault's type is none of `delay`, `error`, `drop`.
    UnknownFaultTypeError,
}

impl FaulterErrors {
    /// The error in words.
    pub fn to_string(&self) -> (s: String)
        ensures
            s@ == match *self {
                FaulterErrors::EncodeErrMsgError => "Error decoding request body to RESP values"@,
                FaulterErrors::UnknownFaultTypeError => "Error as unsupported fault type"@,
            },
    {
        match self {
            FaulterErrors::EncodeErrMsgError => String::from_str(
                "Error decoding request body to RESP values",
            ),
            FaulterErrors::UnknownFaultTypeError => String::from_str(
                "Error as unsupported fault type",
            ),
        }
    }
}

/// What a fault asks the session to do to the client's connection.
#[derive(Debug, PartialEq, Eq)]
pub enum FaultStep {
    /// Nothing.
    Proceed,
    /// Wait for so many milliseconds, without holding up other sessions.
    Sleep(u64),
    /// Write the bytes to the client, then close the client's write half.
    Reply(Vec<u8>),
    /// Close the client's write half; write nothing.
    Hangup,
}

/// A [`FaultStep`] as mathematical values.
pub enum FaultStepView {
    Proceed,
    Sleep(u64),
    Reply(Seq<u8>),
    Hangup,
}

impl View for FaultStep {
    type V = FaultStepView;

    open spec fn view(&self) -> FaultStepView {
        match *self {
            FaultStep::Proceed => FaultStepView::Proceed,
            FaultStep::Sleep(ms) => FaultStepView::Sleep(ms),
            FaultStep::Reply(bytes) => FaultStepView::Reply(bytes@),
            FaultStep::Hangup => FaultStepView::Hangup,
        }
    }
}

impl FaultStepView {
    /// What the session does after the step.
    pub open spec fn outcome(self) -> RequestAction {
        match self {
            FaultStepView::Proceed => RequestAction::Fallthrough,
            FaultStepView::Sleep(_) => RequestAction::Fallthrough,
            FaultStepView::Reply(_) => RequestAction::Exit,
            FaultStepView::Hangup => RequestAction::Exit,
        }
    }
}

impl FaultStep {
    /// What the session does after the step: it goes on to the server after
    /// none and after a delay, and ends after a reply and after a hang-up.
    pub fn outcome(&self) -> (action: RequestAction)
        ensures
            action == self@.outcome(),
    {
        match self {
            FaultStep::Proceed => RequestAction::Fallthrough,
            FaultStep::Sleep(_) => RequestAction::Fallthrough,
            FaultStep::Reply(_) => RequestAction::Exit,
            FaultStep::Hangup => RequestAction::Exit,
        }
    }
}

/// The step of a delay fault: a wait of the given length, or nothing where
/// the fault holds no length.
pub open spec fn delay_step(duration: Option<u64>) -> FaultStepView {
    match duration {
        Some(ms) => FaultStepView::Sleep(ms),
        None => FaultStepView::Proceed,
    }
}

/// The step of an error fault: the message as an error reply.
pub open spec fn error_step(error_msg: Option<Seq<char>>) -> Result<FaultStepView, FaulterErrors> {
    match error_msg {
        Some(msg) => Ok(FaultStepView::Reply(error_frame(msg))),
        None => Err(FaulterErrors::EncodeErrMsgError),
    }
}

/// The step that a fault, or the lack of one, asks for.
pub open spec fn fault_step(fault: Option<FaultView>) -> Result<FaultStepView, FaulterErrors> {
    match fault {
        None => Ok(FaultStepView::Proceed),
        Some(f) => match f.variant() {
            Some(FaultVariants::DropConn) => Ok(FaultStepView::Hangup),
            Some(FaultVariants::Delay) => Ok(delay_step(f.duration)),
            Some(FaultVariants::Error) => error_step(f.error_msg),
            None => Err(FaulterErrors::UnknownFaultTypeError),
        },
    }
}

/// The view of a step, where there is one.
pub open spec fn step_view(r: Result<FaultStep, FaulterErrors>) -> Result<
    FaultStepView,
    FaulterErrors,
> {
    match r {
        Ok(step) => Ok(step@),
        Err(e) => Err(e),
    }
}

/// The step of a delay fault with the given length in milliseconds.
pub fn execute_delay_fault(sleep_duration: Option<u64>) -> (step: FaultStep)
    ensures
        step@ == delay_step(sleep_duration),
{
    match sleep_duration {
        Some(ms) => FaultStep::Sleep(ms),
        None => FaultStep::Proceed,
    }
}

/// The step of an error fault: its message, encoded as an error reply.
/// Fails where the fault holds no message.
pub fn execute_error_fault(fault: Fault) -> (r: Result<FaultStep, FaulterErrors>)
    ensures
        step_view(r) == error_step(fault@.error_msg),
{
    match fault.error_msg {
        None => Err(FaulterErrors::EncodeErrMsgError),
        Some(msg) => match encode_error_message(msg) {
            Ok(bytes) => Ok(FaultStep::Reply(bytes)),
            Err(_) => Err(FaulterErrors::EncodeErrMsgError),
        },
    }
}

/// The command of a request, from its bytes: the request decoded, and the
/// command of the value found.
pub open spec fn request_command(request: Seq<u8>) -> Result<Seq<char>, RespErrors> {
    decoded_command(decode_result(resp_decode(request)))
}

/// The command of a decoded request.
pub open spec fn decoded_command(decoded: Result<RespValue, RespErrors>) -> Result<
    Seq<char>,
    RespErrors,
> {
    match decoded {
        Ok(value) => command_of(value),
        Err(e) => Err(e),
    }
}

/// Whether `found` is an answer that a store with the given records may give
/// when asked for a fault on the command: a record that applies, or none.
/// A dependable store says none only where no record applies.
pub open spec fn answers(
    records: Records,
    dependable: bool,
    command: Seq<char>,
    found: Option<FaultView>,
) -> bool {
    match found {
        Some(f) => holds_record(records, f) && f.applies_to(command),
        None => dependable ==> !has_fault_for(records, command),
    }
}

/// Whether `checked` is what a check of a request with the given command, or
/// with none, may come to.
pub open spec fn check_result(
    records: Records,
    dependable: bool,
    command: Result<Seq<char>, RespErrors>,
    checked: Result<Option<Fault>, RespErrors>,
) -> bool {
    match command {
        Err(e) => checked == Err::<Option<Fault>, RespErrors>(e),
        Ok(cmd) => checked matches Ok(found) && answers(records, dependable, cmd, opt_view(found)),
    }
}

/// Decides, for the first request of a session, which fault applies and what
/// it asks for.
pub struct Faulter<'a, S: FaultStore> {
    fault_store: &'a S,
}

impl<'a, S: FaultStore> Faulter<'a, S> {
    /// The store that the faulter consults.
    pub closed spec fn store(&self) -> &S {
        self.fault_store
    }

    /// A faulter over the given store.
    pub fn new(fault_store: &'a S) -> (faulter: Self)
        ensures
            faulter.store() == fault_store,
    {
        Faulter { fault_store }
    }

    /// Looks up the fault for a decoded request. Passes on the error of a
    /// request that could not be decoded, or that names no command.
    pub fn check_decoded(&self, decoded: Result<RespValue, RespErrors>) -> (r: Result<
        Option<Fault>,
        RespErrors,
    >)
        ensures
            check_result(
                self.store().records(),
                self.store().dependable(),
                decoded_command(decoded),
                r,
            ),
    {
        let value = match decoded {
            Ok(value) => value,
            Err(e) => {
                return Err(e);
            },
        };
        let command = match fetch_redis_command(value) {
            Ok(command) => command,
            Err(e) => {
                return Err(e);
            },
        };
        Ok(self.fault_store.get_by_redis_cmd(command.as_str()))
    }

    /// Looks up the fault for a request: decodes it, reads its command, and
    /// asks the store for a fault on that command.
    pub fn check_fault(&self, req_body: &str) -> (r: Result<Option<Fault>, RespErrors>)
        ensures
            check_result(
                self.store().records(),
                self.store().dependable(),
                request_command(encode_utf8(req_body@)),
                r,
            ),
    {
        self.check_decoded(decode(req_body))
    }

    /// What the given fault asks the session to do: nothing without a fault,
    /// a wait for a delay fault, an error reply for an error fault, a hang-up
    /// for a drop fault.
    pub fn execute_fault(&self, fault: Option<Fault>) -> (r: Result<FaultStep, FaulterErrors>)
        ensures
            step_view(r) == fault_step(opt_view(fault)),
    {
        let fault = match fault {
            Some(f) => f,
            None => {
                return Ok(FaultStep::Proceed);
            },
        };
        match FaultVariants::from_name(fault.fault_type.as_str()) {
            Some(FaultVariants::DropConn) => Ok(FaultStep::Hangup),
            Some(FaultVariants::Delay) => Ok(execute_delay_fault(fault.duration)),
            Some(FaultVariants::Error) => execute_error_fault(fault),
            None => Err(FaulterErrors::UnknownFaultTypeError),
        }
    }
}

} // verus!
