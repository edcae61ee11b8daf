//! The IPC request/response vocabulary, and the client-side interpretation
//! of responses. Each request maps to exactly one manager operation; the
//! server answers every frame with exactly one response frame.

use vstd::prelude::*;

use crate::cli::{ProcessConfig, ProcessConfigV};
use crate::error::{RpmError, RpmErrorV};
use crate::process::{ProcessInfo, ProcessInfoV};

verus! {

/// One request frame from client to daemon.
#[derive(Debug, PartialEq)]
pub enum IpcRequest {
    StartProcess(ProcessConfig),
    StopProcess(String),
    RestartProcess(String),
    DeleteProcess(String),
    ListProcesses,
    GetProcessInfo(String),
    GetLogs { name: String, lines: usize, follow: bool },
    Monitor,
    KillDaemon,
    ReloadProcess(String),
    SaveProcesses,
    ResurrectProcesses,
}

/// The mathematical shape of an `IpcRequest`.
pub ghost enum IpcRequestV {
    StartProcess(ProcessConfigV),
    StopProcess(Seq<char>),
    RestartProcess(Seq<char>),
    DeleteProcess(Seq<char>),
    ListProcesses,
    GetProcessInfo(Seq<char>),
    GetLogs { name: Seq<char>, lines: usize, follow: bool },
    Monitor,
    KillDaemon,
    ReloadProcess(Seq<char>),
    SaveProcesses,
    ResurrectProcesses,
}

impl View for IpcRequest {
    type V = IpcRequestV;

    open spec fn view(&self) -> IpcRequestV {
        match self {
            IpcRequest::StartProcess(c) => IpcRequestV::StartProcess(c@),
            IpcRequest::StopProcess(n) => IpcRequestV::StopProcess(n@),
            IpcRequest::RestartProcess(n) => IpcRequestV::RestartProcess(n@),
            IpcRequest::DeleteProcess(n) => IpcRequestV::DeleteProcess(n@),
            IpcRequest::ListProcesses => IpcRequestV::ListProcesses,
            IpcRequest::GetProcessInfo(n) => IpcRequestV::GetProcessInfo(n@),
            IpcRequest::GetLogs { name, lines, follow } => IpcRequestV::GetLogs {
                name: name@,
                lines: *lines,
                follow: *follow,
            },
            IpcRequest::Monitor => IpcRequestV::Monitor,
            IpcRequest::KillDaemon => IpcRequestV::KillDaemon,
            IpcRequest::ReloadProcess(n) => IpcRequestV::ReloadProcess(n@),
            IpcRequest::SaveProcesses => IpcRequestV::SaveProcesses,
            IpcRequest::ResurrectProcesses => IpcRequestV::ResurrectProcesses,
        }
    }
}

/// One response frame from daemon to client.
#[derive(Debug, PartialEq)]
pub enum IpcResponse {
    Success(String),
    ProcessList(Vec<ProcessInfo>),
    ProcessInfo(ProcessInfo),
    Logs(Vec<String>),
    Error(String),
}

/// The mathematical shape of an `IpcResponse`.
pub ghost enum IpcResponseV {
    Success(Seq<char>),
    ProcessList(Seq<ProcessInfoV>),
    ProcessInfo(ProcessInfoV),
    Logs(Seq<Seq<char>>),
    Error(Seq<char>),
}

impl View for IpcResponse {
    type V = IpcResponseV;

    open spec fn view(&self) -> IpcResponseV {
        match self {
            IpcResponse::Success(m) => IpcResponseV::Success(m@),
            IpcResponse::ProcessList(v) => IpcResponseV::ProcessList(
                Seq::new(v@.len(), |i: int| v@[i]@),
            ),
            IpcResponse::ProcessInfo(p) => IpcResponseV::ProcessInfo(p@),
            IpcResponse::Logs(v) => IpcResponseV::Logs(Seq::new(v@.len(), |i: int| v@[i]@)),
            IpcResponse::Error(m) => IpcResponseV::Error(m@),
        }
    }
}

// ---------------------------------------------------------------------------
// Client-side response interpretation
// ---------------------------------------------------------------------------

/// The client's reading of a response to a fire-and-forget request: any
/// `Success` is fine, an `Error` carries the daemon's message, and any other
/// shape is a protocol violation.
pub fn expect_success(resp: IpcResponse) -> (r: Result<(), RpmError>)
    ensures
        (r is Ok) <==> resp@ is Success,
        resp@ matches IpcResponseV::Error(m) ==> (r matches Err(e) && e@ == RpmErrorV::Ipc(m)),
        !(resp@ is Success) && !(resp@ is Error) ==> (r matches Err(e) && e@ == RpmErrorV::Ipc(
            "Unexpected response"@,
        )),
{
    match resp {
        IpcResponse::Success(_) => Ok(()),
        IpcResponse::Error(e) => Err(RpmError::Ipc(e)),
        _ => Err(RpmError::Ipc(String::from_str("Unexpected response"))),
    }
}

/// The client's reading of a response to `ListProcesses`.
pub fn expect_list(resp: IpcResponse) -> (r: Result<Vec<ProcessInfo>, RpmError>)
    ensures
        (r is Ok) <==> resp@ is ProcessList,
        r matches Ok(v) ==> resp@ == IpcResponseV::ProcessList(Seq::new(v@.len(), |i: int| v@[i]@)),
        resp@ matches IpcResponseV::Error(m) ==> (r matches Err(e) && e@ == RpmErrorV::Ipc(m)),
        !(resp@ is ProcessList) && !(resp@ is Error) ==> (r matches Err(e) && e@ == RpmErrorV::Ipc(
            "Unexpected response"@,
        )),
{
    match resp {
        IpcResponse::ProcessList(v) => Ok(v),
        IpcResponse::Error(e) => Err(RpmError::Ipc(e)),
        _ => Err(RpmError::Ipc(String::from_str("Unexpected response"))),
    }
}

/// The client's reading of a response to `GetProcessInfo`.
pub fn expect_info(resp: IpcResponse) -> (r: Result<ProcessInfo, RpmError>)
    ensures
        (r is Ok) <==> resp@ is ProcessInfo,
        r matches Ok(p) ==> resp@ == IpcResponseV::ProcessInfo(p@),
        resp@ matches IpcResponseV::Error(m) ==> (r matches Err(e) && e@ == RpmErrorV::Ipc(m)),
        !(resp@ is ProcessInfo) && !(resp@ is Error) ==> (r matches Err(e) && e@ == RpmErrorV::Ipc(
            "Unexpected response"@,
        )),
{
    match resp {
        IpcResponse::ProcessInfo(p) => Ok(p),
        IpcResponse::Error(e) => Err(RpmError::Ipc(e)),
        _ => Err(RpmError::Ipc(String::from_str("Unexpected response"))),
    }
}

/// The client's reading of a response to `GetLogs`.
pub fn expect_logs(resp: IpcResponse) -> (r: Result<Vec<String>, RpmError>)
    ensures
        (r is Ok) <==> resp@ is Logs,
        r matches Ok(v) ==> resp@ == IpcResponseV::Logs(Seq::new(v@.len(), |i: int| v@[i]@)),
        resp@ matches IpcResponseV::Error(m) ==> (r matches Err(e) && e@ == RpmErrorV::Ipc(m)),
        !(resp@ is Logs) && !(resp@ is Error) ==> (r matches Err(e) && e@ == RpmErrorV::Ipc(
            "Unexpected response"@,
        )),
{
    match resp {
        IpcResponse::Logs(v) => Ok(v),
        IpcResponse::Error(e) => Err(RpmError::Ipc(e)),
        _ => Err(RpmError::Ipc(String::from_str("Unexpected response"))),
    }
}

} // verus!
