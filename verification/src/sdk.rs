//! The client SDK's verifiable core: its error taxonomy, the request
//! payloads it assembles, the result of a command execution, and the
//! started/stopped session discipline.

use vstd::prelude::*;

use crate::config::SandboxConfig;
use crate::payload::{RunCodeRequest, SandboxStartRequest, SandboxStopRequest};

verus! {

/// Errors the SDK surfaces to its callers.
#[derive(Debug)]
pub enum SandboxError {
    /// The sandbox has not been started.
    NotStarted,
    /// The request to the server failed.
    RequestFailed(String),
    /// The server returned an error.
    ServerError(String),
    /// The sandbox timed out.
    Timeout(String),
    /// An HTTP-level failure.
    HttpError(String),
    /// Any other failure.
    General(String),
}

impl SandboxError {
    /// The message carried by the error; the not-started case has a fixed
    /// wording.
    pub fn message(&self) -> (r: String)
        ensures
            self is NotStarted ==> r@ == "Sandbox is not started. Call start() first."@,
            self matches SandboxError::RequestFailed(m) ==> r@ == m@,
            self matches SandboxError::ServerError(m) ==> r@ == m@,
            self matches SandboxError::Timeout(m) ==> r@ == m@,
            self matches SandboxError::HttpError(m) ==> r@ == m@,
            self matches SandboxError::General(m) ==> r@ == m@,
    {
        match self {
            SandboxError::NotStarted => "Sandbox is not started. Call start() first.".to_owned(),
            SandboxError::RequestFailed(m) => m.clone(),
            SandboxError::ServerError(m) => m.clone(),
            SandboxError::Timeout(m) => m.clone(),
            SandboxError::HttpError(m) => m.clone(),
            SandboxError::General(m) => m.clone(),
        }
    }
}

/// The result of one command execution in a sandbox.
pub struct CommandExecution {
    command: String,
    args: Vec<String>,
    exit_code: i32,
    stdout: String,
    stderr: String,
}

impl CommandExecution {
    /// The command that ran.
    pub closed spec fn spec_command(self) -> Seq<char> {
        self.command@
    }

    /// The arguments it ran with.
    pub closed spec fn spec_args(self) -> Seq<String> {
        self.args@
    }

    /// Its exit code.
    pub closed spec fn spec_exit_code(self) -> i32 {
        self.exit_code
    }

    /// Its captured standard output.
    pub closed spec fn spec_stdout(self) -> Seq<char> {
        self.stdout@
    }

    /// Its captured standard error.
    pub closed spec fn spec_stderr(self) -> Seq<char> {
        self.stderr@
    }

    /// Packs the pieces of one finished command execution.
    pub fn new(
        command: String,
        args: Vec<String>,
        exit_code: i32,
        stdout: String,
        stderr: String,
    ) -> (r: CommandExecution)
        ensures
            r.spec_command() == command@,
            r.spec_args() == args@,
            r.spec_exit_code() == exit_code,
            r.spec_stdout() == stdout@,
            r.spec_stderr() == stderr@,
    {
        CommandExecution { command, args, exit_code, stdout, stderr }
    }

    /// The command that was executed.
    pub fn command(&self) -> (r: &str)
        ensures
            r@ == self.spec_command(),
    {
        self.command.as_str()
    }

    /// The arguments passed to the command.
    pub fn args(&self) -> (r: &Vec<String>)
        ensures
            r@ == self.spec_args(),
    {
        &self.args
    }

    /// The exit code of the command.
    pub fn exit_code(&self) -> (r: i32)
        ensures
            r == self.spec_exit_code(),
    {
        self.exit_code
    }

    /// The captured standard output.
    pub fn output(&self) -> (r: &str)
        ensures
            r@ == self.spec_stdout(),
    {
        self.stdout.as_str()
    }

    /// The captured standard error.
    pub fn error(&self) -> (r: &str)
        ensures
            r@ == self.spec_stderr(),
    {
        self.stderr.as_str()
    }

    /// Whether the command succeeded: exit code zero.
    pub fn is_success(&self) -> (r: bool)
        ensures
            r == (self.spec_exit_code() == 0),
    {
        self.exit_code == 0
    }
}

/// The client-side session discipline: a sandbox must be started before
/// code or commands run in it, starting twice and stopping twice are
/// no-ops.
pub struct SdkSession {
    /// Whether `start` has completed.
    pub is_started: bool,
}

impl SdkSession {
    /// A fresh, unstarted session.
    pub fn new() -> (r: SdkSession)
        ensures
            !r.is_started,
    {
        SdkSession { is_started: false }
    }

    /// Whether the server must be asked to start the sandbox: only when the
    /// session is not already started.
    pub fn needs_start(&self) -> (r: bool)
        ensures
            r == !self.is_started,
    {
        !self.is_started
    }

    /// Records a completed start.
    pub fn mark_started(&mut self)
        ensures
            final(self).is_started,
    {
        self.is_started = true;
    }

    /// Records a completed stop.
    pub fn mark_stopped(&mut self)
        ensures
            !final(self).is_started,
    {
        self.is_started = false;
    }

    /// Guards an evaluation or command: fails with the not-started error
    /// exactly when the session has not been started.
    pub fn check_started(&self) -> (r: Result<(), SandboxError>)
        ensures
            self.is_started ==> r is Ok,
            !self.is_started ==> (r is Err && r->Err_0 is NotStarted),
    {
        if self.is_started {
            Ok(())
        } else {
            Err(SandboxError::NotStarted)
        }
    }
}

/// Assembles the parameters of a `sandbox.start` call.
pub fn start_request(namespace: &str, name: &str, config: SandboxConfig) -> (r:
    SandboxStartRequest)
    ensures
        r.namespace@ == namespace@,
        r.sandbox_name@ == name@,
        r.config matches Some(c) && c@ == config@,
{
    SandboxStartRequest {
        sandbox_name: name.to_owned(),
        namespace: namespace.to_owned(),
        config: Some(config),
    }
}

/// Assembles the parameters of a `sandbox.stop` call.
pub fn stop_request(namespace: &str, name: &str) -> (r: SandboxStopRequest)
    ensures
        r.namespace@ == namespace@,
        r.sandbox_name@ == name@,
{
    SandboxStopRequest { sandbox_name: name.to_owned(), namespace: namespace.to_owned() }
}

/// Assembles the parameters of a `sandbox.repl.run` call.
pub fn run_code_request(namespace: &str, name: &str, code: &str) -> (r: RunCodeRequest)
    ensures
        r.namespace@ == namespace@,
        r.sandbox_name@ == name@,
        r.code@ == code@,
{
    RunCodeRequest {
        code: code.to_owned(),
        namespace: namespace.to_owned(),
        sandbox_name: name.to_owned(),
    }
}

impl CommandExecution {
    /// Builds a command result from the fields of a server reply, defaulting
    /// each missing field: empty command, no arguments, exit code zero,
    /// empty output and error text.
    pub fn from_parts(
        command: Option<String>,
        args: Option<Vec<String>>,
        exit_code: Option<i32>,
        stdout: Option<String>,
        stderr: Option<String>,
    ) -> (r: CommandExecution)
        ensures
            r.spec_command() == match command {
                Some(c) => c@,
                None => Seq::<char>::empty(),
            },
            r.spec_args() == match args {
                Some(a) => a@,
                None => Seq::<String>::empty(),
            },
            r.spec_exit_code() == match exit_code {
                Some(e) => e,
                None => 0i32,
            },
            r.spec_stdout() == match stdout {
                Some(o) => o@,
                None => Seq::<char>::empty(),
            },
            r.spec_stderr() == match stderr {
                Some(e) => e@,
                None => Seq::<char>::empty(),
            },
    {
        CommandExecution {
            command: match command {
                Some(c) => c,
                None => String::new(),
            },
            args: match args {
                Some(a) => a,
                None => Vec::new(),
            },
            exit_code: match exit_code {
                Some(e) => e,
                None => 0,
            },
            stdout: match stdout {
                Some(o) => o,
                None => String::new(),
            },
            stderr: match stderr {
                Some(e) => e,
                None => String::new(),
            },
        }
    }
}

} // verus!
