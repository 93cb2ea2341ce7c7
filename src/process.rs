use vstd::prelude::*;
use vstd::string::*;

use crate::codec::chars_of;
use crate::errors::{Error, ErrorKind};
use crate::text::{decimal_string, decimal_text, decimal_value, parse_decimal, trim, trim_bounds};

verus! {

/// Whether a supervised process was found alive.
#[derive(Debug, Clone, Copy, PartialEq, Eq, Structural)]
pub enum ProcessState {
    Running,
    Stopped,
}

/// What became of a termination signal sent to a pid.
#[derive(Debug, Clone, Copy, PartialEq, Eq, Structural)]
pub enum SignalOutcome {
    /// The signal was delivered.
    Delivered,
    /// No process carries the pid.
    NoSuchProcess,
    /// The system refused the signal, with this error number.
    Failed(i32),
}

/// The pid that a pidfile records: its decimal content, white space at
/// either end ignored; 0 when the file could not be read or holds anything
/// else.
pub open spec fn pidfile_pid(content: Option<Seq<char>>) -> u32 {
    match content {
        None => 0,
        Some(t) => match decimal_value(trim(t)) {
            Some(n) => if n <= u32::MAX {
                n as u32
            } else {
                0
            },
            None => 0,
        },
    }
}

/// The pid recorded in a pidfile, from the file's content (`None` when it
/// could not be read).
pub fn read_pidfile(content: Option<&str>) -> (r: u32)
    ensures
        r == pidfile_pid(
            match content {
                Some(t) => Some(t@),
                None => None,
            },
        ),
{
    match content {
        None => 0,
        Some(t) => {
            let v = chars_of(t);
            let (a, b) = trim_bounds(&v);
            match parse_decimal(&v, a, b, u32::MAX) {
                Some(n) => n,
                None => 0,
            }
        },
    }
}

/// The content a pidfile holds for `pid`: its decimal text.
pub fn pidfile_text(pid: u32) -> (r: String)
    ensures
        r@ == decimal_text(pid as nat),
{
    decimal_string(pid)
}

/// Reading back the pidfile written for a pid gives that pid.
pub proof fn lemma_pidfile_round_trip(pid: u32)
    ensures
        pidfile_pid(Some(decimal_text(pid as nat))) == pid,
{
    let t = decimal_text(pid as nat);
    crate::text::lemma_decimal_round_trip(pid as nat);
    assert(decimal_value(t) is Some);
    assert(crate::text::is_digit(t[0]) && crate::text::is_digit(t.last()));
    assert(crate::text::trim_start(t) == t);
    assert(crate::text::trim_end(t) == t);
}

/// A process supervised through its pidfile.
#[derive(Debug)]
pub struct Process {
    program: String,
    args: Vec<String>,
    pidfile: String,
    pid: u32,
    state: ProcessState,
}

/// What a supervisor knows: where its pidfile is, the pid it last
/// recorded, and whether that process was alive when last asked.
pub struct ProcessModel {
    pub program: Seq<char>,
    pub args: Seq<String>,
    pub pidfile: Seq<char>,
    pub pid: u32,
    pub state: ProcessState,
}

impl View for Process {
    type V = ProcessModel;

    closed spec fn view(&self) -> ProcessModel {
        ProcessModel { program: self.program@, args: self.args@, pidfile: self.pidfile@, pid: self.pid, state: self.state }
    }
}

/// The state of a recorded pid: running when one is recorded and the
/// system lists it.
pub open spec fn observed_state(pid: u32, alive: bool) -> ProcessState {
    if pid != 0 && alive {
        ProcessState::Running
    } else {
        ProcessState::Stopped
    }
}

impl Process {
    /// A supervisor for the command `program args`, with the pid read from
    /// its pidfile and whether the system lists that pid.
    pub fn new(program: String, args: Vec<String>, pidfile: String, recorded_pid: u32, alive: bool) -> (r:
        Process)
        ensures
            r@.pidfile == pidfile@,
            r@.pid == recorded_pid,
            r@.state == observed_state(recorded_pid, alive),
            r@.program == program@,
            r@.args == args@,
    {
        let state = if recorded_pid != 0 && alive {
            ProcessState::Running
        } else {
            ProcessState::Stopped
        };
        Process { program, args, pidfile, pid: recorded_pid, state }
    }

    /// The program to run.
    pub fn program(&self) -> (r: &str)
        ensures
            r@ == self@.program,
    {
        self.program.as_str()
    }

    /// The program's arguments.
    pub fn args(&self) -> (r: &Vec<String>)
        ensures
            r@ == self@.args,
    {
        &self.args
    }

    /// Where the pid is recorded.
    pub fn pidfile(&self) -> (r: &str)
        ensures
            r@ == self@.pidfile,
    {
        self.pidfile.as_str()
    }

    pub fn pid(&self) -> (r: u32)
        ensures
            r == self@.pid,
    {
        self.pid
    }

    pub fn state(&self) -> (r: ProcessState)
        ensures
            r == self@.state,
    {
        self.state
    }

    /// The pid to send the termination signal to; none when no pid is
    /// recorded or the pid cannot name a single process.
    pub fn signal_target(&self) -> (r: Option<i32>)
        ensures
            r matches Some(p) ==> p as int == self@.pid as int && p > 0,
            r is None <==> (self@.pid == 0 || self@.pid > i32::MAX),
    {
        if self.pid != 0 && self.pid <= i32::MAX as u32 {
            Some(self.pid as i32)
        } else {
            None
        }
    }

    /// Takes in what became of the termination signal. A process that is
    /// already gone counts as stopped; any other refusal is an error and
    /// leaves the state as it was.
    pub fn stop(&mut self, outcome: SignalOutcome) -> (r: Result<(), Error>)
        ensures
            r is Ok <==> !(outcome is Failed),
            r is Ok ==> final(self)@ == (ProcessModel { state: ProcessState::Stopped, ..old(self)@ }),
            r matches Err(e) ==> e.kind == ErrorKind::ProcessSignalError && final(self)@ == old(self)@,
    {
        match outcome {
            SignalOutcome::Delivered | SignalOutcome::NoSuchProcess => {
                self.state = ProcessState::Stopped;
                Ok(())
            },
            SignalOutcome::Failed(_) => Err(
                Error::new(
                    ErrorKind::ProcessSignalError,
                    "the termination signal could not be delivered".to_owned(),
                ),
            ),
        }
    }

    /// Takes in the pid of the child just spawned, or `None` when spawning
    /// failed. On success the pid is recorded and the text to write to the
    /// pidfile is returned; on failure nothing changes.
    pub fn start(&mut self, spawned: Option<u32>) -> (r: Result<String, Error>)
        ensures
            match spawned {
                Some(pid) => r matches Ok(text) && text@ == decimal_text(pid as nat) && final(self)@ == (
                ProcessModel { pid, state: ProcessState::Running, ..old(self)@ }),
                None => r matches Err(e) && e.kind == ErrorKind::StartError && final(self)@ == old(self)@,
            },
    {
        match spawned {
            Some(pid) => {
                self.pid = pid;
                self.state = ProcessState::Running;
                Ok(pidfile_text(pid))
            },
            None => Err(Error::new(ErrorKind::StartError, "the command could not be spawned".to_owned())),
        }
    }

    /// Takes in whether the system lists the recorded pid, and tells
    /// whether the process is alive. The recorded state is left as it is.
    pub fn exist(&self, alive: bool) -> (r: bool)
        ensures
            r == (self@.pid != 0 && alive),
    {
        self.pid != 0 && alive
    }
}

} // verus!
