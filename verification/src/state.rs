//! The state of the log: where records go, and under which name.

use vstd::prelude::*;

use crate::error::Error;
use crate::proc_name::{arg0_view, default_proc_name, get_proc_name};

verus! {

/// Where records go once the log is initialized. Descriptors stand for the connection and for
/// the file.
#[derive(Debug)]
pub struct State {
    /// Records are echoed to stderr.
    pub stderr: bool,
    /// The connection to the system logger, while records are echoed to it.
    pub socket: Option<i32>,
    /// The file that records are echoed to.
    pub file: Option<i32>,
    /// The process name that records carry.
    pub proc_name: Option<String>,
}

/// A `State` with its process name as a sequence of characters.
pub struct StateView {
    pub stderr: bool,
    pub socket: Option<i32>,
    pub file: Option<i32>,
    pub proc_name: Option<Seq<char>>,
}

impl View for State {
    type V = StateView;

    open spec fn view(&self) -> StateView {
        StateView {
            stderr: self.stderr,
            socket: self.socket,
            file: self.file,
            proc_name: match self.proc_name {
                Some(name) => Some(name@),
                None => None,
            },
        }
    }
}

/// The log of a process, through its life.
#[derive(Debug)]
pub enum Syslog {
    /// `init` was not called yet.
    NeverInitialized,
    /// `init` asked for a connection and waits for it.
    Initializing,
    /// The one attempt to initialize has failed.
    Poisoned,
    /// The log is in use.
    Initialized(State),
}

/// A `Syslog` with the view of its state.
pub enum SyslogView {
    NeverInitialized,
    Initializing,
    Poisoned,
    Initialized(StateView),
}

impl View for Syslog {
    type V = SyslogView;

    open spec fn view(&self) -> SyslogView {
        match self {
            Syslog::NeverInitialized => SyslogView::NeverInitialized,
            Syslog::Initializing => SyslogView::Initializing,
            Syslog::Poisoned => SyslogView::Poisoned,
            Syslog::Initialized(state) => SyslogView::Initialized(state@),
        }
    }
}

impl StateView {
    /// The state in which the log starts: records go to the system logger and to stderr.
    pub open spec fn initial(socket: i32, arg0: Option<Seq<u8>>) -> StateView {
        StateView {
            stderr: true,
            socket: Some(socket),
            file: None,
            proc_name: default_proc_name(arg0),
        }
    }

    /// The descriptors that the log owns.
    pub open spec fn fds(self) -> Seq<i32> {
        (match self.socket {
            Some(fd) => seq![fd],
            None => Seq::empty(),
        }) + (match self.file {
            Some(fd) => seq![fd],
            None => Seq::empty(),
        })
    }
}

impl SyslogView {
    /// What `init` leaves to be done.
    pub open spec fn init_step(self) -> InitStep {
        match self {
            SyslogView::NeverInitialized => InitStep::Connect,
            SyslogView::Initialized(_) => InitStep::Done(Ok(())),
            _ => InitStep::Done(Err(Error::Poisoned)),
        }
    }

    /// The log after `init`: it is changed by the first call only.
    pub open spec fn after_init(self) -> SyslogView {
        match self {
            SyslogView::NeverInitialized => SyslogView::Initializing,
            _ => self,
        }
    }

    /// The log once it was tried to open the connection that `init` asked for.
    pub open spec fn after_connect(
        socket: Result<i32, Error>,
        arg0: Option<Seq<u8>>,
    ) -> SyslogView {
        match socket {
            Ok(fd) => SyslogView::Initialized(StateView::initial(fd, arg0)),
            Err(_) => SyslogView::Poisoned,
        }
    }

    /// Why a log without a state has none: the attempt to initialize has failed, or there was
    /// none that is over.
    pub open spec fn uninitialized_error(self) -> Error {
        match self {
            SyslogView::Poisoned => Error::Poisoned,
            _ => Error::NeverInitialized,
        }
    }

    /// What `echo_syslog` leaves to be done.
    pub open spec fn echo_step(self, enable: bool) -> Result<EchoStep, Error> {
        match self {
            SyslogView::Initialized(state) => match state.socket {
                Some(fd) => if enable {
                    Ok(EchoStep::Done)
                } else {
                    Ok(EchoStep::Close { fd })
                },
                None => if enable {
                    Ok(EchoStep::Connect)
                } else {
                    Ok(EchoStep::Done)
                },
            },
            _ => Err(self.uninitialized_error()),
        }
    }

    /// The log after `echo_syslog`: disabling gives the connection up.
    pub open spec fn after_echo(self, enable: bool) -> SyslogView {
        if enable {
            self
        } else {
            self.with_socket(None)
        }
    }

    /// The log is initialized and has a connection.
    pub open spec fn is_connected(self) -> bool {
        self matches SyslogView::Initialized(state) && state.socket is Some
    }

    /// The log after a change to its state. Without a state there is nothing to change.
    pub open spec fn update(self, change: spec_fn(StateView) -> StateView) -> SyslogView {
        match self {
            SyslogView::Initialized(state) => SyslogView::Initialized(change(state)),
            _ => self,
        }
    }

    /// The log with another process name.
    pub open spec fn with_proc_name(self, name: Seq<char>) -> SyslogView {
        self.update(|state: StateView| StateView { proc_name: Some(name), ..state })
    }

    /// The log with another file.
    pub open spec fn with_file(self, file: Option<i32>) -> SyslogView {
        self.update(|state: StateView| StateView { file, ..state })
    }

    /// The log with or without stderr.
    pub open spec fn with_stderr(self, enable: bool) -> SyslogView {
        self.update(|state: StateView| StateView { stderr: enable, ..state })
    }

    /// The log with another connection.
    pub open spec fn with_socket(self, socket: Option<i32>) -> SyslogView {
        self.update(|state: StateView| StateView { socket, ..state })
    }

    /// The descriptors that the log owns.
    pub open spec fn fds(self) -> Seq<i32> {
        match self {
            SyslogView::Initialized(state) => state.fds(),
            _ => Seq::empty(),
        }
    }
}

impl State {
    /// The state in which the log starts, once it was tried to open a connection.
    pub fn new(socket: Result<i32, Error>, arg0: Option<&[u8]>) -> (state: Result<State, Error>)
        ensures
            match socket {
                Ok(fd) => state matches Ok(s) && s@ == StateView::initial(fd, arg0_view(arg0)),
                Err(e) => state matches Err(r) && r == e,
            },
    {
        let s: i32 = match socket {
            Ok(fd) => fd,
            Err(e) => {
                return Err(e);
            },
        };
        Ok(State { stderr: true, socket: Some(s), file: None, proc_name: get_proc_name(arg0) })
    }
}

/// What `init` leaves to be done.
#[derive(Debug)]
pub enum InitStep {
    /// Open a connection, and hand it to `init_connected`.
    Connect,
    /// Nothing: initialization is over, for better or worse.
    Done(Result<(), Error>),
}

/// Initializes the log.
///
/// This should only be called once per process before any other threads have been spawned or
/// any signal handlers have been registered. Every call made after the first will have no effect
/// besides return `Ok` or `Err` appropriately. The connection that the first call asks for must
/// have been handed to `init_connected` before the second.
pub fn init(syslog: &mut Syslog) -> (step: InitStep)
    requires
        old(syslog)@ !is Initializing,
    ensures
        step == old(syslog)@.init_step(),
        final(syslog)@ == old(syslog)@.after_init(),
{
    match syslog {
        Syslog::NeverInitialized => {
            *syslog = Syslog::Initializing;
            InitStep::Connect
        },
        Syslog::Initialized(_) => InitStep::Done(Ok(())),
        _ => InitStep::Done(Err(Error::Poisoned)),
    }
}

/// Concludes the initialization that `init` began, with the connection that it asked for and the
/// first argument of the process.
pub fn init_connected(
    syslog: &mut Syslog,
    socket: Result<i32, Error>,
    arg0: Option<&[u8]>,
) -> (result: Result<(), Error>)
    requires
        old(syslog)@ is Initializing,
    ensures
        final(syslog)@ == SyslogView::after_connect(socket, arg0_view(arg0)),
        match socket {
            Ok(_) => result == Ok::<(), Error>(()),
            Err(e) => result == Err::<(), Error>(e),
        },
{
    match State::new(socket, arg0) {
        Ok(state) => {
            *syslog = Syslog::Initialized(state);
            Ok(())
        },
        Err(e) => {
            *syslog = Syslog::Poisoned;
            Err(e)
        },
    }
}

/// The state of the log, if it was initialized. If it was not, the error tells a failed attempt
/// from one that was never made.
pub fn lock(syslog: &mut Syslog) -> (state: Result<&mut State, Error>)
    ensures
        match state {
            Ok(s) => *old(syslog) == Syslog::Initialized(*s) && *final(syslog)
                == Syslog::Initialized(*final(s)),
            Err(e) => {
                &&& e == old(syslog)@.uninitialized_error()
                &&& old(syslog)@ !is Initialized
                &&& *final(syslog) == *old(syslog)
            },
        },
{
    match syslog {
        Syslog::Initialized(state) => Ok(state),
        Syslog::Poisoned => Err(Error::Poisoned),
        _ => Err(Error::NeverInitialized),
    }
}

/// Replaces the process name reported in each syslog message.
///
/// Does nothing if the log was never initialized.
pub fn set_proc_name(syslog: &mut Syslog, proc_name: String)
    ensures
        final(syslog)@ == old(syslog)@.with_proc_name(proc_name@),
{
    match lock(syslog) {
        Ok(state) => {
            state.proc_name = Some(proc_name);
        },
        Err(_) => {},
    }
}

/// What `echo_syslog` leaves to be done.
#[derive(Debug)]
pub enum EchoStep {
    /// Nothing: the echo is as it was asked for.
    Done,
    /// Have libc close its connection, which was at `fd`. The descriptor is libc's own.
    Close { fd: i32 },
    /// Open a connection, and hand it to `echo_syslog_connected`.
    Connect,
}

/// Enables or disables echoing log messages to the syslog.
///
/// The default behavior is **enabled**.
///
/// If `enable` goes from `true` to `false`, the syslog connection is closed. The connection is
/// reopened if `enable` is set to `true` after it became `false`.
///
/// Returns an error if the log was never initialized or if its initialization has failed.
pub fn echo_syslog(syslog: &mut Syslog, enable: bool) -> (step: Result<EchoStep, Error>)
    ensures
        step == old(syslog)@.echo_step(enable),
        final(syslog)@ == old(syslog)@.after_echo(enable),
{
    match lock(syslog) {
        Ok(state) => {
            if enable {
                match state.socket {
                    Some(_) => Ok(EchoStep::Done),
                    None => Ok(EchoStep::Connect),
                }
            } else {
                match state.socket.take() {
                    Some(fd) => Ok(EchoStep::Close { fd }),
                    None => Ok(EchoStep::Done),
                }
            }
        },
        Err(e) => Err(e),
    }
}

/// Concludes what `echo_syslog` began, with the connection that it asked for. Without one,
/// nothing is echoed to the syslog.
pub fn echo_syslog_connected(syslog: &mut Syslog, socket: Result<i32, Error>) -> (result: Result<
    (),
    Error,
>)
    requires
        old(syslog)@ is Initialized,
        !old(syslog)@.is_connected(),
    ensures
        match socket {
            Ok(fd) => result == Ok::<(), Error>(()) && final(syslog)@ == old(syslog)@.with_socket(
                Some(fd),
            ),
            Err(e) => result == Err::<(), Error>(e) && final(syslog)@ == old(syslog)@,
        },
{
    let fd: i32 = match socket {
        Ok(fd) => fd,
        Err(e) => {
            return Err(e);
        },
    };
    match lock(syslog) {
        Ok(state) => {
            state.socket = Some(fd);
            Ok(())
        },
        Err(e) => Err(e),
    }
}

/// Replaces the optional file to echo log messages to.
///
/// The default behavior is to not echo to a file. Passing `None` to this function restores that
/// behavior.
///
/// Does nothing if the log was never initialized.
pub fn echo_file(syslog: &mut Syslog, file: Option<i32>)
    ensures
        final(syslog)@ == old(syslog)@.with_file(file),
{
    match lock(syslog) {
        Ok(state) => {
            state.file = file;
        },
        Err(_) => {},
    }
}

/// Enables or disables echoing log messages to stderr.
///
/// The default behavior is **enabled**.
///
/// Does nothing if the log was never initialized.
pub fn echo_stderr(syslog: &mut Syslog, enable: bool)
    ensures
        final(syslog)@ == old(syslog)@.with_stderr(enable),
{
    match lock(syslog) {
        Ok(state) => {
            state.stderr = enable;
        },
        Err(_) => {},
    }
}

/// Retrieves the file descriptors owned by the log.
///
/// Does nothing if the log was never initialized. If there are any file descriptors, they will
/// be pushed into `fds`.
///
/// Note that the stderr file descriptor is never added, as it is not owned by the log.
pub fn push_fds(syslog: &Syslog, fds: &mut Vec<i32>)
    ensures
        final(fds)@ == old(fds)@ + syslog@.fds(),
{
    match syslog {
        Syslog::Initialized(state) => {
            match state.socket {
                Some(fd) => fds.push(fd),
                None => {},
            }
            match state.file {
                Some(fd) => fds.push(fd),
                None => {},
            }
        },
        _ => {},
    }
    assert(fds@ =~= old(fds)@ + syslog@.fds());
}

/// Only the first call of `init` asks for a connection. Once that was opened or not, every later
/// call changes nothing: it succeeds if the connection was opened, and fails if it was not.
pub proof fn law_init_happens_once(socket: Result<i32, Error>, arg0: Option<Seq<u8>>)
    ensures
        SyslogView::NeverInitialized.init_step() is Connect,
        SyslogView::NeverInitialized.after_init() is Initializing,
        ({
            let after = SyslogView::after_connect(socket, arg0);
            &&& after.after_init() == after
            &&& socket is Ok ==> after is Initialized
            &&& socket is Err ==> after is Poisoned
            &&& socket is Ok ==> after.init_step() == InitStep::Done(Ok(()))
            &&& socket is Err ==> after.init_step() == InitStep::Done(Err(Error::Poisoned))
        }),
{
}

/// After a successful initialization records go to the system logger and to stderr and to no
/// file, and the connection is the one descriptor that the log owns.
pub proof fn law_defaults(fd: i32, arg0: Option<Seq<u8>>)
    ensures
        ({
            let log = SyslogView::after_connect(Ok(fd), arg0);
            &&& log.is_connected()
            &&& log.fds() == seq![fd]
            &&& log matches SyslogView::Initialized(state)
            &&& state.stderr
            &&& state.file is None
            &&& state.proc_name == default_proc_name(arg0)
        }),
{
    let log = SyslogView::after_connect(Ok(fd), arg0);
    assert(log.fds() =~= seq![fd]);
}

/// Until the log is initialized no setting has an effect, no descriptor is owned, and the echo
/// to the syslog can not be set: the error says whether initialization has failed.
pub proof fn law_settings_need_init(
    log: SyslogView,
    name: Seq<char>,
    file: Option<i32>,
    enable: bool,
)
    requires
        log !is Initialized,
    ensures
        log.with_proc_name(name) == log,
        log.with_file(file) == log,
        log.with_stderr(enable) == log,
        log.after_echo(enable) == log,
        log.echo_step(enable) == Err::<EchoStep, Error>(
            if log is Poisoned {
                Error::Poisoned
            } else {
                Error::NeverInitialized
            },
        ),
        log.fds() == Seq::<i32>::empty(),
{
}

/// Of two values given to one setting the last one counts.
pub proof fn law_last_setting_counts(
    log: SyslogView,
    names: (Seq<char>, Seq<char>),
    files: (Option<i32>, Option<i32>),
    enables: (bool, bool),
)
    ensures
        log.with_proc_name(names.0).with_proc_name(names.1) == log.with_proc_name(names.1),
        log.with_file(files.0).with_file(files.1) == log.with_file(files.1),
        log.with_stderr(enables.0).with_stderr(enables.1) == log.with_stderr(enables.1),
{
}

/// The settings do not affect each other: in which order two of them are made does not matter.
pub proof fn law_settings_are_independent(
    log: SyslogView,
    name: Seq<char>,
    file: Option<i32>,
    stderr: bool,
    syslog: bool,
)
    ensures
        log.with_proc_name(name).with_file(file) == log.with_file(file).with_proc_name(name),
        log.with_proc_name(name).with_stderr(stderr) == log.with_stderr(stderr).with_proc_name(
            name,
        ),
        log.with_file(file).with_stderr(stderr) == log.with_stderr(stderr).with_file(file),
        log.with_proc_name(name).after_echo(syslog) == log.after_echo(syslog).with_proc_name(name),
        log.with_file(file).after_echo(syslog) == log.after_echo(syslog).with_file(file),
        log.with_stderr(stderr).after_echo(syslog) == log.after_echo(syslog).with_stderr(stderr),
        log.with_proc_name(name).echo_step(syslog) == log.echo_step(syslog),
        log.with_file(file).echo_step(syslog) == log.echo_step(syslog),
        log.with_stderr(stderr).echo_step(syslog) == log.echo_step(syslog),
{
}

/// Enabling the echo to the syslog while there is a connection changes nothing. Disabling it
/// closes that connection, and once only. Enabling it again asks for another one, with which the
/// log is as it was but for the descriptor.
pub proof fn law_echo_syslog_can_be_undone(log: SyslogView, fd: i32)
    requires
        log.is_connected(),
    ensures
        log.echo_step(true) == Ok::<EchoStep, Error>(EchoStep::Done),
        log.after_echo(true) == log,
        log.echo_step(false) matches Ok(EchoStep::Close { fd: closed }) && log.fds().first()
            == closed,
        ({
            let disabled = log.after_echo(false);
            &&& !disabled.is_connected()
            &&& disabled.after_echo(false) == disabled
            &&& disabled.echo_step(false) == Ok::<EchoStep, Error>(EchoStep::Done)
            &&& disabled.after_echo(true) == disabled
            &&& disabled.echo_step(true) == Ok::<EchoStep, Error>(EchoStep::Connect)
            &&& disabled.with_socket(Some(fd)) == log.with_socket(Some(fd))
            &&& log.fds().first() == fd ==> disabled.with_socket(Some(fd))
                == log
        }),
{
}

/// No descriptor that the log owns is negative.
pub open spec fn fds_valid(log: SyslogView) -> bool {
    forall|i: int| 0 <= i < log.fds().len() ==> log.fds()[i] >= 0
}

/// As long as only descriptors in use are handed to the log, it owns no others, whatever is
/// done to it.
pub proof fn law_fds_stay_valid(
    log: SyslogView,
    fd: i32,
    arg0: Option<Seq<u8>>,
    name: Seq<char>,
    enable: bool,
)
    requires
        fds_valid(log),
        fd >= 0,
    ensures
        fds_valid(SyslogView::after_connect(Ok(fd), arg0)),
        fds_valid(log.after_init()),
        fds_valid(log.with_proc_name(name)),
        fds_valid(log.with_file(Some(fd))),
        fds_valid(log.with_file(None)),
        fds_valid(log.with_stderr(enable)),
        fds_valid(log.after_echo(enable)),
        fds_valid(log.with_socket(Some(fd))),
{
    if let SyslogView::Initialized(state) = log {
        let fds = log.fds();
        assert(state.socket matches Some(s) ==> fds[0] == s);
        assert(state.file matches Some(f) ==> fds[fds.len() - 1] == f);
    }
}

/// A setting is what it was set to, and nothing else is changed by it.
pub proof fn law_setting_is_what_it_was_set_to(
    state: StateView,
    name: Seq<char>,
    file: Option<i32>,
    stderr: bool,
    socket: Option<i32>,
)
    ensures
        SyslogView::Initialized(state).with_proc_name(name) matches SyslogView::Initialized(new) && {
            &&& new.proc_name == Some(name)
            &&& new.file == state.file
            &&& new.stderr == state.stderr
            &&& new.socket == state.socket
        },
        SyslogView::Initialized(state).with_file(file) matches SyslogView::Initialized(new) && {
            &&& new.file == file
            &&& new.proc_name == state.proc_name
            &&& new.stderr == state.stderr
            &&& new.socket == state.socket
        },
        SyslogView::Initialized(state).with_stderr(stderr) matches SyslogView::Initialized(new) && {
            &&& new.stderr == stderr
            &&& new.file == state.file
            &&& new.proc_name == state.proc_name
            &&& new.socket == state.socket
        },
        SyslogView::Initialized(state).with_socket(socket) matches SyslogView::Initialized(new) && {
            &&& new.socket == socket
            &&& new.file == state.file
            &&& new.proc_name == state.proc_name
            &&& new.stderr == state.stderr
        },
        SyslogView::Initialized(state).after_echo(false) matches SyslogView::Initialized(new) && {
            &&& new.socket is None
            &&& new.file == state.file
            &&& new.proc_name == state.proc_name
            &&& new.stderr == state.stderr
        },
        SyslogView::Initialized(state).after_echo(true) == SyslogView::Initialized(state),
{
}

/// Without a connection, enabling the echo to the syslog asks for one and disabling it does
/// nothing; with one, enabling does nothing and disabling closes that very connection.
pub proof fn law_echo_syslog_acts_on_the_connection(state: StateView)
    ensures
        ({
            let log = SyslogView::Initialized(state);
            &&& log.is_connected() <==> state.socket is Some
            &&& state.socket is None ==> {
                &&& log.echo_step(true) == Ok::<EchoStep, Error>(EchoStep::Connect)
                &&& log.echo_step(false) == Ok::<EchoStep, Error>(EchoStep::Done)
            }
            &&& state.socket matches Some(fd) ==> {
                &&& log.echo_step(true) == Ok::<EchoStep, Error>(EchoStep::Done)
                &&& log.echo_step(false) == Ok::<EchoStep, Error>(EchoStep::Close { fd })
            }
        }),
{
}

/// The log owns its connection and its file, as far as it has them, in this order, and nothing
/// else.
pub proof fn law_fds_are_connection_and_file(state: StateView)
    ensures
        ({
            let fds = SyslogView::Initialized(state).fds();
            &&& fds.len() == (if state.socket is Some {
                1int
            } else {
                0int
            }) + (if state.file is Some {
                1int
            } else {
                0int
            })
            &&& state.socket matches Some(fd) ==> fds.first() == fd
            &&& state.file matches Some(fd) ==> fds.last() == fd
        }),
{
}

/// A log is seen as it is: each part of its state, and the whole process name.
pub proof fn law_log_is_seen_whole(state: State)
    ensures
        state@.stderr == state.stderr,
        state@.socket == state.socket,
        state@.file == state.file,
        state@.proc_name is Some <==> state.proc_name is Some,
        state.proc_name matches Some(name) ==> state@.proc_name == Some(name@),
        Syslog::Initialized(state)@ == SyslogView::Initialized(state@),
        Syslog::NeverInitialized@ is NeverInitialized,
        Syslog::Initializing@ is Initializing,
        Syslog::Poisoned@ is Poisoned,
{
}

} // verus!
