//! The connection to the system logger: how it is opened, and how a record is sent over it.
//!
//! Nothing here touches a descriptor. Each procedure is a value that names the next thing to
//! do; whoever runs it does that and hands back what came of it.

use vstd::prelude::*;

use crate::error::Error;
use crate::priority::Facility;

verus! {

/// The options with which libc is asked to open its connection.
#[derive(Copy, Clone, Debug, PartialEq, Eq, Structural)]
pub struct LogOption {
    /// Connect at once (`LOG_NDELAY`).
    pub ndelay: bool,
    /// Also print to stderr (`LOG_PERROR`).
    pub perror: bool,
    /// Name the process id (`LOG_PID`).
    pub pid: bool,
}

/// The path of a file that can always be opened.
pub const NULL_PATH: &'static str = "/dev/null";

/// The next thing to do in order to open the connection through libc.
///
/// By getting the socket this way, libc's internal state gets initialized for other libraries
/// that make use of libc's syslog function. Ordinarily libc's descriptor can't be accessed, but
/// it will be the lowest one that is unused when `openlog` is called.
#[derive(Debug)]
pub enum OpenStep {
    /// Call `closelog`, in case there was already a connection.
    CloseLog,
    /// Open the file at `path`, note its descriptor, and close it again.
    GetLowestFd { path: &'static str },
    /// Call `openlog` without an identity. The connection is expected at `fd`.
    OpenLog { fd: i32, option: LogOption, facility: Facility },
    /// Ask `fcntl` for the flags of `fd`.
    GetFlags { fd: i32 },
    /// The connection is open at a descriptor, or could not be opened.
    Done(Result<i32, Error>),
}

/// What came of an `OpenStep`.
#[derive(Debug)]
pub enum OpenEvent {
    /// `closelog` returned.
    LogClosed,
    /// The descriptor that the file was opened at, or why it could not be opened.
    LowestFd(Result<i32, std::io::Error>),
    /// `openlog` returned.
    LogOpened,
    /// What `fcntl` returned.
    Flags(i32),
}

impl OpenStep {
    /// The event is an outcome of this step.
    pub open spec fn awaits(self, event: OpenEvent) -> bool {
        match self {
            OpenStep::CloseLog => event is LogClosed,
            OpenStep::GetLowestFd { .. } => event is LowestFd,
            OpenStep::OpenLog { .. } => event is LogOpened,
            OpenStep::GetFlags { .. } => event is Flags,
            OpenStep::Done(_) => false,
        }
    }

    /// The step after this one, given what came of it.
    pub open spec fn next(self, event: OpenEvent) -> OpenStep {
        match (self, event) {
            (OpenStep::CloseLog, OpenEvent::LogClosed) => OpenStep::GetLowestFd { path: NULL_PATH },
            (OpenStep::GetLowestFd { .. }, OpenEvent::LowestFd(Ok(fd))) => OpenStep::OpenLog {
                fd,
                option: LogOption { ndelay: true, perror: true, pid: true },
                facility: Facility::User,
            },
            (OpenStep::GetLowestFd { .. }, OpenEvent::LowestFd(Err(e))) => OpenStep::Done(
                Err(Error::GetLowestFd(e)),
            ),
            (OpenStep::OpenLog { fd, .. }, OpenEvent::LogOpened) => OpenStep::GetFlags { fd },
            (OpenStep::GetFlags { fd }, OpenEvent::Flags(flags)) => if flags >= 0 {
                OpenStep::Done(Ok(fd))
            } else {
                OpenStep::Done(Err(Error::InvalidFd))
            },
            (step, _) => step,
        }
    }

    /// Goes on to the step after this one, given what came of it.
    pub fn advance(self, event: OpenEvent) -> (step: OpenStep)
        requires
            self.awaits(event),
        ensures
            step == self.next(event),
    {
        match (self, event) {
            (OpenStep::CloseLog, OpenEvent::LogClosed) => OpenStep::GetLowestFd { path: NULL_PATH },
            (OpenStep::GetLowestFd { .. }, OpenEvent::LowestFd(Ok(fd))) => OpenStep::OpenLog {
                fd,
                option: LogOption { ndelay: true, perror: true, pid: true },
                facility: Facility::User,
            },
            (OpenStep::GetLowestFd { .. }, OpenEvent::LowestFd(Err(e))) => OpenStep::Done(
                Err(Error::GetLowestFd(e)),
            ),
            (OpenStep::OpenLog { fd, .. }, OpenEvent::LogOpened) => OpenStep::GetFlags { fd },
            (OpenStep::GetFlags { fd }, OpenEvent::Flags(flags)) => if flags >= 0 {
                OpenStep::Done(Ok(fd))
            } else {
                OpenStep::Done(Err(Error::InvalidFd))
            },
            (step, _) => step,
        }
    }
}

/// The first step of opening the connection.
pub fn openlog_and_get_socket() -> (step: OpenStep)
    ensures
        step == OpenStep::CloseLog,
{
    OpenStep::CloseLog
}

/// Each of the events is an outcome of the step that the ones before it lead to.
pub open spec fn open_run_valid(step: OpenStep, events: Seq<OpenEvent>) -> bool
    decreases events.len(),
{
    events.len() > 0 ==> step.awaits(events[0]) && open_run_valid(
        step.next(events[0]),
        events.drop_first(),
    )
}

/// The step that the events lead to.
pub open spec fn open_run(step: OpenStep, events: Seq<OpenEvent>) -> OpenStep
    decreases events.len(),
{
    if events.len() == 0 {
        step
    } else {
        open_run(step.next(events[0]), events.drop_first())
    }
}

/// Opening the connection ends after at most four steps. It succeeds exactly if `closelog` was
/// called, then `NULL_PATH` could be opened, then `openlog` was called, and at last `fcntl`
/// found the descriptor of `NULL_PATH` in use, which is then the connection. It fails exactly if
/// `NULL_PATH` could not be opened, with the reason for that, or if `fcntl` found nothing.
pub proof fn law_open_outcome(events: Seq<OpenEvent>)
    requires
        open_run_valid(OpenStep::CloseLog, events),
    ensures
        events.len() <= 4,
        forall|fd: i32|
            open_run(OpenStep::CloseLog, events) == OpenStep::Done(Ok(fd)) <==> {
                &&& events.len() == 4
                &&& events[0] == OpenEvent::LogClosed
                &&& events[1] == OpenEvent::LowestFd(Ok(fd))
                &&& events[2] == OpenEvent::LogOpened
                &&& events[3] matches OpenEvent::Flags(flags)
                &&& flags >= 0
            },
        forall|e: Error|
            open_run(OpenStep::CloseLog, events) == OpenStep::Done(Err(e)) <==> {
                ||| {
                    &&& e matches Error::GetLowestFd(reason)
                    &&& events.len() == 2
                    &&& events[1] == OpenEvent::LowestFd(Err(reason))
                }
                ||| {
                    &&& e == Error::InvalidFd
                    &&& events.len() == 4
                    &&& events[3] matches OpenEvent::Flags(flags)
                    &&& flags < 0
                }
            },
{
    reveal_with_fuel(open_run_valid, 6);
    reveal_with_fuel(open_run, 6);
    if events.len() >= 5 {
        let rest = events.drop_first().drop_first();
        assert(rest[0] == events[2]);
        assert(rest.drop_first()[0] == events[3]);
        assert(rest.drop_first().drop_first()[0] == events[4]);
    }
}

/// The path of the socket at which the system logger listens.
pub const SYSLOG_PATH: &'static str = "/dev/log";

/// How often it is tried to send a record.
pub const SEND_RETRY: usize = 2;

/// The kinds of failure that a send is told apart by.
#[derive(Copy, Clone, Debug, PartialEq, Eq, Structural)]
pub enum SendErrorKind {
    ConnectionRefused,
    ConnectionReset,
    ConnectionAborted,
    NotConnected,
    /// Any other kind.
    Other,
}

impl SendErrorKind {
    /// The failure means that the other end of the socket is gone.
    pub open spec fn is_lost_connection(self) -> bool {
        self != SendErrorKind::Other
    }
}

/// The next thing to do in order to send a record.
#[derive(Copy, Clone, Debug, PartialEq, Eq)]
pub enum SendStep<'a> {
    /// Send the whole of `buf` over `socket`. `left` counts the attempts that are left, with
    /// this one.
    Send { socket: i32, buf: &'a [u8], left: usize },
    /// Connect `socket` to `path` again. `left` counts the attempts that are left for `buf`.
    Connect { socket: i32, path: &'static str, buf: &'a [u8], left: usize },
    /// Nothing is left to do.
    Done,
}

/// What came of a `SendStep`.
#[derive(Copy, Clone, Debug, PartialEq, Eq, Structural)]
pub enum SendEvent {
    /// The record was sent.
    Sent,
    /// The record could not be sent.
    SendFailed(SendErrorKind),
    /// The socket is connected again.
    Connected,
    /// The socket could not be connected.
    ConnectFailed,
}

impl<'a> SendStep<'a> {
    /// The step while the given number of attempts is left.
    pub open spec fn with_attempts(socket: i32, buf: &'a [u8], left: usize) -> SendStep<'a> {
        if left > 0 {
            SendStep::Send { socket, buf, left }
        } else {
            SendStep::Done
        }
    }

    /// The first step of sending a record over a socket.
    pub open spec fn first(socket: i32, buf: &'a [u8]) -> SendStep<'a> {
        SendStep::Send { socket, buf, left: SEND_RETRY }
    }

    /// The event is an outcome of this step, which is not past its attempts.
    pub open spec fn awaits(self, event: SendEvent) -> bool {
        match self {
            SendStep::Send { left, .. } => left > 0 && (event is Sent || event is SendFailed),
            SendStep::Connect { .. } => event is Connected || event is ConnectFailed,
            SendStep::Done => false,
        }
    }

    /// The step after this one, given what came of it.
    pub open spec fn next(self, event: SendEvent) -> SendStep<'a> {
        match (self, event) {
            // A lost connection is made anew, even after the last attempt.
            (SendStep::Send { socket, buf, left }, SendEvent::SendFailed(kind)) => {
                let left = (left - 1) as usize;
                if kind.is_lost_connection() {
                    SendStep::Connect { socket, path: SYSLOG_PATH, buf, left }
                } else {
                    SendStep::with_attempts(socket, buf, left)
                }
            },
            (
                SendStep::Connect { socket, buf, left, .. },
                SendEvent::Connected,
            ) => SendStep::with_attempts(socket, buf, left),
            _ => SendStep::Done,
        }
    }

    /// Goes on to the step after this one, given what came of it.
    pub fn advance(self, event: SendEvent) -> (step: SendStep<'a>)
        requires
            self.awaits(event),
        ensures
            step == self.next(event),
    {
        let (socket, buf, left): (i32, &'a [u8], usize) = match (self, event) {
            (SendStep::Send { .. }, SendEvent::Sent) => {
                return SendStep::Done;
            },
            (SendStep::Send { socket, buf, left }, SendEvent::SendFailed(kind)) => match kind {
                SendErrorKind::ConnectionRefused
                | SendErrorKind::ConnectionReset
                | SendErrorKind::ConnectionAborted
                | SendErrorKind::NotConnected => {
                    return SendStep::Connect { socket, path: SYSLOG_PATH, buf, left: left - 1 };
                },
                SendErrorKind::Other => (socket, buf, left - 1),
            },
            (SendStep::Connect { socket, buf, left, .. }, SendEvent::Connected) => {
                (socket, buf, left)
            },
            _ => {
                return SendStep::Done;
            },
        };
        if left > 0 {
            SendStep::Send { socket, buf, left }
        } else {
            SendStep::Done
        }
    }
}

/// The first step of sending a record over the connection at a socket.
pub fn send_buf<'a>(socket: i32, buf: &'a [u8]) -> (step: SendStep<'a>)
    ensures
        step == SendStep::first(socket, buf),
{
    SendStep::Send { socket, buf, left: SEND_RETRY }
}

/// Each of the events is an outcome of the step that the ones before it lead to.
pub open spec fn send_run_valid(step: SendStep, events: Seq<SendEvent>) -> bool
    decreases events.len(),
{
    events.len() > 0 ==> step.awaits(events[0]) && send_run_valid(
        step.next(events[0]),
        events.drop_first(),
    )
}

/// The step that the events lead to.
pub open spec fn send_run<'a>(step: SendStep<'a>, events: Seq<SendEvent>) -> SendStep<'a>
    decreases events.len(),
{
    if events.len() == 0 {
        step
    } else {
        send_run(step.next(events[0]), events.drop_first())
    }
}

/// The event is an outcome of an attempt to send.
pub open spec fn is_attempt(event: SendEvent) -> bool {
    event is Sent || event is SendFailed
}

/// How many of the events are outcomes of an attempt to send.
pub open spec fn attempts(events: Seq<SendEvent>) -> nat
    decreases events.len(),
{
    if events.len() == 0 {
        0
    } else {
        (if is_attempt(events[0]) {
            1nat
        } else {
            0nat
        }) + attempts(events.drop_first())
    }
}

/// An upper bound for the events that can still follow a step.
spec fn fuel(step: SendStep) -> nat {
    match step {
        SendStep::Send { left, .. } => 2 * left as nat,
        SendStep::Connect { left, .. } => 2 * left as nat + 1,
        SendStep::Done => 0,
    }
}

/// An upper bound for the attempts that can still follow a step.
spec fn attempts_left(step: SendStep) -> nat {
    match step {
        SendStep::Send { left, .. } => left as nat,
        SendStep::Connect { left, .. } => left as nat,
        SendStep::Done => 0,
    }
}

proof fn lemma_send_bounded(step: SendStep, events: Seq<SendEvent>)
    requires
        send_run_valid(step, events),
    ensures
        attempts(events) <= attempts_left(step),
        events.len() <= fuel(step),
    decreases events.len(),
{
    if events.len() > 0 {
        lemma_send_bounded(step.next(events[0]), events.drop_first());
    }
}

/// Sending a record ends: at most `SEND_RETRY` attempts are made, each followed by at most one
/// new connection.
pub proof fn law_send_is_bounded(socket: i32, buf: &[u8], events: Seq<SendEvent>)
    requires
        send_run_valid(SendStep::first(socket, buf), events),
    ensures
        attempts(events) <= SEND_RETRY,
        events.len() <= 2 * SEND_RETRY,
{
    lemma_send_bounded(SendStep::first(socket, buf), events);
}

/// Nothing follows a record that was sent or a connection that failed, and a new connection is
/// tried exactly after a send that failed because the old one was lost: it is the event after
/// that, or else the step to take.
pub proof fn law_send_reconnects_when_lost(socket: i32, buf: &[u8], events: Seq<SendEvent>, i: int)
    requires
        send_run_valid(SendStep::first(socket, buf), events),
        0 <= i < events.len(),
    ensures
        events[i] is Sent || events[i] is ConnectFailed ==> i == events.len() - 1 && send_run(
            SendStep::first(socket, buf),
            events,
        ) == SendStep::Done,
        i + 1 < events.len() ==> (!is_attempt(events[i + 1]) <==> {
            &&& events[i] matches SendEvent::SendFailed(kind)
            &&& kind.is_lost_connection()
        }),
        i + 1 == events.len() ==> (send_run(SendStep::first(socket, buf), events) is Connect <==> {
            &&& events[i] matches SendEvent::SendFailed(kind)
            &&& kind.is_lost_connection()
        }),
        is_attempt(events[0]),
{
    law_send_is_bounded(socket, buf, events);
    reveal_with_fuel(send_run_valid, 6);
    reveal_with_fuel(send_run, 6);
    if events.len() >= 3 {
        let rest = events.drop_first().drop_first();
        assert(rest[0] == events[2]);
        if events.len() == 4 {
            assert(rest.drop_first()[0] == events[3]);
        }
    }
}

/// Sending ends only once the record was sent, once a lost connection could not be made anew, or
/// once all the attempts were made.
pub proof fn law_send_uses_its_attempts(socket: i32, buf: &[u8], events: Seq<SendEvent>)
    requires
        send_run_valid(SendStep::first(socket, buf), events),
        send_run(SendStep::first(socket, buf), events) == SendStep::Done,
    ensures
        events.len() > 0,
        events.last() is Sent || events.last() is ConnectFailed || attempts(events) == SEND_RETRY,
{
    law_send_is_bounded(socket, buf, events);
    reveal_with_fuel(send_run_valid, 6);
    reveal_with_fuel(send_run, 6);
    reveal_with_fuel(attempts, 6);
    if events.len() >= 3 {
        let rest = events.drop_first().drop_first();
        assert(rest[0] == events[2]);
        if events.len() == 4 {
            assert(rest.drop_first()[0] == events[3]);
        }
    }
}

/// The step is not about another record or another socket, and connects to `SYSLOG_PATH` only.
pub open spec fn is_about(step: SendStep, socket: i32, buf: &[u8]) -> bool {
    match step {
        SendStep::Send { socket: s, buf: b, .. } => s == socket && b == buf,
        SendStep::Connect { socket: s, path, buf: b, .. } => {
            &&& s == socket
            &&& path == SYSLOG_PATH
            &&& b == buf
        },
        SendStep::Done => true,
    }
}

proof fn lemma_send_keeps(step: SendStep, socket: i32, buf: &[u8], events: Seq<SendEvent>)
    requires
        is_about(step, socket, buf),
    ensures
        is_about(send_run(step, events), socket, buf),
    decreases events.len(),
{
    if events.len() > 0 {
        lemma_send_keeps(step.next(events[0]), socket, buf, events.drop_first());
    }
}

/// Every attempt sends the whole record over the same socket, and it is that socket which is
/// connected to `SYSLOG_PATH` again.
pub proof fn law_send_keeps_the_record(socket: i32, buf: &[u8], events: Seq<SendEvent>)
    requires
        send_run_valid(SendStep::first(socket, buf), events),
    ensures
        is_about(send_run(SendStep::first(socket, buf), events), socket, buf),
{
    lemma_send_keeps(SendStep::first(socket, buf), socket, buf, events);
}

/// Whatever descriptor the null file was opened at, libc is then asked to connect at once, to
/// print to stderr too and to name the process, as the facility of user programs, and it is that
/// descriptor which is looked at afterwards. The null file is `/dev/null`.
pub proof fn law_open_asks_for_a_connection_at_once(
    fd: i32,
    path: &'static str,
    asked_option: LogOption,
    asked_facility: Facility,
)
    ensures
        OpenStep::CloseLog.next(OpenEvent::LogClosed) matches OpenStep::GetLowestFd { path: null }
            && null@ == "/dev/null"@,
        (OpenStep::GetLowestFd { path }).next(OpenEvent::LowestFd(Ok(fd))) matches OpenStep::OpenLog {
            fd: expected,
            option,
            facility,
        } && {
            &&& expected == fd
            &&& option.ndelay && option.perror && option.pid
            &&& facility == Facility::User
        },
        (OpenStep::OpenLog { fd, option: asked_option, facility: asked_facility }).next(
            OpenEvent::LogOpened,
        ) matches OpenStep::GetFlags { fd: examined } && examined == fd,
{
}

/// Opening takes its steps in order: after one event the null file is opened, after two libc is
/// asked for a connection with all three options, after three the descriptor at which the null
/// file was opened is looked at.
pub proof fn law_open_takes_its_steps_in_order(events: Seq<OpenEvent>)
    requires
        open_run_valid(OpenStep::CloseLog, events),
    ensures
        events.len() == 1 ==> open_run(OpenStep::CloseLog, events) is GetLowestFd,
        events.len() == 2 && events[1] is LowestFd && events[1]->LowestFd_0 is Ok ==> {
            &&& open_run(OpenStep::CloseLog, events) matches OpenStep::OpenLog {
                fd,
                option,
                facility,
            }
            &&& events[1] == OpenEvent::LowestFd(Ok(fd))
            &&& option.ndelay && option.perror && option.pid
            &&& facility == Facility::User
        },
        events.len() == 3 ==> {
            &&& open_run(OpenStep::CloseLog, events) matches OpenStep::GetFlags { fd }
            &&& events[1] == OpenEvent::LowestFd(Ok(fd))
        },
{
    reveal_with_fuel(open_run_valid, 5);
    reveal_with_fuel(open_run, 5);
    if events.len() == 3 {
        assert(events.drop_first().drop_first()[0] == events[2]);
    }
}

/// A descriptor is the connection exactly if `fcntl` did not fail on it, with whatever result.
pub proof fn law_open_examines_the_descriptor(fd: i32, flags: i32)
    ensures
        flags >= 0 <==> (OpenStep::GetFlags { fd }).next(OpenEvent::Flags(flags))
            == OpenStep::Done(Ok(fd)),
        flags < 0 <==> (OpenStep::GetFlags { fd }).next(OpenEvent::Flags(flags)) == OpenStep::Done(
            Err(Error::InvalidFd),
        ),
{
}

/// The attempts that are left at a step, with the one that it is about to make.
pub open spec fn left_at(step: SendStep) -> int {
    match step {
        SendStep::Send { left, .. } => left as int,
        SendStep::Connect { left, .. } => left as int,
        SendStep::Done => 0,
    }
}

/// However many attempts are left: each attempt uses up one and a connection none; a new
/// connection is made exactly if a send failed because the old one was lost; and nothing more is
/// done exactly if the record was sent, if no connection could be made, or if no attempt is left
/// and no connection to be made.
pub proof fn law_send_counts_its_attempts(step: SendStep, event: SendEvent)
    requires
        step.awaits(event),
    ensures
        ({
            let lost = {
                ||| event == SendEvent::SendFailed(SendErrorKind::ConnectionRefused)
                ||| event == SendEvent::SendFailed(SendErrorKind::ConnectionReset)
                ||| event == SendEvent::SendFailed(SendErrorKind::ConnectionAborted)
                ||| event == SendEvent::SendFailed(SendErrorKind::NotConnected)
            };
            let left = left_at(step) - (if step is Send {
                1int
            } else {
                0int
            });
            let next = step.next(event);
            &&& next is Connect <==> lost
            &&& next is Done <==> event is Sent || event is ConnectFailed || (!lost && left == 0)
            &&& next !is Done ==> left_at(next) == left
        }),
{
}

/// No step forgets the record, the socket or the path, however many attempts are left.
pub proof fn law_send_step_keeps_the_record(
    step: SendStep,
    socket: i32,
    buf: &[u8],
    event: SendEvent,
)
    requires
        step.awaits(event),
        match step {
            SendStep::Send { socket: s, buf: b, .. } => s == socket && b == buf,
            SendStep::Connect { socket: s, buf: b, .. } => s == socket && b == buf,
            SendStep::Done => true,
        },
    ensures
        step.next(event) matches SendStep::Send { socket: s, buf: b, .. } ==> s == socket && b@
            == buf@,
        step.next(event) matches SendStep::Connect { socket: s, path, buf: b, .. } ==> s == socket
            && path@ == "/dev/log"@ && b@ == buf@,
{
}

} // verus!
