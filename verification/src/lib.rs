//! Facilities for sending log messages to syslog.
//!
//! A [`Syslog`] is the log of a process. It starts out uninitialized, and until [`init`] was
//! called and succeeded, everything that is done to it has silently no effect. After that,
//! [`log`] turns a message into records for the system logger, for a file and for stderr.
//!
//! The library computes; it neither opens nor writes anything. Where something has to be done
//! between two decisions, a function returns the next step ([`InitStep`], [`EchoStep`],
//! [`OpenStep`], [`SendStep`]), and its caller hands back what came of it.

pub mod connection;
pub mod error;
pub mod priority;
pub mod proc_name;
pub mod reading;
pub mod record;
pub mod state;
pub mod syslogger;
pub mod text;

pub use crate::connection::{
    openlog_and_get_socket, send_buf, LogOption, OpenEvent, OpenStep, SendErrorKind, SendEvent,
    SendStep, NULL_PATH, SEND_RETRY, SYSLOG_PATH,
};
pub use crate::error::Error;
pub use crate::priority::{prifac, Facility, Priority};
pub use crate::proc_name::get_proc_name;
pub use crate::record::{line_record, log, syslog_record, LocalTime, Output, Sink};
pub use crate::state::{
    echo_file, echo_stderr, echo_syslog, echo_syslog_connected, init, init_connected, lock,
    push_fds, set_proc_name, EchoStep, InitStep, State, Syslog,
};
pub use crate::syslogger::{Message, Syslogger};
pub use crate::text::RECORD_CAPACITY;
