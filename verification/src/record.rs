//! Records: what a log message looks like, and where it goes.

use vstd::prelude::*;
use vstd::utf8::*;

use crate::priority::{prifac, prifac_number, Facility, Priority};
use crate::state::{State, StateView, Syslog, SyslogView};
use crate::text::{
    decimal, decimal_string, law_two_digits, lemma_encode_concat, padded_decimal, padded_string,
    record_bytes, signed_decimal, signed_string, RecordBuf, RECORD_CAPACITY,
};

verus! {

/// The parts of the local time that a record carries, with the meaning and the ranges that they
/// have in libc's `tm`.
#[derive(Copy, Clone, Debug, PartialEq, Eq, Structural)]
pub struct LocalTime {
    /// The month, counted from `0`.
    pub mon: i32,
    /// The day of the month, counted from `1`.
    pub mday: i32,
    pub hour: i32,
    pub min: i32,
    pub sec: i32,
}

impl LocalTime {
    /// The month is one of the twelve.
    pub open spec fn has_month(self) -> bool {
        0 <= self.mon < 12
    }

    /// The three letters of the month.
    pub open spec fn month_name(self) -> Seq<char> {
        match self.mon {
            0i32 => "Jan"@,
            1i32 => "Feb"@,
            2i32 => "Mar"@,
            3i32 => "Apr"@,
            4i32 => "May"@,
            5i32 => "Jun"@,
            6i32 => "Jul"@,
            7i32 => "Aug"@,
            8i32 => "Sep"@,
            9i32 => "Oct"@,
            10i32 => "Nov"@,
            _ => "Dec"@,
        }
    }

    /// The three letters of the month.
    pub fn month(self) -> (name: &'static str)
        requires
            self.has_month(),
        ensures
            name@ == self.month_name(),
    {
        match self.mon {
            0i32 => "Jan",
            1i32 => "Feb",
            2i32 => "Mar",
            3i32 => "Apr",
            4i32 => "May",
            5i32 => "Jun",
            6i32 => "Jul",
            7i32 => "Aug",
            8i32 => "Sep",
            9i32 => "Oct",
            10i32 => "Nov",
            _ => "Dec",
        }
    }
}

/// The place in the source that a message comes from: a file and a line in it.
pub open spec fn place(file_line: Option<(&str, u32)>) -> Option<(Seq<char>, u32)> {
    match file_line {
        Some((file, line)) => Some((file@, line)),
        None => None,
    }
}

/// What opens a record for the system logger: priority and facility, the time, the process.
pub open spec fn header_text(
    pri: Priority,
    fac: Facility,
    now: LocalTime,
    proc_name: Option<Seq<char>>,
    pid: i32,
) -> Seq<char> {
    "<"@ + decimal(prifac_number(pri, fac)) + ">"@ + now.month_name() + " "@ + padded_decimal(
        now.mday as int,
    ) + " "@ + padded_decimal(now.hour as int) + ":"@ + padded_decimal(now.min as int) + ":"@
        + padded_decimal(now.sec as int) + " "@ + (match proc_name {
        Some(name) => name,
        None => "-"@,
    }) + "["@ + signed_decimal(pid as int) + "]: "@
}

/// How the place of a message appears in a record for the system logger.
pub open spec fn syslog_place(file_line: Option<(Seq<char>, u32)>) -> Seq<char> {
    match file_line {
        Some((file, line)) => " ["@ + file + ":"@ + decimal(line as nat) + "] "@,
        None => Seq::empty(),
    }
}

/// How the place of a message appears, with its priority, in a record for the file and stderr.
pub open spec fn line_place(pri: Priority, file_line: Option<(Seq<char>, u32)>) -> Seq<char> {
    match file_line {
        Some((file, line)) => "["@ + pri.name() + ":"@ + file + ":"@ + decimal(line as nat) + "] "@,
        None => Seq::empty(),
    }
}

/// The text of a record for the system logger.
pub open spec fn syslog_text(
    pri: Priority,
    fac: Facility,
    file_line: Option<(Seq<char>, u32)>,
    args: Seq<char>,
    now: LocalTime,
    proc_name: Option<Seq<char>>,
    pid: i32,
) -> Seq<char> {
    header_text(pri, fac, now, proc_name, pid) + syslog_place(file_line) + args
}

/// The text of a record for the file and for stderr: one line, unless the message has more.
pub open spec fn line_text(
    pri: Priority,
    file_line: Option<(Seq<char>, u32)>,
    args: Seq<char>,
) -> Seq<char> {
    line_place(pri, file_line) + args + "\n"@
}

/// Puts a record for the system logger together. There is none if it would be too long.
pub fn syslog_record(
    pri: Priority,
    fac: Facility,
    file_line: Option<(&str, u32)>,
    args: &str,
    now: LocalTime,
    proc_name: Option<&str>,
    pid: i32,
) -> (record: Option<Vec<u8>>)
    requires
        now.has_month(),
    ensures
        ({
            let name = match proc_name {
                Some(s) => Some(s@),
                None => None,
            };
            let text = syslog_text(pri, fac, place(file_line), args@, now, name, pid);
            match record {
                Some(bytes) => record_bytes(text) == Some(bytes@),
                None => record_bytes(text) is None,
            }
        }),
{
    let mut buf: RecordBuf = RecordBuf::new();
    buf.put("<");
    buf.put(decimal_string(prifac(pri, fac) as u64).as_str());
    buf.put(">");
    buf.put(now.month());
    buf.put(" ");
    buf.put(padded_string(now.mday).as_str());
    buf.put(" ");
    buf.put(padded_string(now.hour).as_str());
    buf.put(":");
    buf.put(padded_string(now.min).as_str());
    buf.put(":");
    buf.put(padded_string(now.sec).as_str());
    buf.put(" ");
    buf.put(
        match proc_name {
            Some(name) => name,
            None => "-",
        },
    );
    buf.put("[");
    buf.put(signed_string(pid).as_str());
    buf.put("]: ");
    let ghost name = match proc_name {
        Some(s) => Some(s@),
        None => None,
    };
    let ghost header = header_text(pri, fac, now, name, pid);
    assert(buf@ =~= header);
    match file_line {
        Some((file, line)) => {
            buf.put(" [");
            buf.put(file);
            buf.put(":");
            buf.put(decimal_string(line as u64).as_str());
            buf.put("] ");
        },
        None => {},
    }
    assert(buf@ =~= header + syslog_place(place(file_line)));
    buf.put(args);
    buf.finish()
}

/// Puts a record for the file and for stderr together. There is none if it would be too long.
pub fn line_record(pri: Priority, file_line: Option<(&str, u32)>, args: &str) -> (record: Option<
    Vec<u8>,
>)
    ensures
        ({
            let text = line_text(pri, place(file_line), args@);
            match record {
                Some(bytes) => record_bytes(text) == Some(bytes@),
                None => record_bytes(text) is None,
            }
        }),
{
    let mut buf: RecordBuf = RecordBuf::new();
    match file_line {
        Some((file, line)) => {
            buf.put("[");
            buf.put(pri.as_str());
            buf.put(":");
            buf.put(file);
            buf.put(":");
            buf.put(decimal_string(line as u64).as_str());
            buf.put("] ");
        },
        None => {},
    }
    assert(buf@ =~= line_place(pri, place(file_line)));
    buf.put(args);
    buf.put("\n");
    buf.finish()
}

/// Where a record goes.
#[derive(Copy, Clone, Debug, PartialEq, Eq, Structural)]
pub enum Sink {
    /// The system logger, over the connection at the descriptor.
    Syslog(i32),
    /// The file at the descriptor.
    File(i32),
    /// The standard error stream.
    Stderr,
}

/// A record and where it goes.
#[derive(Debug)]
pub struct Output {
    pub sink: Sink,
    pub bytes: Vec<u8>,
}

impl View for Output {
    type V = (Sink, Seq<u8>);

    open spec fn view(&self) -> (Sink, Seq<u8>) {
        (self.sink, self.bytes@)
    }
}

/// The views of a sequence of outputs.
pub open spec fn output_views(outputs: Seq<Output>) -> Seq<(Sink, Seq<u8>)> {
    outputs.map_values(|output: Output| output@)
}

/// A record at a sink, if there are both.
pub open spec fn output(sink: Option<Sink>, record: Option<Seq<u8>>) -> Seq<(Sink, Seq<u8>)> {
    match (sink, record) {
        (Some(sink), Some(bytes)) => seq![(sink, bytes)],
        _ => Seq::empty(),
    }
}

/// The sink for the system logger, while records are echoed to it.
pub open spec fn syslog_sink(state: StateView) -> Option<Sink> {
    match state.socket {
        Some(fd) => Some(Sink::Syslog(fd)),
        None => None,
    }
}

/// The sink for the file, if there is one.
pub open spec fn file_sink(state: StateView) -> Option<Sink> {
    match state.file {
        Some(fd) => Some(Sink::File(fd)),
        None => None,
    }
}

/// The sink for stderr, while records are echoed to it.
pub open spec fn stderr_sink(state: StateView) -> Option<Sink> {
    if state.stderr {
        Some(Sink::Stderr)
    } else {
        None
    }
}

/// The records that a message makes for the file and for stderr.
pub open spec fn line_outputs(
    state: StateView,
    pri: Priority,
    file_line: Option<(Seq<char>, u32)>,
    args: Seq<char>,
) -> Seq<(Sink, Seq<u8>)> {
    let line = record_bytes(line_text(pri, file_line, args));
    output(file_sink(state), line) + output(stderr_sink(state), line)
}

/// The records that a message makes, in the order in which they are to be written: first to the
/// system logger, then to the file, then to stderr.
pub open spec fn log_outputs(
    log: SyslogView,
    pri: Priority,
    fac: Facility,
    file_line: Option<(Seq<char>, u32)>,
    args: Seq<char>,
    now: LocalTime,
    pid: i32,
) -> Seq<(Sink, Seq<u8>)> {
    match log {
        SyslogView::Initialized(state) => {
            let text = syslog_text(pri, fac, file_line, args, now, state.proc_name, pid);
            output(syslog_sink(state), record_bytes(text)) + line_outputs(
                state,
                pri,
                file_line,
                args,
            )
        },
        _ => Seq::empty(),
    }
}

/// A copy of the bytes.
fn copy_bytes(bytes: &Vec<u8>) -> (copy: Vec<u8>)
    ensures
        copy@ == bytes@,
{
    let copy: Vec<u8> = bytes.clone();
    assert(copy@ =~= bytes@);
    copy
}

/// Records a log message with the given details: returns what is to be written, and where.
///
/// Note that this yields nothing if the log was not initialized, and that a record that would be
/// longer than `RECORD_CAPACITY` bytes is left out.
///
/// # Arguments
/// * `pri` - The `Priority` (i.e. severity) of the log message.
/// * `fac` - The `Facility` of the log message. Usually `Facility::User` should be used.
/// * `file_line` - Optional tuple of the name of the file that generated the
///                 log and the line number within that file.
/// * `args` - The log's message to record.
/// * `now` - The local time. It is not looked at without a connection to the system logger.
/// * `pid` - The id of the process.
pub fn log(
    syslog: &Syslog,
    pri: Priority,
    fac: Facility,
    file_line: Option<(&str, u32)>,
    args: &str,
    now: LocalTime,
    pid: i32,
) -> (outputs: Vec<Output>)
    requires
        syslog@.is_connected() ==> now.has_month(),
    ensures
        output_views(outputs@) == log_outputs(
            syslog@,
            pri,
            fac,
            place(file_line),
            args@,
            now,
            pid,
        ),
{
    let mut outputs: Vec<Output> = Vec::new();
    let state: &State = match syslog {
        Syslog::Initialized(state) => state,
        _ => {
            assert(output_views(outputs@) =~= Seq::empty());
            return outputs;
        },
    };
    match state.socket {
        Some(fd) => {
            let proc_name: Option<&str> = match &state.proc_name {
                Some(name) => Some(name.as_str()),
                None => None,
            };
            match syslog_record(pri, fac, file_line, args, now, proc_name, pid) {
                Some(bytes) => {
                    outputs.push(Output { sink: Sink::Syslog(fd), bytes });
                },
                None => {},
            }
        },
        None => {},
    }
    let ghost sent = record_bytes(
        syslog_text(pri, fac, place(file_line), args@, now, state@.proc_name, pid),
    );
    assert(output_views(outputs@) =~= output(syslog_sink(state@), sent));
    match line_record(pri, file_line, args) {
        Some(bytes) => {
            match state.file {
                Some(fd) => {
                    outputs.push(Output { sink: Sink::File(fd), bytes: copy_bytes(&bytes) });
                },
                None => {},
            }
            if state.stderr {
                outputs.push(Output { sink: Sink::Stderr, bytes });
            }
        },
        None => {},
    }
    assert(output_views(outputs@) =~= output(syslog_sink(state@), sent) + line_outputs(
        state@,
        pri,
        place(file_line),
        args@,
    ));
    outputs
}

/// Until the log is initialized, no message makes a record.
pub proof fn law_log_needs_init(
    log: SyslogView,
    pri: Priority,
    fac: Facility,
    file_line: Option<(Seq<char>, u32)>,
    args: Seq<char>,
    now: LocalTime,
    pid: i32,
)
    requires
        log !is Initialized,
    ensures
        log_outputs(log, pri, fac, file_line, args, now, pid) == Seq::<(Sink, Seq<u8>)>::empty(),
{
}

/// Records go where they are asked to go and nowhere else: each goes to a sink that is enabled,
/// no sink gets two of one message, the system logger comes first and stderr last.
pub proof fn law_records_go_to_enabled_sinks(
    state: StateView,
    pri: Priority,
    fac: Facility,
    file_line: Option<(Seq<char>, u32)>,
    args: Seq<char>,
    now: LocalTime,
    pid: i32,
    i: int,
    j: int,
)
    requires
        0 <= i <= j < log_outputs(
            SyslogView::Initialized(state),
            pri,
            fac,
            file_line,
            args,
            now,
            pid,
        ).len(),
    ensures
        ({
            let outputs = log_outputs(
                SyslogView::Initialized(state),
                pri,
                fac,
                file_line,
                args,
                now,
                pid,
            );
            &&& match outputs[i].0 {
                Sink::Syslog(fd) => state.socket == Some(fd) && i == 0,
                Sink::File(fd) => state.file == Some(fd),
                Sink::Stderr => state.stderr && i == outputs.len() - 1,
            }
            &&& i < j ==> outputs[i].0 != outputs[j].0
        }),
{
}

/// A record of the given sink is among the outputs.
pub open spec fn has_output(outputs: Seq<(Sink, Seq<u8>)>, sink: Sink, bytes: Seq<u8>) -> bool {
    exists|i: int| 0 <= i < outputs.len() && #[trigger] outputs[i] == (sink, bytes)
}

/// Every enabled sink gets its record of a message that fits: the system logger its own, the
/// file and stderr the same line. One that does not fit is left out; it is never cut short.
pub proof fn law_enabled_sinks_get_records(
    state: StateView,
    pri: Priority,
    fac: Facility,
    file_line: Option<(Seq<char>, u32)>,
    args: Seq<char>,
    now: LocalTime,
    pid: i32,
    bytes: Seq<u8>,
)
    ensures
        ({
            let outputs = log_outputs(
                SyslogView::Initialized(state),
                pri,
                fac,
                file_line,
                args,
                now,
                pid,
            );
            let text = syslog_text(pri, fac, file_line, args, now, state.proc_name, pid);
            let line = line_text(pri, file_line, args);
            &&& state.socket matches Some(fd) ==> (has_output(outputs, Sink::Syslog(fd), bytes)
                <==> encode_utf8(text).len() <= RECORD_CAPACITY && bytes == encode_utf8(text))
            &&& state.file matches Some(fd) ==> (has_output(outputs, Sink::File(fd), bytes)
                <==> encode_utf8(line).len() <= RECORD_CAPACITY && bytes == encode_utf8(line))
            &&& state.stderr ==> (has_output(outputs, Sink::Stderr, bytes) <==> encode_utf8(
                line,
            ).len() <= RECORD_CAPACITY && bytes == encode_utf8(line))
        }),
{
    let outputs = log_outputs(
        SyslogView::Initialized(state),
        pri,
        fac,
        file_line,
        args,
        now,
        pid,
    );
    let text = syslog_text(pri, fac, file_line, args, now, state.proc_name, pid);
    let line = line_text(pri, file_line, args);
    let first = output(syslog_sink(state), record_bytes(text));
    let second = output(file_sink(state), record_bytes(line));
    if let Some(fd) = state.socket {
        if record_bytes(text) is Some {
            assert(outputs[0] == (Sink::Syslog(fd), encode_utf8(text)));
        }
    }
    if record_bytes(line) is Some {
        if let Some(fd) = state.file {
            assert(outputs[first.len() as int] == (Sink::File(fd), encode_utf8(line)));
        }
        if state.stderr {
            assert(outputs[(first.len() + second.len()) as int] == (
                Sink::Stderr,
                encode_utf8(line),
            ));
        }
    }
}

/// No record is longer than `RECORD_CAPACITY`, each is text, and each holds the whole message.
pub proof fn law_records_hold_the_message(
    log: SyslogView,
    pri: Priority,
    fac: Facility,
    file_line: Option<(Seq<char>, u32)>,
    args: Seq<char>,
    now: LocalTime,
    pid: i32,
    i: int,
)
    requires
        0 <= i < log_outputs(log, pri, fac, file_line, args, now, pid).len(),
    ensures
        ({
            let bytes = log_outputs(log, pri, fac, file_line, args, now, pid)[i].1;
            &&& bytes.len() <= RECORD_CAPACITY
            &&& valid_utf8(bytes)
            &&& exists|at: int|
                0 <= at <= bytes.len() - encode_utf8(args).len() && #[trigger] bytes.subrange(
                    at,
                    at + encode_utf8(args).len(),
                ) == encode_utf8(args)
        }),
{
    if let SyslogView::Initialized(state) = log {
        let (sink, bytes) = log_outputs(log, pri, fac, file_line, args, now, pid)[i];
        let text = syslog_text(pri, fac, file_line, args, now, state.proc_name, pid);
        let line = line_text(pri, file_line, args);
        let message = encode_utf8(args);
        let front = if sink is Syslog {
            header_text(pri, fac, now, state.proc_name, pid) + syslog_place(file_line)
        } else {
            line_place(pri, file_line)
        };
        let at = encode_utf8(front).len() as int;
        lemma_encode_concat(front, args);
        lemma_encode_concat(front + args, "\n"@);
        assert(bytes.subrange(at, at + message.len()) =~= message);
        encode_utf8_valid_utf8(text);
        encode_utf8_valid_utf8(line);
    }
}

/// A record for the file or for stderr ends in a line feed.
pub proof fn law_lines_end_in_line_feed(
    pri: Priority,
    file_line: Option<(Seq<char>, u32)>,
    args: Seq<char>,
)
    ensures
        line_text(pri, file_line, args).last() == '\n',
        encode_utf8(line_text(pri, file_line, args)).last() == 10,
{
    reveal_strlit("\n");
    let front = line_place(pri, file_line) + args;
    let end = "\n"@;
    lemma_encode_concat(front, end);
    assert(is_ascii_chars(end));
    is_ascii_chars_encode_utf8(end);
}

/// The process name that was set last is the one that the system logger is told. The file and
/// stderr are told none.
pub proof fn law_proc_name_is_reported(
    log: SyslogView,
    name: Seq<char>,
    pri: Priority,
    fac: Facility,
    file_line: Option<(Seq<char>, u32)>,
    args: Seq<char>,
    now: LocalTime,
    pid: i32,
)
    ensures
        ({
            let after = log_outputs(
                log.with_proc_name(name),
                pri,
                fac,
                file_line,
                args,
                now,
                pid,
            );
            let text = syslog_text(pri, fac, file_line, args, now, Some(name), pid);
            log matches SyslogView::Initialized(state) ==> after == output(
                syslog_sink(state),
                record_bytes(text),
            ) + line_outputs(state, pri, file_line, args)
        }),
{
}

/// A time of the calendar and the clock takes fifteen characters in a record.
pub proof fn law_time_has_fixed_width(now: LocalTime)
    requires
        now.has_month(),
        1 <= now.mday <= 31,
        0 <= now.hour < 24,
        0 <= now.min < 60,
        0 <= now.sec <= 60,
    ensures
        (now.month_name() + " "@ + padded_decimal(now.mday as int) + " "@ + padded_decimal(
            now.hour as int,
        ) + ":"@ + padded_decimal(now.min as int) + ":"@ + padded_decimal(now.sec as int)).len()
            == 15,
{
    law_two_digits(now.mday as int);
    law_two_digits(now.hour as int);
    law_two_digits(now.min as int);
    law_two_digits(now.sec as int);
    reveal_strlit(" ");
    reveal_strlit(":");
    reveal_strlit("Jan");
    reveal_strlit("Feb");
    reveal_strlit("Mar");
    reveal_strlit("Apr");
    reveal_strlit("May");
    reveal_strlit("Jun");
    reveal_strlit("Jul");
    reveal_strlit("Aug");
    reveal_strlit("Sep");
    reveal_strlit("Oct");
    reveal_strlit("Nov");
    reveal_strlit("Dec");
}

} // verus!
