use std::path::Path;

use syslog::{
    get_proc_name, line_record, openlog_and_get_socket, prifac, send_buf, syslog_record, Error,
    Facility, LocalTime, LogOption, Message, OpenEvent, OpenStep, Priority, SendErrorKind,
    SendEvent, SendStep, Syslogger, RECORD_CAPACITY, SYSLOG_PATH,
};

fn text(record: Option<Vec<u8>>) -> String {
    String::from_utf8(record.unwrap()).unwrap()
}

fn args(messages: &Vec<Message>) -> Vec<&str> {
    messages.iter().map(|m| m.args.as_str()).collect()
}

/// Writes the chunks one after the other and returns what was logged.
fn logged(chunks: &[&[u8]]) -> Vec<String> {
    let mut logger = Syslogger::new(Priority::Info, Facility::User);
    let mut messages = Vec::new();
    for chunk in chunks {
        assert_eq!(logger.write(chunk, &mut messages).unwrap(), chunk.len());
    }
    messages.into_iter().map(|m| m.args).collect()
}

#[test]
fn priorities_and_facilities() {
    let priorities = [
        (Priority::Emergency, 0, "EMERGENCY"),
        (Priority::Alert, 1, "ALERT"),
        (Priority::Critical, 2, "CRITICAL"),
        (Priority::Error, 3, "ERROR"),
        (Priority::Warning, 4, "WARNING"),
        (Priority::Notice, 5, "NOTICE"),
        (Priority::Info, 6, "INFO"),
        (Priority::Debug, 7, "DEBUG"),
    ];
    let facilities = [
        (Facility::Kernel, 0),
        (Facility::User, 1),
        (Facility::Mail, 2),
        (Facility::Daemon, 3),
        (Facility::Auth, 4),
        (Facility::Syslog, 5),
        (Facility::Lpr, 6),
        (Facility::News, 7),
        (Facility::Uucp, 8),
        (Facility::Local0, 16),
        (Facility::Local1, 17),
        (Facility::Local2, 18),
        (Facility::Local3, 19),
        (Facility::Local4, 20),
        (Facility::Local5, 21),
        (Facility::Local6, 22),
        (Facility::Local7, 23),
    ];
    for (p, code, name) in priorities {
        assert_eq!(p.code(), code);
        assert_eq!(p.to_string(), name);
        for (f, number) in facilities {
            assert_eq!(f.code(), number << 3);
            let value = prifac(p, f);
            assert_eq!(value, code | number << 3);
            assert_eq!(value & 7, code);
            assert_eq!(value >> 3, number);
        }
    }
    assert_eq!(prifac(Priority::Debug, Facility::Local7), 191);
}

#[test]
fn error_wording() {
    assert_eq!(Error::NeverInitialized.to_string(), "initialization was never attempted");
    assert_eq!(
        Error::Poisoned.to_string(),
        "initialization previously failed and cannot be retried"
    );
    assert_eq!(
        Error::InvalidFd.to_string(),
        "guess of fd for syslog connection was invalid"
    );
    let cause = || std::io::Error::new(std::io::ErrorKind::Other, "out of RAMs");
    assert_eq!(
        Error::Socket(cause()).to_string(),
        "failed to create socket: out of RAMs"
    );
    assert_eq!(
        Error::Connect(cause()).to_string(),
        "failed to connect socket: out of RAMs"
    );
    assert_eq!(
        Error::GetLowestFd(cause()).to_string(),
        "failed to get lowest file descriptor: out of RAMs"
    );
    assert_eq!(
        Error::Socket(cause()).message_for("why not"),
        "failed to create socket: why not"
    );
    assert_eq!(
        Error::Poisoned.message_for("why not"),
        "initialization previously failed and cannot be retried"
    );
}

#[test]
fn opening_the_connection() {
    let step = openlog_and_get_socket();
    assert!(matches!(step, OpenStep::CloseLog));
    let step = step.advance(OpenEvent::LogClosed);
    assert!(matches!(step, OpenStep::GetLowestFd { path: "/dev/null" }));
    let step = step.advance(OpenEvent::LowestFd(Ok(7)));
    assert!(matches!(
        step,
        OpenStep::OpenLog {
            fd: 7,
            option: LogOption { ndelay: true, perror: true, pid: true },
            facility: Facility::User,
        }
    ));
    let step = step.advance(OpenEvent::LogOpened);
    assert!(matches!(step, OpenStep::GetFlags { fd: 7 }));
    let step = step.advance(OpenEvent::Flags(0));
    assert!(matches!(step, OpenStep::Done(Ok(7))));
}

#[test]
fn opening_fails() {
    let error = std::io::Error::new(std::io::ErrorKind::NotFound, "no null");
    let step = openlog_and_get_socket()
        .advance(OpenEvent::LogClosed)
        .advance(OpenEvent::LowestFd(Err(error)));
    match step {
        OpenStep::Done(Err(Error::GetLowestFd(e))) => {
            assert_eq!(e.kind(), std::io::ErrorKind::NotFound)
        }
        _ => panic!("the reason is lost"),
    }
    let step = openlog_and_get_socket()
        .advance(OpenEvent::LogClosed)
        .advance(OpenEvent::LowestFd(Ok(7)))
        .advance(OpenEvent::LogOpened)
        .advance(OpenEvent::Flags(-1));
    assert!(matches!(step, OpenStep::Done(Err(Error::InvalidFd))));
}

#[test]
fn sending() {
    assert_eq!(SYSLOG_PATH, "/dev/log");
    let record = "<14>a record".as_bytes();
    let send = |left| SendStep::Send { socket: 7, buf: record, left };
    let connect = |left| SendStep::Connect { socket: 7, path: "/dev/log", buf: record, left };
    let first = send_buf(7, record);
    assert_eq!(first, send(2));
    assert_eq!(first.advance(SendEvent::Sent), SendStep::Done);

    // Another kind of failure is tried again, once, with the same record.
    let second = first.advance(SendEvent::SendFailed(SendErrorKind::Other));
    assert_eq!(second, send(1));
    assert_eq!(second.advance(SendEvent::Sent), SendStep::Done);
    assert_eq!(
        second.advance(SendEvent::SendFailed(SendErrorKind::Other)),
        SendStep::Done
    );

    let lost = [
        SendErrorKind::ConnectionRefused,
        SendErrorKind::ConnectionReset,
        SendErrorKind::ConnectionAborted,
        SendErrorKind::NotConnected,
    ];
    for kind in lost {
        let step = first.advance(SendEvent::SendFailed(kind));
        assert_eq!(step, connect(1));
        assert_eq!(step.advance(SendEvent::ConnectFailed), SendStep::Done);
        let again = step.advance(SendEvent::Connected);
        assert_eq!(again, send(1));
        // The connection is made anew even after the last attempt.
        let last = again.advance(SendEvent::SendFailed(kind));
        assert_eq!(last, connect(0));
        assert_eq!(last.advance(SendEvent::Connected), SendStep::Done);
        assert_eq!(last.advance(SendEvent::ConnectFailed), SendStep::Done);
    }
}

#[test]
fn process_names() {
    assert_eq!(get_proc_name(None), None);
    assert_eq!(get_proc_name(Some(b"path/to/app")), Some("app".to_string()));
    let paths = [
        "", "/", "//", ".", "..", "./", "../", "/.", "/..", "app", "/app", "./app", "../app",
        "app/", "app//", "app/.", "app/./", "app/..", "app/../", "app/../.", "a/b/../c", "...",
        "/bin/.hidden", ".hidden", "a/...", "a/.b/.", "\u{e4}/\u{f6}",
    ];
    for path in paths {
        let expected = Path::new(path)
            .file_name()
            .and_then(|name| name.to_str())
            .map(|name| name.to_string());
        assert_eq!(get_proc_name(Some(path.as_bytes())), expected);
    }
    // Only the name has to be text.
    assert_eq!(get_proc_name(Some(b"/\xff/app")), Some("app".to_string()));
    assert_eq!(get_proc_name(Some(b"/app/\xff")), None);
}

#[test]
fn numbers_in_records() {
    let record = |mon, mday, hour, min, sec, pid| {
        text(syslog_record(
            Priority::Emergency,
            Facility::Kernel,
            None,
            "",
            LocalTime { mon, mday, hour, min, sec },
            None,
            pid,
        ))
    };
    let months = [
        "Jan", "Feb", "Mar", "Apr", "May", "Jun", "Jul", "Aug", "Sep", "Oct", "Nov", "Dec",
    ];
    for mon in 0..12 {
        assert_eq!(
            record(mon, 1, 0, 0, 0, 1),
            format!("<0>{} 01 00:00:00 -[1]: ", months[mon as usize])
        );
    }
    assert_eq!(record(4, 31, 7, 8, 60, 1)[3..18].to_string(), "May 31 07:08:60");
    let numbers = [0, 1, 9, 10, 11, 59, 60, 99, 100, 1234567890, i32::MAX, -1, -9, -10, i32::MIN];
    for n in numbers {
        assert_eq!(
            record(0, n, n, n, n, n),
            format!("<0>Jan {:02} {:02}:{:02}:{:02} -[{}]: ", n, n, n, n, n)
        );
    }
}

#[test]
fn places_in_records() {
    let now = LocalTime { mon: 11, mday: 31, hour: 23, min: 59, sec: 60 };
    assert_eq!(
        text(syslog_record(
            Priority::Warning,
            Facility::Local0,
            Some(("f\u{fc}r.rs", u32::MAX)),
            "\u{2713} done",
            now,
            Some("p"),
            1
        )),
        "<132>Dec 31 23:59:60 p[1]:  [f\u{fc}r.rs:4294967295] \u{2713} done"
    );
    assert_eq!(
        text(line_record(Priority::Critical, Some(("a.rs", 0)), "x")),
        "[CRITICAL:a.rs:0] x\n"
    );
    assert_eq!(text(line_record(Priority::Critical, None, "x")), "x\n");
    assert_eq!(text(line_record(Priority::Critical, None, "")), "\n");
}

#[test]
fn records_that_do_not_fit() {
    assert_eq!(RECORD_CAPACITY, 1024);
    let fits = "x".repeat(1023);
    assert_eq!(line_record(Priority::Info, None, &fits).unwrap().len(), 1024);
    assert_eq!(line_record(Priority::Info, None, &"x".repeat(1024)), None);
    // It is bytes that count.
    assert_eq!(line_record(Priority::Info, None, &"\u{e4}".repeat(511)).unwrap().len(), 1023);
    assert_eq!(line_record(Priority::Info, None, &"\u{e4}".repeat(512)), None);

    let now = LocalTime { mon: 0, mday: 1, hour: 0, min: 0, sec: 0 };
    let header = "<14>Jan 01 00:00:00 p[1]: ".len();
    let record = |n: usize| {
        syslog_record(Priority::Info, Facility::User, None, &"x".repeat(n), now, Some("p"), 1)
    };
    assert_eq!(record(1024 - header).unwrap().len(), 1024);
    assert_eq!(record(1025 - header), None);
}

#[test]
fn lines_of_writes() {
    let nothing: Vec<String> = Vec::new();
    assert_eq!(logged(&[b""]), nothing);
    assert_eq!(logged(&[b"\n"]), nothing);
    assert_eq!(logged(&[b"\n\n"]), vec![""]);
    assert_eq!(logged(&[b"a\nb\nc"]), vec!["a", "b"]);
    assert_eq!(logged(&[b"a\nb\nc", b"d\n"]), vec!["a", "b", "cd"]);
    assert_eq!(logged(&[b"a\n\nb\n"]), vec!["a", "", "b"]);
    assert_eq!(logged(&[b"a\n\n"]), vec!["a"]);
    assert_eq!(logged(&[b"a\r\nb\r\n"]), vec!["a", "b\r"]);
    assert_eq!(logged(&[b"a\rb\n"]), vec!["a\rb"]);
    assert_eq!(logged(&[b"\r\n\n"]), vec![""]);
}

#[test]
fn lines_are_those_of_str() {
    let texts = [
        "", "a", "\n", "a\n", "\na", "a\r\n", "a\r\r\n", "\r", "\r\n", "a\r\nb\n\nc\r", "\n\n\n",
        "one\ntwo\r\nthree", "\u{e4}\n\u{f6}\r\n\u{fc}",
    ];
    for text in texts {
        let expected: Vec<String> = text.lines().map(|line| line.to_string()).collect();
        assert_eq!(logged(&[format!("{}\n", text).as_bytes()]), expected);
    }
}

#[test]
fn cuts_between_writes() {
    let text = "first line\nsecond line\nthird line\n".as_bytes();
    for i in 0..text.len() {
        for j in i..text.len() {
            assert_eq!(
                logged(&[&text[..i], &text[i..j], &text[j..]]),
                vec!["first line", "second line", "third line"]
            );
        }
    }
    // A blank line gets lost, and a carriage return is kept, where a write ends behind it.
    assert_eq!(logged(&[b"\na\n"]), vec!["", "a"]);
    assert_eq!(logged(&[b"\n", b"a\n"]), vec!["a"]);
    assert_eq!(logged(&[b"a\r\nb\n"]), vec!["a", "b"]);
    assert_eq!(logged(&[b"a\r\n", b"b\n"]), vec!["a\r", "b"]);
}

#[test]
fn invalid_text_is_replaced() {
    assert_eq!(logged(&[b"a\xffb\n"]), vec!["a\u{fffd}b"]);
    assert_eq!(logged(&["\u{e4}\n".as_bytes()]), vec!["\u{e4}"]);
    // A line feed ends the line even in the middle of a character.
    assert_eq!(logged(&[b"a\xe2\x82\nb\xf0\n"]), vec!["a\u{fffd}", "b\u{fffd}"]);
    assert_eq!(logged(&[b"\xff\n", b"\x80\n"]), vec!["\u{fffd}", "\u{fffd}"]);
    let nothing: Vec<String> = Vec::new();
    assert_eq!(logged(&[b"\xff\xe2\x82"]), nothing);
    // A character that is cut in two is not put together again.
    assert_eq!(logged(&[b"\xc3", b"\xa4\n"]), vec!["\u{fffd}\u{fffd}"]);
}

#[test]
fn text_is_written_as_it_is() {
    let mut logger = Syslogger::new(Priority::Alert, Facility::Auth);
    let mut messages = Vec::new();
    logger.write_str("\u{2713} a\nb", &mut messages);
    logger.write_str("c\n", &mut messages);
    assert_eq!(args(&messages), vec!["\u{2713} a", "bc"]);
    assert_eq!(messages[1].priority, Priority::Alert);
    assert_eq!(messages[1].facility, Facility::Auth);
}
