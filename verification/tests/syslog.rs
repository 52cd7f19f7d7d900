use syslog::{
    echo_file, echo_stderr, echo_syslog, echo_syslog_connected, init, init_connected, lock, log,
    openlog_and_get_socket, push_fds, set_proc_name, EchoStep, Error, Facility, InitStep,
    LocalTime, Message, OpenEvent, OpenStep, Output, Priority, Sink, Syslog, Syslogger,
};

const SOCKET: i32 = 3;

const PID: i32 = 4242;

fn now() -> LocalTime {
    LocalTime { mon: 6, mday: 4, hour: 9, min: 5, sec: 59 }
}

/// Opens a connection at `fd` through all the steps.
fn open(fd: i32) -> Result<i32, Error> {
    let mut step = openlog_and_get_socket();
    loop {
        step = match step {
            OpenStep::CloseLog => step.advance(OpenEvent::LogClosed),
            OpenStep::GetLowestFd { .. } => step.advance(OpenEvent::LowestFd(Ok(fd))),
            OpenStep::OpenLog { .. } => step.advance(OpenEvent::LogOpened),
            OpenStep::GetFlags { .. } => step.advance(OpenEvent::Flags(0)),
            OpenStep::Done(socket) => return socket,
        };
    }
}

/// Initializes the log as a process named `test` would.
fn init_log(syslog: &mut Syslog) -> Result<(), Error> {
    match init(syslog) {
        InitStep::Connect => {
            let socket = open(SOCKET);
            init_connected(syslog, socket, Some(b"/usr/bin/test"))
        }
        InitStep::Done(result) => result,
    }
}

fn initialized() -> Syslog {
    let mut syslog = Syslog::NeverInitialized;
    init_log(&mut syslog).unwrap();
    syslog
}

/// The outputs as sinks and texts.
fn texts(outputs: &Vec<Output>) -> Vec<(Sink, String)> {
    outputs
        .iter()
        .map(|o| (o.sink, String::from_utf8(o.bytes.clone()).unwrap()))
        .collect()
}

fn args(messages: &Vec<Message>) -> Vec<&str> {
    messages.iter().map(|m| m.args.as_str()).collect()
}

#[test]
fn init_syslog() {
    let mut syslog = Syslog::NeverInitialized;
    init_log(&mut syslog).unwrap();
}

#[test]
fn fds() {
    let mut syslog = Syslog::NeverInitialized;
    init_log(&mut syslog).unwrap();
    let mut fds = Vec::new();
    push_fds(&syslog, &mut fds);
    assert!(fds.len() >= 1);
    for fd in fds {
        assert!(fd >= 0);
    }
}

#[test]
fn syslog_log() {
    let syslog = initialized();
    let outputs = log(
        &syslog,
        Priority::Error,
        Facility::User,
        Some(("src/main.rs", 12)),
        "hello syslog",
        now(),
        PID,
    );
    assert_eq!(
        texts(&outputs),
        vec![
            (
                Sink::Syslog(SOCKET),
                "<11>Jul 04 09:05:59 test[4242]:  [src/main.rs:12] hello syslog".to_string()
            ),
            (Sink::Stderr, "[ERROR:src/main.rs:12] hello syslog\n".to_string()),
        ]
    );
}

#[test]
fn proc_name() {
    let mut syslog = initialized();
    let before = log(
        &syslog,
        Priority::Error,
        Facility::User,
        Some(("src/main.rs", 1)),
        "before proc name",
        now(),
        PID,
    );
    set_proc_name(&mut syslog, "sys_util-test".to_string());
    let after = log(
        &syslog,
        Priority::Error,
        Facility::User,
        Some(("src/main.rs", 2)),
        "after proc name",
        now(),
        PID,
    );
    assert!(texts(&before)[0].1.contains(" test[4242]: "));
    assert!(texts(&before)[0].1.ends_with("before proc name"));
    assert!(texts(&after)[0].1.contains(" sys_util-test[4242]: "));
    assert!(texts(&after)[0].1.ends_with("after proc name"));
}

#[test]
fn syslog_file() {
    let mut syslog = initialized();
    echo_file(&mut syslog, Some(9));

    const TEST_STR: &'static str = "hello shared memory file";
    let outputs = log(
        &syslog,
        Priority::Error,
        Facility::User,
        Some(("src/main.rs", 7)),
        TEST_STR,
        now(),
        PID,
    );

    let texts = texts(&outputs);
    assert_eq!(texts.len(), 3);
    assert_eq!(texts[1].0, Sink::File(9));
    assert!(texts[1].1.contains(TEST_STR));
    assert_eq!(texts[1].1, texts[2].1);
}

#[test]
fn macros() {
    let syslog = initialized();
    let cases = vec![
        (Priority::Error, format!("this is an error {}", 3), "<11>", "[ERROR:"),
        (Priority::Warning, format!("this is a warning {}", "uh oh"), "<12>", "[WARNING:"),
        (Priority::Info, format!("this is info {}", true), "<14>", "[INFO:"),
        (
            Priority::Debug,
            format!("this is debug info {:?}", Some("helpful stuff")),
            "<15>",
            "[DEBUG:",
        ),
    ];
    for (pri, text, prifac, name) in cases {
        let outputs = log(
            &syslog,
            pri,
            Facility::User,
            Some(("src/main.rs", 3)),
            text.as_str(),
            now(),
            PID,
        );
        let texts = texts(&outputs);
        assert!(texts[0].1.starts_with(prifac));
        assert!(texts[0].1.ends_with(text.as_str()));
        assert!(texts[1].1.starts_with(name));
        assert!(texts[1].1.contains(text.as_str()));
    }
}

#[test]
fn syslogger_char() {
    let mut syslogger = Syslogger::new(Priority::Info, Facility::Daemon);
    let mut logged = Vec::new();

    let string = "Writing chars to syslog";
    for c in string.chars() {
        syslogger.write(&[c as u8], &mut logged).expect("error writing char");
    }
    assert_eq!(logged.len(), 0);

    syslogger
        .write(&['\n' as u8], &mut logged)
        .expect("error writing newline char");
    assert_eq!(args(&logged), vec![string]);
    assert_eq!(logged[0].priority, Priority::Info);
    assert_eq!(logged[0].facility, Facility::Daemon);
}

#[test]
fn syslogger_line() {
    let mut syslogger = Syslogger::new(Priority::Info, Facility::Daemon);
    let mut logged = Vec::new();

    let s = "Writing string to syslog\n";
    let n = syslogger
        .write(&s.as_bytes(), &mut logged)
        .expect("error writing string");
    assert_eq!(n, s.len());
    assert_eq!(args(&logged), vec!["Writing string to syslog"]);
}

#[test]
fn syslogger_partial() {
    let mut syslogger = Syslogger::new(Priority::Info, Facility::Daemon);
    let mut logged = Vec::new();

    let s = "Writing partial string";
    // Should not log because there is no newline character
    syslogger
        .write(&s.as_bytes(), &mut logged)
        .expect("error writing string");
    assert_eq!(logged.len(), 0);
    syslogger.flush().expect("error flushing");
    assert_eq!(logged.len(), 0);
}

#[test]
fn init_is_tried_once() {
    let mut syslog = initialized();
    assert!(matches!(init(&mut syslog), InitStep::Done(Ok(()))));
    assert!(matches!(init(&mut syslog), InitStep::Done(Ok(()))));
    let mut fds = Vec::new();
    push_fds(&syslog, &mut fds);
    assert_eq!(fds, vec![SOCKET]);

    let mut failed = Syslog::NeverInitialized;
    assert!(matches!(init(&mut failed), InitStep::Connect));
    assert!(matches!(
        init_connected(&mut failed, Err(Error::InvalidFd), None),
        Err(Error::InvalidFd)
    ));
    assert!(matches!(init(&mut failed), InitStep::Done(Err(Error::Poisoned))));
    assert!(matches!(init(&mut failed), InitStep::Done(Err(Error::Poisoned))));
    assert!(matches!(echo_syslog(&mut failed, true), Err(Error::Poisoned)));
    assert!(matches!(echo_syslog(&mut failed, false), Err(Error::Poisoned)));
    assert!(matches!(lock(&mut failed), Err(Error::Poisoned)));
    assert!(matches!(failed, Syslog::Poisoned));
}

#[test]
fn nothing_works_before_init() {
    let mut syslog = Syslog::NeverInitialized;
    set_proc_name(&mut syslog, "name".to_string());
    echo_file(&mut syslog, Some(5));
    echo_stderr(&mut syslog, true);
    assert!(matches!(echo_syslog(&mut syslog, true), Err(Error::NeverInitialized)));
    assert!(matches!(echo_syslog(&mut syslog, false), Err(Error::NeverInitialized)));
    assert!(matches!(lock(&mut syslog), Err(Error::NeverInitialized)));
    let mut fds = vec![1];
    push_fds(&syslog, &mut fds);
    assert_eq!(fds, vec![1]);
    let outputs = log(&syslog, Priority::Alert, Facility::Kernel, None, "lost", now(), PID);
    assert_eq!(outputs.len(), 0);
    assert!(matches!(syslog, Syslog::NeverInitialized));
}

#[test]
fn echo_syslog_on_and_off() {
    let mut syslog = initialized();
    echo_file(&mut syslog, Some(8));
    let mut fds = vec![0];
    push_fds(&syslog, &mut fds);
    assert_eq!(fds, vec![0, SOCKET, 8]);

    // Enabling what is enabled keeps the connection.
    assert!(matches!(echo_syslog(&mut syslog, true), Ok(EchoStep::Done)));
    let outputs = log(&syslog, Priority::Info, Facility::User, None, "a", now(), PID);
    assert_eq!(outputs[0].sink, Sink::Syslog(SOCKET));

    assert!(matches!(echo_syslog(&mut syslog, false), Ok(EchoStep::Close { fd: SOCKET })));
    assert!(matches!(echo_syslog(&mut syslog, false), Ok(EchoStep::Done)));
    let outputs = log(&syslog, Priority::Info, Facility::User, None, "a", now(), PID);
    assert_eq!(outputs[0].sink, Sink::File(8));
    assert_eq!(outputs.len(), 2);
    let mut fds = Vec::new();
    push_fds(&syslog, &mut fds);
    assert_eq!(fds, vec![8]);

    assert!(matches!(echo_syslog(&mut syslog, true), Ok(EchoStep::Connect)));
    assert!(matches!(
        echo_syslog_connected(&mut syslog, Err(Error::InvalidFd)),
        Err(Error::InvalidFd)
    ));
    assert!(matches!(echo_syslog(&mut syslog, true), Ok(EchoStep::Connect)));
    assert!(echo_syslog_connected(&mut syslog, Ok(12)).is_ok());
    let outputs = log(&syslog, Priority::Info, Facility::User, None, "a", now(), PID);
    assert_eq!(outputs[0].sink, Sink::Syslog(12));
    assert_eq!(outputs.len(), 3);
}

#[test]
fn settings_are_independent() {
    let mut syslog = initialized();
    echo_stderr(&mut syslog, false);
    echo_file(&mut syslog, Some(5));
    echo_file(&mut syslog, Some(6));
    let outputs = log(&syslog, Priority::Notice, Facility::Mail, None, "m", now(), PID);
    assert_eq!(
        texts(&outputs),
        vec![
            (Sink::Syslog(SOCKET), "<21>Jul 04 09:05:59 test[4242]: m".to_string()),
            (Sink::File(6), "m\n".to_string()),
        ]
    );
    echo_file(&mut syslog, None);
    echo_stderr(&mut syslog, true);
    assert!(matches!(echo_syslog(&mut syslog, false), Ok(EchoStep::Close { .. })));
    let outputs = log(&syslog, Priority::Notice, Facility::Mail, None, "m", now(), PID);
    assert_eq!(texts(&outputs), vec![(Sink::Stderr, "m\n".to_string())]);
}
