# syslog

Facilities for sending log messages to syslog, verified with Verus.

- `src/` is the library. It decides and computes: when the log may be initialized, how the
  connection to the system logger is opened and used, what a record looks like and where it
  goes, and which lines a writer has completed. It opens and writes nothing.
- `app/` keeps the one log of a process and does what the library asks for: it calls libc,
  reads the clock, and writes to the socket, to the file and to stderr.
- `tests/` runs the library on concrete values.

What is believed without proof: three functions of the standard library's strings
(`String::push`, `String::from_utf8`, `String::from_utf8_lossy`), each with the contract that
stands above it, and that a `std::io::Error` is a value that can be carried around.
