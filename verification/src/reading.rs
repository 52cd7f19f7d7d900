//! Reading records back: what a record says of the message that it was made of.

use vstd::prelude::*;
use vstd::utf8::*;

use crate::priority::{Facility, Priority};
use crate::record::{
    header_text, line_text, output_views, place, syslog_place, syslog_text, LocalTime, Output,
};
use crate::text::{
    decimal, decimal_value, law_decimal_is_canonical, law_padded_is_canonical,
    law_signed_is_canonical, padded_decimal, reads_integer, reads_natural, reads_padded,
    record_bytes, signed_decimal,
};

verus! {

/// The text before the first `c`, or all of it.
pub open spec fn until(text: Seq<char>, c: char) -> Seq<char>
    decreases text.len(),
{
    if text.len() == 0 || text[0] == c {
        Seq::empty()
    } else {
        seq![text[0]] + until(text.drop_first(), c)
    }
}

/// The text behind the first `c`.
pub open spec fn beyond(text: Seq<char>, c: char) -> Seq<char>
    decreases text.len(),
{
    if text.len() == 0 {
        text
    } else if text[0] == c {
        text.drop_first()
    } else {
        beyond(text.drop_first(), c)
    }
}

/// The name under which a record reports a process: a hyphen if it has none.
pub open spec fn reported_name(proc_name: Option<Seq<char>>) -> Seq<char> {
    match proc_name {
        Some(name) => name,
        None => seq!['-'],
    }
}

proof fn lemma_cut(front: Seq<char>, c: char, rest: Seq<char>)
    requires
        forall|i: int| 0 <= i < front.len() ==> front[i] != c,
    ensures
        until(front + (seq![c] + rest), c) == front,
        beyond(front + (seq![c] + rest), c) == rest,
    decreases front.len(),
{
    let text = front + (seq![c] + rest);
    if front.len() == 0 {
        assert(text.drop_first() =~= rest);
        assert(until(text, c) =~= front);
    } else {
        let shorter = front.drop_first();
        assert forall|i: int| 0 <= i < shorter.len() implies shorter[i] != c by {
            assert(shorter[i] == front[i + 1]);
        }
        lemma_cut(shorter, c, rest);
        assert(text[0] == front[0]);
        assert(text.drop_first() =~= shorter + (seq![c] + rest));
        assert(seq![front[0]] + shorter =~= front);
    }
}

/// A number holds none of the characters that separate the parts of a record.
proof fn lemma_number_holds_no_separator(s: Seq<char>, n: int, c: char)
    requires
        reads_integer(s, n) || reads_padded(s, n),
        c == '>' || c == ' ' || c == ':' || c == ']',
    ensures
        forall|i: int| 0 <= i < s.len() ==> s[i] != c,
{
    assert forall|i: int| 0 <= i < s.len() implies s[i] != c by {
        if n < 0 {
            if i > 0 {
                assert(s.skip(1)[i - 1] == s[i]);
            }
        }
    }
}

/// The month is named by its three letters, whatever the rest of the time is.
pub proof fn law_month_is_named(now: LocalTime)
    requires
        now.has_month(),
    ensures
        now.month_name() == "JanFebMarAprMayJunJulAugSepOctNovDec"@.subrange(
            3 * now.mon as int,
            3 * now.mon as int + 3,
        ),
{
    reveal_strlit("JanFebMarAprMayJunJulAugSepOctNovDec");
    reveal_strlit("Jan");
    reveal_strlit("Feb");
    reveal_strlit("Mar");
    reveal_strlit("Apr");
    reveal_strlit("May");
    reveal_strlit("Jun");
    reveal_strlit("Jul");
    reveal_strlit("Aug");
    reveal_strlit("Sep");
    reveal_strlit("Oct");
    reveal_strlit("Nov");
    reveal_strlit("Dec");
    assert(now.month_name() =~= "JanFebMarAprMayJunJulAugSepOctNovDec"@.subrange(
        3 * now.mon as int,
        3 * now.mon as int + 3,
    ));
}

/// Everything that a message was logged with can be read from its record for the system logger.
///
/// The record opens with a number in angle brackets, of which the remainder by eight is the
/// priority and the quotient the facility. The month, the day and the time of day follow, then
/// the whole name of the process and in square brackets its id, and behind a colon and a blank
/// the place of the message, if it has one, and the whole message.
pub proof fn law_syslog_record_reads_back(
    pri: Priority,
    fac: Facility,
    file_line: Option<(Seq<char>, u32)>,
    args: Seq<char>,
    now: LocalTime,
    proc_name: Option<Seq<char>>,
    pid: i32,
)
    requires
        now.has_month(),
    ensures
        ({
            let text = syslog_text(pri, fac, file_line, args, now, proc_name, pid);
            let name = reported_name(proc_name);
            let number = until(text.skip(1), '>');
            let date = beyond(text.skip(1), '>');
            let day = date.skip(4);
            let hour = beyond(day, ' ');
            let min = beyond(hour, ':');
            let sec = beyond(min, ':');
            let process = beyond(sec, ' ');
            let id = process.skip(name.len() as int + 1);
            let rest = beyond(id, ']').skip(2);
            &&& text.len() > 0 && text[0] == '<'
            &&& reads_natural(number, 8 * fac.number() + pri.number())
            &&& decimal_value(number) % 8 == pri.number()
            &&& decimal_value(number) / 8 == fac.number()
            &&& date.len() > 4 && date[3] == ' '
            &&& date.take(3) == "JanFebMarAprMayJunJulAugSepOctNovDec"@.subrange(
                3 * now.mon as int,
                3 * now.mon as int + 3,
            )
            &&& reads_padded(until(day, ' '), now.mday as int)
            &&& reads_padded(until(hour, ':'), now.hour as int)
            &&& reads_padded(until(min, ':'), now.min as int)
            &&& reads_padded(until(sec, ' '), now.sec as int)
            &&& process.len() > name.len() && process.take(name.len() as int) == name
            &&& process[name.len() as int] == '['
            &&& reads_integer(until(id, ']'), pid as int)
            &&& beyond(id, ']') == seq![':', ' '] + rest
            &&& match file_line {
                None => rest == args,
                Some((file, line)) => {
                    let digits = rest.skip(file.len() as int + 3);
                    &&& rest.len() > file.len() + 3
                    &&& rest[0] == ' ' && rest[1] == '['
                    &&& rest.subrange(2, file.len() as int + 2) == file
                    &&& rest[file.len() as int + 2] == ':'
                    &&& reads_natural(until(digits, ']'), line as nat)
                    &&& beyond(digits, ']') == seq![' '] + args
                },
            }
        }),
{
    let text = syslog_text(pri, fac, file_line, args, now, proc_name, pid);
    lemma_record_parts(pri, fac, file_line, args, now, proc_name, pid);
    lemma_parts_read_back(text, pri, fac, file_line, args, now, proc_name, pid);
}

/// What is made of the parts of a record reads back as what those are for.
proof fn lemma_parts_read_back(
    text: Seq<char>,
    pri: Priority,
    fac: Facility,
    file_line: Option<(Seq<char>, u32)>,
    args: Seq<char>,
    now: LocalTime,
    proc_name: Option<Seq<char>>,
    pid: i32,
)
    requires
        now.has_month(),
        text == join_parts(
            decimal((8 * fac.number() + pri.number()) as nat),
            now.month_name(),
            padded_decimal(now.mday as int),
            padded_decimal(now.hour as int),
            padded_decimal(now.min as int),
            padded_decimal(now.sec as int),
            reported_name(proc_name),
            signed_decimal(pid as int),
            syslog_place(file_line) + args,
        ),
    ensures
        ({
            let name = reported_name(proc_name);
            let number = until(text.skip(1), '>');
            let date = beyond(text.skip(1), '>');
            let day = date.skip(4);
            let hour = beyond(day, ' ');
            let min = beyond(hour, ':');
            let sec = beyond(min, ':');
            let process = beyond(sec, ' ');
            let id = process.skip(name.len() as int + 1);
            let rest = beyond(id, ']').skip(2);
            &&& text.len() > 0 && text[0] == '<'
            &&& reads_natural(number, 8 * fac.number() + pri.number())
            &&& decimal_value(number) % 8 == pri.number()
            &&& decimal_value(number) / 8 == fac.number()
            &&& date.len() > 4 && date[3] == ' '
            &&& date.take(3) == "JanFebMarAprMayJunJulAugSepOctNovDec"@.subrange(
                3 * now.mon as int,
                3 * now.mon as int + 3,
            )
            &&& reads_padded(until(day, ' '), now.mday as int)
            &&& reads_padded(until(hour, ':'), now.hour as int)
            &&& reads_padded(until(min, ':'), now.min as int)
            &&& reads_padded(until(sec, ' '), now.sec as int)
            &&& process.len() > name.len() && process.take(name.len() as int) == name
            &&& process[name.len() as int] == '['
            &&& reads_integer(until(id, ']'), pid as int)
            &&& beyond(id, ']') == seq![':', ' '] + rest
            &&& match file_line {
                None => rest == args,
                Some((file, line)) => {
                    let digits = rest.skip(file.len() as int + 3);
                    &&& rest.len() > file.len() + 3
                    &&& rest[0] == ' ' && rest[1] == '['
                    &&& rest.subrange(2, file.len() as int + 2) == file
                    &&& rest[file.len() as int + 2] == ':'
                    &&& reads_natural(until(digits, ']'), line as nat)
                    &&& beyond(digits, ']') == seq![' '] + args
                },
            }
        }),
{
    let name = reported_name(proc_name);
    let rest = syslog_place(file_line) + args;
    let n = (8 * fac.number() + pri.number()) as nat;
    let number = decimal(n);
    let month = now.month_name();
    let day = padded_decimal(now.mday as int);
    let hour = padded_decimal(now.hour as int);
    let min = padded_decimal(now.min as int);
    let sec = padded_decimal(now.sec as int);
    let id = signed_decimal(pid as int);
    law_month_is_named(now);
    reveal_strlit("JanFebMarAprMayJunJulAugSepOctNovDec");
    law_decimal_is_canonical(n);
    law_padded_is_canonical(now.mday as int);
    law_padded_is_canonical(now.hour as int);
    law_padded_is_canonical(now.min as int);
    law_padded_is_canonical(now.sec as int);
    law_signed_is_canonical(pid as int);
    lemma_number_holds_no_separator(number, n as int, '>');
    lemma_number_holds_no_separator(day, now.mday as int, ' ');
    lemma_number_holds_no_separator(hour, now.hour as int, ':');
    lemma_number_holds_no_separator(min, now.min as int, ':');
    lemma_number_holds_no_separator(sec, now.sec as int, ' ');
    lemma_number_holds_no_separator(id, pid as int, ']');
    lemma_parts_are_found(number, month, day, hour, min, sec, name, id, rest);
    lemma_place_is_found(file_line, args);
}

/// The parts of a record with what separates them, nested to the right.
#[verifier::opaque]
spec fn join_parts(
    number: Seq<char>,
    month: Seq<char>,
    day: Seq<char>,
    hour: Seq<char>,
    min: Seq<char>,
    sec: Seq<char>,
    name: Seq<char>,
    id: Seq<char>,
    rest: Seq<char>,
) -> Seq<char> {
    let from_id = id + (seq![']'] + (seq![':', ' '] + rest));
    let from_name = name + (seq!['['] + from_id);
    let from_sec = sec + (seq![' '] + from_name);
    let from_min = min + (seq![':'] + from_sec);
    let from_hour = hour + (seq![':'] + from_min);
    let from_day = day + (seq![' '] + from_hour);
    let from_month = month + (seq![' '] + from_day);
    seq!['<'] + (number + (seq!['>'] + from_month))
}

proof fn lemma_assoc(a: Seq<char>, b: Seq<char>, c: Seq<char>)
    ensures
        (a + b) + c == a + (b + c),
{
    assert((a + b) + c =~= a + (b + c));
}

/// The text of a record is made of its parts.
proof fn lemma_record_parts(
    pri: Priority,
    fac: Facility,
    file_line: Option<(Seq<char>, u32)>,
    args: Seq<char>,
    now: LocalTime,
    proc_name: Option<Seq<char>>,
    pid: i32,
)
    ensures
        syslog_text(pri, fac, file_line, args, now, proc_name, pid) == join_parts(
            decimal((8 * fac.number() + pri.number()) as nat),
            now.month_name(),
            padded_decimal(now.mday as int),
            padded_decimal(now.hour as int),
            padded_decimal(now.min as int),
            padded_decimal(now.sec as int),
            reported_name(proc_name),
            signed_decimal(pid as int),
            syslog_place(file_line) + args,
        ),
{
    reveal(join_parts);
    reveal_strlit("<");
    reveal_strlit(">");
    reveal_strlit(" ");
    reveal_strlit(":");
    reveal_strlit("[");
    reveal_strlit("]: ");
    reveal_strlit("-");
    assert("<"@ =~= seq!['<']);
    assert(">"@ =~= seq!['>']);
    assert(" "@ =~= seq![' ']);
    assert(":"@ =~= seq![':']);
    assert("["@ =~= seq!['[']);
    assert("]: "@ =~= seq![']'] + seq![':', ' ']);
    assert("-"@ =~= seq!['-']);
    let number = decimal((8 * fac.number() + pri.number()) as nat);
    let month = now.month_name();
    let day = padded_decimal(now.mday as int);
    let hour = padded_decimal(now.hour as int);
    let min = padded_decimal(now.min as int);
    let sec = padded_decimal(now.sec as int);
    let name = reported_name(proc_name);
    let id = signed_decimal(pid as int);
    let rest = syslog_place(file_line) + args;
    let (lt, gt, blank, colon, open) = (seq!['<'], seq!['>'], seq![' '], seq![':'], seq!['[']);

    let p1 = lt + number;
    let p2 = p1 + gt;
    let p3 = p2 + month;
    let p4 = p3 + blank;
    let p5 = p4 + day;
    let p6 = p5 + blank;
    let p7 = p6 + hour;
    let p8 = p7 + colon;
    let p9 = p8 + min;
    let p10 = p9 + colon;
    let p11 = p10 + sec;
    let p12 = p11 + blank;
    let p13 = p12 + name;
    let p14 = p13 + open;
    let p15 = p14 + id;
    let header = header_text(pri, fac, now, proc_name, pid);
    assert(header == p15 + "]: "@);
    let text = syslog_text(pri, fac, file_line, args, now, proc_name, pid);
    lemma_assoc(header, syslog_place(file_line), args);
    assert(text == header + rest);

    let t16 = "]: "@ + rest;
    lemma_assoc(p15, "]: "@, rest);
    lemma_assoc(seq![']'], seq![':', ' '], rest);
    let t15 = id + t16;
    lemma_assoc(p14, id, t16);
    let t14 = open + t15;
    lemma_assoc(p13, open, t15);
    let t13 = name + t14;
    lemma_assoc(p12, name, t14);
    let t12 = blank + t13;
    lemma_assoc(p11, blank, t13);
    let t11 = sec + t12;
    lemma_assoc(p10, sec, t12);
    let t10 = colon + t11;
    lemma_assoc(p9, colon, t11);
    let t9 = min + t10;
    lemma_assoc(p8, min, t10);
    let t8 = colon + t9;
    lemma_assoc(p7, colon, t9);
    let t7 = hour + t8;
    lemma_assoc(p6, hour, t8);
    let t6 = blank + t7;
    lemma_assoc(p5, blank, t7);
    let t5 = day + t6;
    lemma_assoc(p4, day, t6);
    let t4 = blank + t5;
    lemma_assoc(p3, blank, t5);
    let t3 = month + t4;
    lemma_assoc(p2, month, t4);
    let t2 = gt + t3;
    lemma_assoc(p1, gt, t3);
    lemma_assoc(lt, number, t2);
    assert(text == lt + (number + t2));
}

/// Each part is found where the separators before it say.
proof fn lemma_parts_are_found(
    number: Seq<char>,
    month: Seq<char>,
    day: Seq<char>,
    hour: Seq<char>,
    min: Seq<char>,
    sec: Seq<char>,
    name: Seq<char>,
    id: Seq<char>,
    rest: Seq<char>,
)
    requires
        month.len() == 3,
        forall|i: int| 0 <= i < number.len() ==> number[i] != '>',
        forall|i: int| 0 <= i < day.len() ==> day[i] != ' ',
        forall|i: int| 0 <= i < hour.len() ==> hour[i] != ':',
        forall|i: int| 0 <= i < min.len() ==> min[i] != ':',
        forall|i: int| 0 <= i < sec.len() ==> sec[i] != ' ',
        forall|i: int| 0 <= i < id.len() ==> id[i] != ']',
    ensures
        ({
            let text = join_parts(number, month, day, hour, min, sec, name, id, rest);
            let from_month = beyond(text.skip(1), '>');
            let from_day = from_month.skip(4);
            let from_hour = beyond(from_day, ' ');
            let from_min = beyond(from_hour, ':');
            let from_sec = beyond(from_min, ':');
            let from_name = beyond(from_sec, ' ');
            let from_id = from_name.skip(name.len() as int + 1);
            &&& text.len() > 0 && text[0] == '<'
            &&& until(text.skip(1), '>') == number
            &&& from_month.len() > 4 && from_month[3] == ' ' && from_month.take(3) == month
            &&& until(from_day, ' ') == day
            &&& until(from_hour, ':') == hour
            &&& until(from_min, ':') == min
            &&& until(from_sec, ' ') == sec
            &&& from_name.len() > name.len() && from_name.take(name.len() as int) == name
            &&& from_name[name.len() as int] == '['
            &&& until(from_id, ']') == id
            &&& beyond(from_id, ']') == seq![':', ' '] + rest
            &&& beyond(from_id, ']').skip(2) == rest
        }),
{
    reveal(join_parts);
    let from_id = id + (seq![']'] + (seq![':', ' '] + rest));
    let from_name = name + (seq!['['] + from_id);
    let from_sec = sec + (seq![' '] + from_name);
    let from_min = min + (seq![':'] + from_sec);
    let from_hour = hour + (seq![':'] + from_min);
    let from_day = day + (seq![' '] + from_hour);
    let from_month = month + (seq![' '] + from_day);
    let from_number = number + (seq!['>'] + from_month);
    assert((seq!['<'] + from_number).skip(1) =~= from_number);
    lemma_cut(number, '>', from_month);
    assert(from_month.skip(4) =~= from_day);
    assert(from_month.take(3) =~= month);
    lemma_cut(day, ' ', from_hour);
    lemma_cut(hour, ':', from_min);
    lemma_cut(min, ':', from_sec);
    lemma_cut(sec, ' ', from_name);
    assert(from_name.take(name.len() as int) =~= name);
    assert(from_name.skip(name.len() as int + 1) =~= from_id);
    lemma_cut(id, ']', seq![':', ' '] + rest);
    assert((seq![':', ' '] + rest).skip(2) =~= rest);
}

/// The place of a message and the message are found behind the header of a record.
proof fn lemma_place_is_found(file_line: Option<(Seq<char>, u32)>, args: Seq<char>)
    ensures
        ({
            let rest = syslog_place(file_line) + args;
            match file_line {
                None => rest == args,
                Some((file, line)) => {
                    let digits = rest.skip(file.len() as int + 3);
                    &&& rest.len() > file.len() + 3
                    &&& rest[0] == ' ' && rest[1] == '['
                    &&& rest.subrange(2, file.len() as int + 2) == file
                    &&& rest[file.len() as int + 2] == ':'
                    &&& reads_natural(until(digits, ']'), line as nat)
                    &&& beyond(digits, ']') == seq![' '] + args
                },
            }
        }),
{
    let rest = syslog_place(file_line) + args;
    match file_line {
        None => {
            assert(rest =~= args);
        },
        Some((file, line)) => {
            reveal_strlit(" [");
            reveal_strlit(":");
            reveal_strlit("] ");
            let number = decimal(line as nat);
            let digits = number + (seq![']'] + (seq![' '] + args));
            law_decimal_is_canonical(line as nat);
            lemma_number_holds_no_separator(number, line as int, ']');
            assert(rest =~= seq![' ', '['] + file + seq![':'] + digits);
            assert(rest.subrange(2, file.len() as int + 2) =~= file);
            assert(rest.skip(file.len() as int + 3) =~= digits);
            lemma_cut(number, ']', seq![' '] + args);
        },
    }
}

/// Everything that a line for the file or for stderr is made of can be read from it: in square
/// brackets the name of the priority, the whole name of the file and the number of the line, if
/// the message has a place; the whole message; and a line feed.
pub proof fn law_line_record_reads_back(
    pri: Priority,
    file_line: Option<(Seq<char>, u32)>,
    args: Seq<char>,
)
    ensures
        ({
            let text = line_text(pri, file_line, args);
            match file_line {
                None => text == args.push('\n'),
                Some((file, line)) => {
                    let name = pri.name();
                    let at = name.len() as int + 1;
                    let digits = text.skip(at + file.len() as int + 2);
                    &&& text.len() > at + file.len() + 2
                    &&& text[0] == '['
                    &&& text.subrange(1, at) == name
                    &&& text[at] == ':'
                    &&& text.subrange(at + 1, at + 1 + file.len() as int) == file
                    &&& text[at + 1 + file.len() as int] == ':'
                    &&& reads_natural(until(digits, ']'), line as nat)
                    &&& beyond(digits, ']') == (seq![' '] + args).push('\n')
                },
            }
        }),
{
    reveal_strlit("\n");
    let text = line_text(pri, file_line, args);
    match file_line {
        None => {
            assert(text =~= args.push('\n'));
        },
        Some((file, line)) => {
            reveal_strlit("[");
            reveal_strlit(":");
            reveal_strlit("] ");
            let name = pri.name();
            let at = name.len() as int + 1;
            let f_line = decimal(line as nat);
            let end = (seq![' '] + args).push('\n');
            let digits = f_line + (seq![']'] + end);
            law_decimal_is_canonical(line as nat);
            lemma_number_holds_no_separator(f_line, line as int, ']');
            assert(text =~= seq!['['] + name + seq![':'] + file + seq![':'] + digits);
            assert(text.subrange(1, at) =~= name);
            assert(text.subrange(at + 1, at + 1 + file.len() as int) =~= file);
            assert(text.skip(at + file.len() as int + 2) =~= digits);
            lemma_cut(f_line, ']', end);
        },
    }
}

/// Two messages that differ only in the number of their line make different lines and different
/// records.
pub proof fn law_line_numbers_tell_records_apart(
    pri: Priority,
    fac: Facility,
    file: Seq<char>,
    line: u32,
    other_line: u32,
    args: Seq<char>,
    now: LocalTime,
    proc_name: Option<Seq<char>>,
    pid: i32,
)
    requires
        line != other_line,
        now.has_month(),
    ensures
        line_text(pri, Some((file, line)), args) != line_text(pri, Some((file, other_line)), args),
        syslog_text(pri, fac, Some((file, line)), args, now, proc_name, pid) != syslog_text(
            pri,
            fac,
            Some((file, other_line)),
            args,
            now,
            proc_name,
            pid,
        ),
{
    law_line_record_reads_back(pri, Some((file, line)), args);
    law_line_record_reads_back(pri, Some((file, other_line)), args);
    law_syslog_record_reads_back(pri, fac, Some((file, line)), args, now, proc_name, pid);
    law_syslog_record_reads_back(pri, fac, Some((file, other_line)), args, now, proc_name, pid);
}

/// Messages that differ only in their text make different lines and different records.
pub proof fn law_messages_tell_records_apart(
    pri: Priority,
    fac: Facility,
    file_line: Option<(Seq<char>, u32)>,
    args: Seq<char>,
    other_args: Seq<char>,
    now: LocalTime,
    proc_name: Option<Seq<char>>,
    pid: i32,
)
    requires
        args != other_args,
        now.has_month(),
    ensures
        line_text(pri, file_line, args) != line_text(pri, file_line, other_args),
        syslog_text(pri, fac, file_line, args, now, proc_name, pid) != syslog_text(
            pri,
            fac,
            file_line,
            other_args,
            now,
            proc_name,
            pid,
        ),
{
    law_line_record_reads_back(pri, file_line, args);
    law_line_record_reads_back(pri, file_line, other_args);
    law_syslog_record_reads_back(pri, fac, file_line, args, now, proc_name, pid);
    law_syslog_record_reads_back(pri, fac, file_line, other_args, now, proc_name, pid);
    if args.push('\n') == other_args.push('\n') {
        assert(args =~= args.push('\n').drop_last());
        assert(other_args =~= other_args.push('\n').drop_last());
    }
    let a = seq![' '] + args;
    let b = seq![' '] + other_args;
    if a.push('\n') == b.push('\n') {
        assert(a =~= a.push('\n').drop_last());
        assert(b =~= b.push('\n').drop_last());
    }
    if a == b {
        assert(args =~= a.skip(1));
        assert(other_args =~= b.skip(1));
    }
}

/// A record decodes to its text, of which nothing is missing, and there is one exactly if the
/// text takes no more than 1024 bytes.
pub proof fn law_record_decodes_to_its_text(text: Seq<char>)
    ensures
        record_bytes(text) is Some <==> encode_utf8(text).len() <= 1024,
        record_bytes(text) matches Some(bytes) ==> valid_utf8(bytes) && decode_utf8(bytes) == text,
{
    encode_utf8_valid_utf8(text);
    encode_utf8_decode_utf8(text);
}

/// The place of a message is the file and the line that it was given, and the outputs are seen
/// one for one, each with its sink and its bytes.
pub proof fn law_places_and_outputs_are_seen_whole(
    file: &str,
    line: u32,
    outputs: Seq<Output>,
    i: int,
)
    ensures
        place(Some((file, line))) == Some((file@, line)),
        place(None) is None,
        output_views(outputs).len() == outputs.len(),
        0 <= i < outputs.len() ==> {
            &&& output_views(outputs)[i].0 == outputs[i].sink
            &&& output_views(outputs)[i].1 == outputs[i].bytes@
        },
{
}

} // verus!
