//! A writer that turns the bytes written to it into log messages, line by line.

use vstd::prelude::*;
use vstd::utf8::*;

use crate::priority::{Facility, Priority};

verus! {

/// The text that `String::from_utf8_lossy` makes of bytes.
pub uninterp spec fn utf8_lossy(bytes: Seq<u8>) -> Seq<char>;

/// The bytes of the ASCII range, in order. Each is a character of its own in UTF-8.
pub open spec fn ascii_bytes(bytes: Seq<u8>) -> Seq<u8> {
    bytes.filter(|b: u8| b < 128)
}

/// The characters of the ASCII range as bytes, in order.
pub open spec fn ascii_chars(text: Seq<char>) -> Seq<u8> {
    text.filter(|c: char| c < '\u{80}').map_values(|c: char| c as u8)
}

/// `String::from_utf8_lossy`: the text is determined by the bytes. Valid UTF-8 yields the text
/// that it encodes; of anything else, invalid sequences are replaced by U+FFFD. No byte of the
/// ASCII range belongs to an invalid sequence, so those come out as they are, in their order, and
/// one at the end comes out at the end. How many bytes each U+FFFD stands for is not stated.
#[verifier::external_body]
fn from_utf8_lossy(bytes: &[u8]) -> (text: String)
    ensures
        text@ == utf8_lossy(bytes@),
        valid_utf8(bytes@) ==> text@ == decode_utf8(bytes@),
        !valid_utf8(bytes@) ==> text@.contains('\u{fffd}'),
        ascii_chars(text@) == ascii_bytes(bytes@),
        bytes@.len() > 0 && bytes@.last() < 128 ==> text@.len() > 0 && text@.last()
            == bytes@.last() as char,
{
    String::from_utf8_lossy(bytes).into_owned()
}

/// The byte of a line feed.
pub const LINE_FEED: u8 = 10;

/// Where the last line feed of a text is, if there is one.
pub open spec fn last_line_feed(text: Seq<char>) -> Option<int>
    decreases text.len(),
{
    if text.len() == 0 {
        None
    } else if text.last() == '\n' {
        Some(text.len() - 1)
    } else {
        last_line_feed(text.drop_last())
    }
}

/// Where the first line feed of a text is, at or behind a position. Without one, the end.
pub open spec fn next_line_feed(text: Seq<char>, from: int) -> int
    decreases text.len() - from,
{
    if from >= text.len() {
        text.len() as int
    } else if text[from] == '\n' {
        from
    } else {
        next_line_feed(text, from + 1)
    }
}

/// A text without the carriage return at its end, if there is one.
pub open spec fn strip_carriage_return(text: Seq<char>) -> Seq<char> {
    if text.len() > 0 && text.last() == '\r' {
        text.drop_last()
    } else {
        text
    }
}

/// The lines of a text. A line ends in a line feed, or in a carriage return and a line feed,
/// which do not belong to it; the last line may do without.
pub open spec fn lines(text: Seq<char>) -> Seq<Seq<char>>
    decreases text.len(),
{
    let end = next_line_feed(text, 0);
    if text.len() == 0 {
        Seq::empty()
    } else if 0 <= end < text.len() {
        seq![strip_carriage_return(text.take(end))] + lines(text.skip(end + 1))
    } else {
        seq![text]
    }
}

/// The lines that are complete in a text: those before its last line feed.
pub open spec fn complete_lines(text: Seq<char>) -> Seq<Seq<char>> {
    match last_line_feed(text) {
        Some(at) => lines(text.take(at)),
        None => Seq::empty(),
    }
}

/// What is left of a text when its complete lines are gone: what lies behind the last line feed.
pub open spec fn incomplete_line(text: Seq<char>) -> Seq<char> {
    match last_line_feed(text) {
        Some(at) => text.skip(at + 1),
        None => text,
    }
}

/// A message to log, without a place in the source.
#[derive(Debug)]
pub struct Message {
    pub priority: Priority,
    pub facility: Facility,
    pub args: String,
}

/// A `Message` with its text as a sequence of characters.
pub struct MessageView {
    pub priority: Priority,
    pub facility: Facility,
    pub args: Seq<char>,
}

impl View for Message {
    type V = MessageView;

    open spec fn view(&self) -> MessageView {
        MessageView { priority: self.priority, facility: self.facility, args: self.args@ }
    }
}

/// The views of a sequence of messages.
pub open spec fn message_views(messages: Seq<Message>) -> Seq<MessageView> {
    messages.map_values(|message: Message| message@)
}

/// Takes bytes of text and logs each line of it as a message.
#[derive(Debug)]
pub struct Syslogger {
    buf: String,
    priority: Priority,
    facility: Facility,
}

/// A `Syslogger` with its buffer as a sequence of characters.
pub struct SysloggerView {
    /// The text that does not end in a line feed yet.
    pub buf: Seq<char>,
    pub priority: Priority,
    pub facility: Facility,
}

impl View for Syslogger {
    type V = SysloggerView;

    closed spec fn view(&self) -> SysloggerView {
        SysloggerView { buf: self.buf@, priority: self.priority, facility: self.facility }
    }
}

impl SysloggerView {
    /// The writer after a text was written to it.
    pub open spec fn after_text(self, text: Seq<char>) -> SysloggerView {
        SysloggerView { buf: incomplete_line(self.buf + text), ..self }
    }

    /// The messages that are logged when a text is written.
    pub open spec fn messages(self, text: Seq<char>) -> Seq<MessageView> {
        complete_lines(self.buf + text).map_values(
            |line: Seq<char>|
                MessageView { priority: self.priority, facility: self.facility, args: line },
        )
    }
}

proof fn lemma_last_line_feed(text: Seq<char>)
    ensures
        match last_line_feed(text) {
            Some(at) => {
                &&& 0 <= at < text.len()
                &&& text[at] == '\n'
                &&& forall|i: int| at < i < text.len() ==> text[i] != '\n'
            },
            None => forall|i: int| 0 <= i < text.len() ==> text[i] != '\n',
        },
    decreases text.len(),
{
    if text.len() == 0 || text.last() == '\n' {
    } else {
        let front = text.drop_last();
        lemma_last_line_feed(front);
        assert forall|i: int| 0 <= i < text.len() - 1 implies text[i] == front[i] by {}
    }
}

proof fn lemma_next_line_feed(text: Seq<char>, from: int)
    requires
        0 <= from <= text.len(),
    ensures
        from <= next_line_feed(text, from) <= text.len(),
        next_line_feed(text, from) < text.len() ==> text[next_line_feed(text, from)] == '\n',
        forall|i: int| from <= i < next_line_feed(text, from) ==> text[i] != '\n',
    decreases text.len() - from,
{
    if from < text.len() && text[from] != '\n' {
        lemma_next_line_feed(text, from + 1);
    }
}

proof fn lemma_last_line_feed_unique(text: Seq<char>, at: int)
    requires
        0 <= at < text.len(),
        text[at] == '\n',
        forall|i: int| at < i < text.len() ==> text[i] != '\n',
    ensures
        last_line_feed(text) == Some(at),
{
    lemma_last_line_feed(text);
    if let Some(other) = last_line_feed(text) {
        if other < at {
            assert(text[at] != '\n');
        }
        if at < other {
            assert(text[other] != '\n');
        }
    } else {
        assert(text[at] != '\n');
    }
}

proof fn lemma_no_line_feed(text: Seq<char>)
    requires
        forall|i: int| 0 <= i < text.len() ==> text[i] != '\n',
    ensures
        last_line_feed(text) is None,
{
    lemma_last_line_feed(text);
}

proof fn lemma_next_line_feed_unique(text: Seq<char>, from: int, end: int)
    requires
        0 <= from <= end <= text.len(),
        end < text.len() ==> text[end] == '\n',
        forall|i: int| from <= i < end ==> text[i] != '\n',
    ensures
        next_line_feed(text, from) == end,
{
    lemma_next_line_feed(text, from);
    let other = next_line_feed(text, from);
    if other < end {
        assert(text[other] != '\n');
    }
    if end < other {
        assert(text[end] != '\n');
    }
}

proof fn lemma_line_feed_char(c: char)
    requires
        c < '\u{80}',
        c as u8 == LINE_FEED,
    ensures
        c == '\n',
{
}

/// Text and bytes that agree on the ASCII range agree on whether there is a line feed.
proof fn lemma_line_feeds(text: Seq<char>, bytes: Seq<u8>)
    requires
        ascii_chars(text) == ascii_bytes(bytes),
    ensures
        text.contains('\n') <==> bytes.contains(LINE_FEED),
{
    let is_byte = |b: u8| b < 128;
    let is_char = |c: char| c < '\u{80}';
    let chars = text.filter(is_char);
    if text.contains('\n') {
        let i = choose|i: int| 0 <= i < text.len() && text[i] == '\n';
        text.lemma_filter_contains(is_char, i);
        let j = choose|j: int| 0 <= j < chars.len() && chars[j] == '\n';
        assert(ascii_chars(text)[j] == LINE_FEED);
        assert(ascii_bytes(bytes).contains(LINE_FEED));
        bytes.lemma_filter_contains_rev(is_byte, LINE_FEED);
    }
    if bytes.contains(LINE_FEED) {
        let i = choose|i: int| 0 <= i < bytes.len() && bytes[i] == LINE_FEED;
        bytes.lemma_filter_contains(is_byte, i);
        let j = choose|j: int|
            0 <= j < ascii_bytes(bytes).len() && ascii_bytes(bytes)[j] == LINE_FEED;
        text.lemma_filter_pred(is_char, j);
        assert(is_char(chars[j]));
        assert(ascii_chars(text)[j] == chars[j] as u8);
        lemma_line_feed_char(chars[j]);
        assert(chars.contains('\n'));
        text.lemma_filter_contains_rev(is_char, '\n');
    }
}

/// The characters of a text.
fn chars_of(text: &str) -> (chars: Vec<char>)
    ensures
        chars@ == text@,
{
    let mut chars: Vec<char> = Vec::new();
    for c in it: text.chars()
        invariant
            chars@ == text@.take(it.index()),
            it.seq() == text@,
    {
        chars.push(c);
        assert(chars@ =~= text@.take(it.index() + 1));
    }
    assert(text@.take(text@.len() as int) =~= text@);
    chars
}

/// The characters in a range, as a string.
fn string_of(chars: &Vec<char>, from: usize, to: usize) -> (s: String)
    requires
        from <= to <= chars@.len(),
    ensures
        s@ == chars@.subrange(from as int, to as int),
{
    let mut s: String = String::new();
    let mut i: usize = from;
    while i < to
        invariant
            from <= i <= to <= chars@.len(),
            s@ == chars@.subrange(from as int, i as int),
        decreases to - i,
    {
        s.push(chars[i]);
        i = i + 1;
        assert(s@ =~= chars@.subrange(from as int, i as int));
    }
    s
}

/// The views of a sequence of strings.
spec fn string_views(strings: Seq<String>) -> Seq<Seq<char>> {
    strings.map_values(|s: String| s@)
}

/// The lines of the text that ends at the given position.
fn lines_of(chars: &Vec<char>, at: usize) -> (found: Vec<String>)
    requires
        at <= chars@.len(),
    ensures
        string_views(found@) == lines(chars@.take(at as int)),
{
    let ghost text = chars@.take(at as int);
    let mut found: Vec<String> = Vec::new();
    let mut pos: usize = 0;
    assert(text.skip(0) =~= text);
    assert(string_views(found@) + lines(text) =~= lines(text));
    while pos < at
        invariant
            pos <= at <= chars@.len(),
            text == chars@.take(at as int),
            lines(text) == string_views(found@) + lines(text.skip(pos as int)),
        decreases at - pos,
    {
        let ghost rest = text.skip(pos as int);
        let ghost before = found@;
        let mut end: usize = pos;
        while end < at && chars[end] != '\n'
            invariant
                pos <= end <= at <= chars@.len(),
                forall|i: int| pos <= i < end ==> chars@[i] != '\n',
            decreases at - end,
        {
            end = end + 1;
        }
        proof {
            lemma_next_line_feed_unique(rest, 0, end - pos);
        }
        if end < at {
            let stop: usize = if end > pos && chars[end - 1] == '\r' {
                end - 1
            } else {
                end
            };
            found.push(string_of(chars, pos, stop));
            proof {
                let line = strip_carriage_return(rest.take(end - pos));
                assert(line =~= chars@.subrange(pos as int, stop as int));
                assert(text.skip(end + 1) =~= rest.skip(end - pos + 1));
                assert(string_views(found@) =~= string_views(before) + seq![line]);
                assert(string_views(before) + (seq![line] + lines(text.skip(end + 1)))
                    =~= string_views(found@) + lines(text.skip(end + 1)));
            }
            pos = end + 1;
        } else {
            found.push(string_of(chars, pos, end));
            proof {
                assert(rest =~= chars@.subrange(pos as int, end as int));
                assert(string_views(found@) =~= string_views(before) + seq![rest]);
                assert(text.skip(at as int) =~= Seq::empty());
                assert(string_views(before) + seq![rest] =~= string_views(found@) + lines(
                    text.skip(at as int),
                ));
            }
            pos = at;
        }
    }
    proof {
        assert(text.skip(pos as int) =~= Seq::empty());
        assert(string_views(found@) + Seq::empty() =~= string_views(found@));
    }
    found
}

impl Syslogger {
    /// A writer that logs with the given priority and facility. Nothing was written to it yet.
    pub fn new(p: Priority, f: Facility) -> (logger: Syslogger)
        ensures
            logger@ == (SysloggerView { buf: Seq::empty(), priority: p, facility: f }),
    {
        Syslogger { buf: String::new(), priority: p, facility: f }
    }

    /// Writes text. The messages that it completes are added to `messages`, in order.
    pub fn write_str(&mut self, text: &str, messages: &mut Vec<Message>)
        ensures
            final(self)@ == old(self)@.after_text(text@),
            message_views(final(messages)@) == message_views(old(messages)@) + old(self)@.messages(
                text@,
            ),
    {
        self.buf.append(text);
        let ghost whole = self.buf@;
        let chars: Vec<char> = chars_of(self.buf.as_str());
        let mut end: usize = chars.len();
        while end > 0 && chars[end - 1] != '\n'
            invariant
                end <= chars@.len(),
                forall|i: int| end <= i < chars@.len() ==> chars@[i] != '\n',
            decreases end,
        {
            end = end - 1;
        }
        if end == 0 {
            proof {
                lemma_no_line_feed(whole);
                assert(old(self)@.messages(text@) =~= Seq::empty());
                assert(message_views(messages@) =~= message_views(old(messages)@) + Seq::empty());
            }
            return;
        }
        let at: usize = end - 1;
        proof {
            lemma_last_line_feed_unique(whole, at as int);
        }
        let found: Vec<String> = lines_of(&chars, at);
        let ghost expected = old(self)@.messages(text@);
        let mut i: usize = 0;
        assert(expected.take(0) =~= Seq::empty());
        assert(message_views(messages@) =~= message_views(old(messages)@) + expected.take(0));
        while i < found.len()
            invariant
                i <= found@.len(),
                self.priority == old(self)@.priority,
                self.facility == old(self)@.facility,
                string_views(found@) == complete_lines(old(self)@.buf + text@),
                expected == old(self)@.messages(text@),
                message_views(messages@) == message_views(old(messages)@) + expected.take(i as int),
            decreases found@.len() - i,
        {
            let ghost before = messages@;
            messages.push(
                Message {
                    priority: self.priority,
                    facility: self.facility,
                    args: found[i].clone(),
                },
            );
            proof {
                assert(string_views(found@)[i as int] == found@[i as int]@);
                assert(message_views(messages@) =~= message_views(before).push(
                    expected[i as int],
                ));
                assert(expected.take(i + 1) =~= expected.take(i as int).push(expected[i as int]));
                assert(message_views(messages@) =~= message_views(old(messages)@) + expected.take(
                    i + 1,
                ));
            }
            i = i + 1;
        }
        proof {
            assert(string_views(found@).len() == found@.len());
            assert(expected.take(i as int) =~= expected);
            assert(chars@.subrange(at + 1, chars@.len() as int) =~= whole.skip(at + 1));
        }
        self.buf = string_of(&chars, at + 1, chars.len());
    }

    /// Writes bytes of text, of which invalid UTF-8 is replaced. The messages that they complete
    /// are added to `messages`, in order. All the bytes are taken.
    pub fn write(&mut self, buf: &[u8], messages: &mut Vec<Message>) -> (written: Result<
        usize,
        std::io::Error,
    >)
        ensures
            written matches Ok(n) && n == buf@.len(),
            final(self)@ == old(self)@.after_text(utf8_lossy(buf@)),
            message_views(final(messages)@) == message_views(old(messages)@) + old(self)@.messages(
                utf8_lossy(buf@),
            ),
            valid_utf8(buf@) ==> utf8_lossy(buf@) == decode_utf8(buf@),
            !valid_utf8(buf@) ==> utf8_lossy(buf@).contains('\u{fffd}'),
            // Whatever the bytes, those of the ASCII range are kept, line feeds among them.
            ascii_chars(utf8_lossy(buf@)) == ascii_bytes(buf@),
            utf8_lossy(buf@).contains('\n') <==> buf@.contains(LINE_FEED),
            buf@.len() > 0 && buf@.last() == LINE_FEED ==> final(self)@.buf == Seq::<char>::empty(),
            !buf@.contains(LINE_FEED) && !old(self)@.buf.contains('\n') ==> {
                &&& final(self)@.buf == old(self)@.buf + utf8_lossy(buf@)
                &&& message_views(final(messages)@) == message_views(old(messages)@)
            },
    {
        let text: String = from_utf8_lossy(buf);
        proof {
            lemma_line_feeds(text@, buf@);
            if !buf@.contains(LINE_FEED) && !self@.buf.contains('\n') {
                law_partial_line_is_kept(self@, text@);
                assert(message_views(messages@) + self@.messages(text@) =~= message_views(
                    messages@,
                ));
            }
            if buf@.len() > 0 && buf@.last() == LINE_FEED {
                let whole = self@.buf + text@;
                assert(whole.last() == '\n');
                assert(incomplete_line(whole) =~= Seq::empty());
            }
        }
        self.write_str(text.as_str(), messages);
        Ok(buf.len())
    }

    /// Does nothing: a line is logged as soon as it is complete, and not before.
    pub fn flush(&mut self) -> (result: Result<(), std::io::Error>)
        ensures
            result is Ok,
            *final(self) == *old(self),
    {
        Ok(())
    }
}

/// What follows a line feed has lines of its own.
proof fn lemma_lines_split(u: Seq<char>, v: Seq<char>)
    ensures
        lines(u.push('\n') + v) == lines(u.push('\n')) + lines(v),
    decreases u.len(),
{
    let ended = u.push('\n');
    let text = ended + v;
    lemma_next_line_feed(u, 0);
    let end = next_line_feed(u, 0);
    lemma_next_line_feed_unique(ended, 0, end);
    lemma_next_line_feed_unique(text, 0, end);
    let line = strip_carriage_return(u.take(end));
    assert(ended.take(end) =~= u.take(end));
    assert(text.take(end) =~= u.take(end));
    if end == u.len() {
        assert(ended.skip(end + 1) =~= Seq::empty());
        assert(text.skip(end + 1) =~= v);
        assert(lines(ended.skip(end + 1)) =~= Seq::empty());
        assert(lines(ended) =~= seq![line]);
    } else {
        let rest = u.skip(end + 1);
        assert(ended.skip(end + 1) =~= rest.push('\n'));
        assert(text.skip(end + 1) =~= rest.push('\n') + v);
        lemma_lines_split(rest, v);
        assert(lines(text) =~= lines(ended) + lines(v));
    }
}

/// A text whose last line is complete without a further line feed: it is not empty, and ends
/// neither in a line feed nor in a carriage return.
pub open spec fn ends_plainly(text: Seq<char>) -> bool {
    text.len() > 0 && text.last() != '\n' && text.last() != '\r'
}

/// A line feed at its end makes no difference to the lines of a text exactly if that ends
/// plainly.
proof fn lemma_final_line_feed(u: Seq<char>)
    ensures
        ends_plainly(u) <==> lines(u.push('\n')) == lines(u),
        u.len() > 0 ==> lines(u).len() > 0,
    decreases u.len(),
{
    let ended = u.push('\n');
    lemma_next_line_feed(u, 0);
    let end = next_line_feed(u, 0);
    lemma_next_line_feed_unique(ended, 0, end);
    let line = strip_carriage_return(u.take(end));
    assert(ended.take(end) =~= u.take(end));
    if end == u.len() {
        assert(u.take(end) =~= u);
        assert(ended.skip(end + 1) =~= Seq::empty());
        assert(lines(ended.skip(end + 1)) =~= Seq::empty());
        assert(lines(ended) =~= seq![line]);
        if u.len() > 0 {
            assert(lines(u) == seq![u]);
            assert(lines(ended)[0].len() == line.len());
            assert(lines(u)[0].len() == u.len());
        } else {
            assert(lines(ended).len() == 1);
            assert(lines(u).len() == 0);
        }
    } else {
        let rest = u.skip(end + 1);
        assert(ended.skip(end + 1) =~= rest.push('\n'));
        lemma_final_line_feed(rest);
        assert(lines(ended) == seq![line] + lines(rest.push('\n')));
        assert(lines(u) == seq![line] + lines(rest));
        if rest.len() > 0 {
            assert(rest.last() == u.last());
        } else {
            assert(u.last() == '\n');
        }
        if lines(ended) == lines(u) {
            assert(lines(rest.push('\n')) =~= lines(ended).skip(1));
            assert(lines(rest) =~= lines(u).skip(1));
        }
    }
}

/// What is kept back never holds a line feed.
pub proof fn law_buffer_holds_no_line_feed(logger: SysloggerView, text: Seq<char>)
    ensures
        !logger.after_text(text).buf.contains('\n'),
{
    lemma_last_line_feed(logger.buf + text);
}

proof fn lemma_lines_hold_no_line_feed(text: Seq<char>, i: int)
    requires
        0 <= i < lines(text).len(),
    ensures
        !lines(text)[i].contains('\n'),
    decreases text.len(),
{
    lemma_next_line_feed(text, 0);
    let end = next_line_feed(text, 0);
    if end < text.len() {
        if i > 0 {
            lemma_lines_hold_no_line_feed(text.skip(end + 1), i - 1);
        }
    }
}

/// No message that is logged holds a line feed.
pub proof fn law_messages_hold_no_line_feed(logger: SysloggerView, text: Seq<char>, i: int)
    requires
        0 <= i < logger.messages(text).len(),
    ensures
        !logger.messages(text)[i].args.contains('\n'),
        logger.messages(text)[i].priority == logger.priority,
        logger.messages(text)[i].facility == logger.facility,
{
    let whole = logger.buf + text;
    lemma_last_line_feed(whole);
    if let Some(at) = last_line_feed(whole) {
        lemma_lines_hold_no_line_feed(whole.take(at), i);
    }
}

/// Text without a line feed is kept back and not logged.
pub proof fn law_partial_line_is_kept(logger: SysloggerView, text: Seq<char>)
    requires
        !logger.buf.contains('\n'),
        !text.contains('\n'),
    ensures
        logger.after_text(text).buf == logger.buf + text,
        logger.messages(text) == Seq::<MessageView>::empty(),
{
    let whole = logger.buf + text;
    assert forall|i: int| 0 <= i < whole.len() implies whole[i] != '\n' by {
        if i < logger.buf.len() {
            assert(logger.buf.contains(whole[i]));
        } else {
            assert(text.contains(text[i - logger.buf.len()]));
        }
    }
    lemma_no_line_feed(whole);
    assert(logger.messages(text) =~= Seq::empty());
}

/// A line feed logs all that was kept back before it as one message, unless that is nothing, and
/// keeps nothing back.
pub proof fn law_line_feed_logs_the_line(logger: SysloggerView)
    requires
        !logger.buf.contains('\n'),
    ensures
        logger.after_text(seq!['\n']).buf == Seq::<char>::empty(),
        logger.messages(seq!['\n']) == if logger.buf.len() > 0 {
            seq![
                MessageView {
                    priority: logger.priority,
                    facility: logger.facility,
                    args: logger.buf,
                },
            ]
        } else {
            Seq::<MessageView>::empty()
        },
{
    let line = logger.buf;
    let whole = line + seq!['\n'];
    lemma_last_line_feed_unique(whole, line.len() as int);
    assert(whole.take(line.len() as int) =~= line);
    assert(whole.skip(line.len() as int + 1) =~= Seq::empty());
    assert forall|i: int| 0 <= i < line.len() implies line[i] != '\n' by {
        assert(line.contains(line[i]));
    }
    lemma_next_line_feed_unique(line, 0, line.len() as int);
    if line.len() > 0 {
        assert(lines(line) == seq![line]);
    }
    assert(logger.messages(seq!['\n']) =~= if line.len() > 0 {
        seq![
            MessageView { priority: logger.priority, facility: logger.facility, args: line },
        ]
    } else {
        Seq::<MessageView>::empty()
    });
}

/// What is kept back does not depend on how the text was cut into writes.
pub proof fn law_cuts_keep_the_buffer(logger: SysloggerView, a: Seq<char>, b: Seq<char>)
    ensures
        logger.after_text(a).after_text(b) == logger.after_text(a + b),
{
    let x = logger.buf + a;
    let whole = logger.buf + (a + b);
    let rest = incomplete_line(x) + b;
    assert(whole =~= x + b);
    lemma_last_line_feed(x);
    lemma_last_line_feed(rest);
    match last_line_feed(x) {
        Some(at) => {
            assert(rest =~= whole.skip(at + 1));
            match last_line_feed(rest) {
                Some(k) => {
                    assert(whole[at + 1 + k] == rest[k]);
                    assert forall|i: int| at + 1 + k < i < whole.len() implies whole[i] != '\n' by {
                        assert(rest[i - at - 1] == whole[i]);
                    }
                    lemma_last_line_feed_unique(whole, at + 1 + k);
                    assert(rest.skip(k + 1) =~= whole.skip(at + 1 + k + 1));
                },
                None => {
                    assert forall|i: int| at < i < whole.len() implies whole[i] != '\n' by {
                        assert(rest[i - at - 1] == whole[i]);
                    }
                    lemma_last_line_feed_unique(whole, at);
                },
            }
        },
        None => {
            assert(rest =~= whole);
        },
    }
}

/// The text before the last line feed in what is kept back and written, which is the last to be
/// logged by that write.
pub open spec fn logged_text(logger: SysloggerView, text: Seq<char>) -> Seq<char> {
    let whole = logger.buf + text;
    match last_line_feed(whole) {
        Some(at) => whole.take(at),
        None => Seq::empty(),
    }
}

/// Two writes log what one write of both texts does, exactly unless both complete a line and the
/// first one logs a text that does not end plainly: a blank line at its end gets lost, and a
/// carriage return there is not taken for a part of the line's end.
pub proof fn law_cuts_keep_the_messages(logger: SysloggerView, a: Seq<char>, b: Seq<char>)
    ensures
        logger.messages(a) + logger.after_text(a).messages(b) == logger.messages(a + b) <==> ((
        logger.buf + a).contains('\n') && b.contains('\n') ==> ends_plainly(
            logged_text(logger, a),
        )),
{
    let x = logger.buf + a;
    let whole = logger.buf + (a + b);
    let rest = incomplete_line(x) + b;
    assert(whole =~= x + b);
    lemma_last_line_feed(x);
    lemma_last_line_feed(rest);
    let two = complete_lines(x) + complete_lines(rest);
    let one = complete_lines(whole);
    match last_line_feed(x) {
        Some(at) => {
            assert(x.contains(x[at]));
            assert(rest =~= whole.skip(at + 1));
            let tail = x.len() - at - 1;
            match last_line_feed(rest) {
                Some(k) => {
                    if k < tail {
                        assert(x[at + 1 + k] == rest[k]);
                    }
                    assert(b.contains(b[k - tail]));
                    assert(whole[at + 1 + k] == rest[k]);
                    assert forall|i: int| at + 1 + k < i < whole.len() implies whole[i]
                        != '\n' by {
                        assert(rest[i - at - 1] == whole[i]);
                    }
                    lemma_last_line_feed_unique(whole, at + 1 + k);
                    let u = x.take(at);
                    let v = rest.take(k);
                    lemma_final_line_feed(u);
                    lemma_lines_split(u, v);
                    assert(whole.take(at + 1 + k) =~= u.push('\n') + v);
                    if two == one {
                        assert(two.len() == lines(u).len() + lines(v).len());
                        assert(one.len() == lines(u.push('\n')).len() + lines(v).len());
                        let n = lines(u).len() as int;
                        assert(lines(u) =~= two.take(n));
                        assert(lines(u.push('\n')) =~= one.take(n));
                    }
                },
                None => {
                    assert forall|i: int| 0 <= i < b.len() implies b[i] != '\n' by {
                        assert(rest[i + tail] == b[i]);
                    }
                    assert forall|i: int| at < i < whole.len() implies whole[i] != '\n' by {
                        assert(rest[i - at - 1] == whole[i]);
                    }
                    lemma_last_line_feed_unique(whole, at);
                    assert(whole.take(at) =~= x.take(at));
                    assert(two =~= one);
                },
            }
        },
        None => {
            assert(rest =~= whole);
            assert(two =~= one);
        },
    }
    let logged_two = logger.messages(a) + logger.after_text(a).messages(b);
    let logged_one = logger.messages(a + b);
    if two == one {
        assert(logged_two =~= logged_one);
    }
    if logged_two == logged_one {
        assert(two.len() == logged_two.len());
        assert(one.len() == logged_one.len());
        assert forall|i: int| 0 <= i < two.len() implies two[i] == one[i] by {
            assert(logged_two[i].args == two[i]);
            assert(logged_one[i].args == one[i]);
        }
        assert(two =~= one);
    }
}

/// What a text that goes on behind its first line feed has as lines.
proof fn lemma_first_line(t: Seq<char>, u: Seq<char>)
    requires
        !t.contains('\n'),
    ensures
        lines(t + (seq!['\n'] + u)) == seq![
            if t.len() > 0 && t.last() == '\r' {
                t.drop_last()
            } else {
                t
            },
        ] + lines(u),
{
    let text = t + (seq!['\n'] + u);
    assert forall|i: int| 0 <= i < t.len() implies text[i] != '\n' by {
        assert(t.contains(t[i]));
    }
    lemma_next_line_feed_unique(text, 0, t.len() as int);
    assert(text.take(t.len() as int) =~= t);
    assert(text.skip(t.len() as int + 1) =~= u);
}

/// What is written up to a line feed is one message: all the text since the line feed before, and
/// of what was kept back, less one carriage return if that is the last character and another line
/// feed follows in the same write. What comes behind that line feed is logged as if it had been
/// written alone. Behind the last line feed, all is kept back.
pub proof fn law_line_feed_ends_a_message(
    logger: SysloggerView,
    text: Seq<char>,
    t: Seq<char>,
    u: Seq<char>,
)
    requires
        logger.buf + text == t + (seq!['\n'] + u),
        !t.contains('\n'),
    ensures
        ({
            let fresh = SysloggerView {
                buf: Seq::empty(),
                priority: logger.priority,
                facility: logger.facility,
            };
            let line = if t.len() > 0 && t.last() == '\r' {
                t.drop_last()
            } else {
                t
            };
            let message = |args: Seq<char>|
                MessageView { priority: logger.priority, facility: logger.facility, args };
            &&& u.contains('\n') ==> {
                &&& logger.messages(text) == seq![message(line)] + fresh.messages(u)
                &&& logger.after_text(text) == fresh.after_text(u)
            }
            &&& !u.contains('\n') ==> {
                &&& t.len() == 0 ==> logger.messages(text) == Seq::<MessageView>::empty()
                &&& t.len() > 0 ==> logger.messages(text) == seq![message(t)]
                &&& logger.after_text(text).buf == u
                &&& logger.after_text(text).priority == logger.priority
                &&& logger.after_text(text).facility == logger.facility
            }
        }),
{
    let whole = logger.buf + text;
    let fresh = SysloggerView {
        buf: Seq::empty(),
        priority: logger.priority,
        facility: logger.facility,
    };
    let start = t.len() as int + 1;
    assert(whole.skip(start) =~= u);
    assert(fresh.buf + u =~= u);
    lemma_last_line_feed(u);
    match last_line_feed(u) {
        Some(k) => {
            assert(u.contains(u[k]));
            assert(whole[start + k] == u[k]);
            assert forall|i: int| start + k < i < whole.len() implies whole[i] != '\n' by {
                assert(u[i - start] == whole[i]);
            }
            lemma_last_line_feed_unique(whole, start + k);
            assert(whole.take(start + k) =~= t + (seq!['\n'] + u.take(k)));
            lemma_first_line(t, u.take(k));
            assert(whole.skip(start + k + 1) =~= u.skip(k + 1));
            let line = if t.len() > 0 && t.last() == '\r' {
                t.drop_last()
            } else {
                t
            };
            assert(complete_lines(whole) == seq![line] + complete_lines(u));
            assert(logger.messages(text) =~= seq![
                MessageView { priority: logger.priority, facility: logger.facility, args: line },
            ] + fresh.messages(u));
        },
        None => {
            assert forall|i: int| start - 1 < i < whole.len() implies whole[i] != '\n' by {
                assert(u[i - start] == whole[i]);
            }
            assert(whole[start - 1] == '\n');
            lemma_last_line_feed_unique(whole, start - 1);
            assert(whole.take(start - 1) =~= t);
            assert forall|i: int| 0 <= i < t.len() implies t[i] != '\n' by {
                assert(t.contains(t[i]));
            }
            lemma_next_line_feed_unique(t, 0, t.len() as int);
            if t.len() > 0 {
                assert(lines(t) == seq![t]);
                assert(logger.messages(text) =~= seq![
                    MessageView { priority: logger.priority, facility: logger.facility, args: t },
                ]);
            } else {
                assert(logger.messages(text) =~= Seq::empty());
            }
        },
    }
}

/// A line that ends in a carriage return and a line feed, before another line feed, is logged
/// whole and without those two, however long it is.
pub proof fn law_carriage_return_belongs_to_the_line_end(
    logger: SysloggerView,
    text: Seq<char>,
    t: Seq<char>,
    u: Seq<char>,
)
    requires
        logger.buf + text == t + seq!['\r', '\n'] + u + seq!['\n'],
        !t.contains('\n'),
    ensures
        logger.messages(text).len() > 0,
        logger.messages(text)[0].args == t,
{
    let front = t.push('\r');
    let rest = u.push('\n');
    assert forall|i: int| 0 <= i < front.len() implies front[i] != '\n' by {
        if i < t.len() {
            assert(t.contains(t[i]));
        }
    }
    assert(!front.contains('\n'));
    assert(rest[u.len() as int] == '\n');
    assert(rest.contains('\n'));
    assert(logger.buf + text =~= front + (seq!['\n'] + rest));
    law_line_feed_ends_a_message(logger, text, front, rest);
    assert(front.drop_last() =~= t);
}

/// The messages are seen one for one, each with its priority, its facility and its whole text.
pub proof fn law_messages_are_seen_whole(messages: Seq<Message>, i: int)
    ensures
        message_views(messages).len() == messages.len(),
        0 <= i < messages.len() ==> {
            &&& message_views(messages)[i].priority == messages[i].priority
            &&& message_views(messages)[i].facility == messages[i].facility
            &&& message_views(messages)[i].args == messages[i].args@
        },
{
}

} // verus!
