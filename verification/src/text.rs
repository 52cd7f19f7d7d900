//! Numbers as text, text as bytes, and the bounded buffer in which a record is put together.

use vstd::prelude::*;
use vstd::utf8::*;

verus! {

/// `String::push`: appends one character at the end of the string and changes nothing else.
pub assume_specification[ String::push ](s: &mut String, ch: char)
    ensures
        final(s)@ == old(s)@.push(ch),
;

/// The decimal digit of a number below ten.
pub open spec fn digit(d: nat) -> char {
    ('0' as nat + d) as char
}

/// A natural number in decimal, without leading zeros.
pub open spec fn decimal(n: nat) -> Seq<char>
    decreases n,
{
    if n < 10 {
        seq![digit(n)]
    } else {
        decimal(n / 10).push(digit(n % 10))
    }
}

/// An integer in decimal, with a leading minus if it is negative.
pub open spec fn signed_decimal(n: int) -> Seq<char> {
    if n < 0 {
        "-"@ + decimal((-n) as nat)
    } else {
        decimal(n as nat)
    }
}

/// An integer in decimal, filled up with a zero to a width of two.
pub open spec fn padded_decimal(n: int) -> Seq<char> {
    if 0 <= n < 10 {
        "0"@ + decimal(n as nat)
    } else {
        signed_decimal(n)
    }
}

/// A number below a hundred takes exactly two digits when it is filled up: its tens and its ones.
pub proof fn law_two_digits(n: int)
    requires
        0 <= n < 100,
    ensures
        padded_decimal(n) == seq![digit((n / 10) as nat), digit((n % 10) as nat)],
{
    reveal_strlit("0");
    reveal_with_fuel(decimal, 2);
    assert(padded_decimal(n) =~= seq![digit((n / 10) as nat), digit((n % 10) as nat)]);
}

/// The number that a sequence of digits stands for.
pub open spec fn decimal_value(digits: Seq<char>) -> int
    decreases digits.len(),
{
    if digits.len() == 0 {
        0
    } else {
        10 * decimal_value(digits.drop_last()) + (digits.last() as int - '0' as int)
    }
}

/// A number in decimal reads back as the number, so no two numbers look alike.
pub proof fn law_decimal_reads_back(n: nat)
    ensures
        decimal_value(decimal(n)) == n,
        decimal(n).len() > 0,
    decreases n,
{
    reveal_with_fuel(decimal_value, 2);
    if n >= 10 {
        law_decimal_reads_back(n / 10);
        assert(decimal(n).drop_last() =~= decimal(n / 10));
    }
}

/// The text is a natural number in decimal: digits that stand for it, without leading zeros.
pub open spec fn reads_natural(s: Seq<char>, n: nat) -> bool {
    &&& s.len() > 0
    &&& forall|i: int| 0 <= i < s.len() ==> '0' <= #[trigger] s[i] <= '9'
    &&& s.len() > 1 ==> s[0] != '0'
    &&& decimal_value(s) == n
}

/// The text is an integer in decimal: that of a negative one follows a minus.
pub open spec fn reads_integer(s: Seq<char>, n: int) -> bool {
    if n < 0 {
        s.len() > 0 && s[0] == '-' && reads_natural(s.skip(1), (-n) as nat)
    } else {
        reads_natural(s, n as nat)
    }
}

/// The text is an integer in decimal, of which a single digit follows a zero.
pub open spec fn reads_padded(s: Seq<char>, n: int) -> bool {
    if 0 <= n < 10 {
        s.len() == 2 && s[0] == '0' && reads_natural(s.skip(1), n as nat)
    } else {
        reads_integer(s, n)
    }
}

/// A number that does not start with a zero is not zero.
proof fn lemma_leading_digit_counts(s: Seq<char>)
    requires
        s.len() > 0,
        forall|i: int| 0 <= i < s.len() ==> '0' <= #[trigger] s[i] <= '9',
        s[0] != '0',
    ensures
        decimal_value(s) > 0,
    decreases s.len(),
{
    reveal_with_fuel(decimal_value, 2);
    if s.len() > 1 {
        let front = s.drop_last();
        assert forall|i: int| 0 <= i < front.len() implies '0' <= #[trigger] front[i] <= '9' by {
            assert(front[i] == s[i]);
        }
        lemma_leading_digit_counts(front);
        assert('0' <= s[s.len() - 1] <= '9');
    }
}

/// A number is written in the one way in which it can be read: as digits without leading zeros
/// that stand for it.
pub proof fn law_decimal_is_canonical(n: nat)
    ensures
        reads_natural(decimal(n), n),
        forall|s: Seq<char>| reads_natural(s, n) ==> s == decimal(n),
    decreases n,
{
    law_decimal_reads_back(n);
    let d = decimal(n);
    if n >= 10 {
        let front = decimal(n / 10);
        law_decimal_is_canonical(n / 10);
        assert forall|i: int| 0 <= i < d.len() implies '0' <= #[trigger] d[i] <= '9' by {
            if i < front.len() {
                assert(d[i] == front[i]);
            }
        }
        assert(d[0] == front[0]);
        if front[0] == '0' {
            assert(front.len() == 1);
            reveal_with_fuel(decimal_value, 2);
            assert(front.drop_last() =~= Seq::empty());
        }
    }
    assert forall|s: Seq<char>| reads_natural(s, n) implies s == d by {
        let front = s.drop_last();
        reveal_with_fuel(decimal_value, 2);
        assert('0' <= s[s.len() - 1] <= '9');
        let last = s.last() as int - '0' as int;
        assert(n == 10 * decimal_value(front) + last);
        if s.len() == 1 {
            assert(front =~= Seq::empty());
            lemma_digit_of(s[0], n);
            assert(s =~= seq![digit(n)]);
        } else {
            assert forall|i: int| 0 <= i < front.len() implies '0' <= #[trigger] front[i]
                <= '9' by {
                assert(front[i] == s[i]);
            }
            assert(front[0] == s[0]);
            lemma_leading_digit_counts(front);
            assert(n / 10 == decimal_value(front));
            assert(n % 10 == last);
            assert(reads_natural(front, n / 10));
            law_decimal_is_canonical(n / 10);
            assert(front == decimal(n / 10));
            lemma_digit_of(s.last(), n % 10);
            assert(s =~= front.push(s.last()));
        }
    }
}

proof fn lemma_digit_of(c: char, n: nat)
    requires
        '0' <= c <= '9',
        c as int - '0' as int == n,
    ensures
        c == digit(n),
{
}

/// An integer is written in the way in which it can be read.
pub proof fn law_signed_is_canonical(n: int)
    ensures
        reads_integer(signed_decimal(n), n),
{
    if n < 0 {
        reveal_strlit("-");
        law_decimal_is_canonical((-n) as nat);
        assert(signed_decimal(n).skip(1) =~= decimal((-n) as nat));
    } else {
        law_decimal_is_canonical(n as nat);
    }
}

/// A filled up integer is written in the way in which it can be read.
pub proof fn law_padded_is_canonical(n: int)
    ensures
        reads_padded(padded_decimal(n), n),
{
    if 0 <= n < 10 {
        reveal_strlit("0");
        law_decimal_is_canonical(n as nat);
        assert(padded_decimal(n).skip(1) =~= decimal(n as nat));
    } else {
        law_signed_is_canonical(n);
    }
}

/// Appends a number in decimal.
pub fn push_decimal(out: &mut String, n: u64)
    ensures
        final(out)@ == old(out)@ + decimal(n as nat),
    decreases n,
{
    if n >= 10 {
        push_decimal(out, n / 10);
    }
    let d: u8 = 48u8 + (n % 10) as u8;
    out.push(d as char);
}

/// An unsigned number in decimal.
pub fn decimal_string(n: u64) -> (s: String)
    ensures
        s@ == decimal(n as nat),
{
    let mut s: String = String::new();
    push_decimal(&mut s, n);
    s
}

/// A signed number in decimal.
pub fn signed_string(n: i32) -> (s: String)
    ensures
        s@ == signed_decimal(n as int),
{
    if n < 0 {
        let mut s: String = "-".to_owned();
        push_decimal(&mut s, (-(n as i64)) as u64);
        s
    } else {
        decimal_string(n as u64)
    }
}

/// A signed number in decimal, filled up with a zero to a width of two.
pub fn padded_string(n: i32) -> (s: String)
    ensures
        s@ == padded_decimal(n as int),
{
    if 0 <= n && n < 10 {
        let mut s: String = "0".to_owned();
        push_decimal(&mut s, n as u64);
        s
    } else {
        signed_string(n)
    }
}

/// The encoding of a text is the encodings of its parts, one after the other.
pub proof fn lemma_encode_concat(a: Seq<char>, b: Seq<char>)
    ensures
        encode_utf8(a + b) == encode_utf8(a) + encode_utf8(b),
    decreases a.len(),
{
    if a.len() == 0 {
        assert(a + b =~= b);
        assert(encode_utf8(a) + encode_utf8(b) =~= encode_utf8(b));
    } else {
        lemma_encode_concat(a.drop_first(), b);
        assert((a + b).drop_first() =~= a.drop_first() + b);
        assert(encode_utf8(a + b) =~= encode_utf8(a) + encode_utf8(b));
    }
}

/// The most bytes that one record may hold.
pub const RECORD_CAPACITY: usize = 1024;

/// The bytes of a record with the given text: there is no record if they are too many.
pub open spec fn record_bytes(text: Seq<char>) -> Option<Seq<u8>> {
    if encode_utf8(text).len() <= RECORD_CAPACITY {
        Some(encode_utf8(text))
    } else {
        None
    }
}

/// A buffer of fixed capacity to which text is written piece by piece. Once a piece did not
/// fit, the buffer takes no more and yields no record.
pub struct RecordBuf {
    bytes: Vec<u8>,
    overflowed: bool,
    text: Ghost<Seq<char>>,
}

impl View for RecordBuf {
    type V = Seq<char>;

    /// All the text that was written so far, whether it fitted or not.
    closed spec fn view(&self) -> Seq<char> {
        self.text@
    }
}

impl RecordBuf {
    /// The buffer holds all the text if that fits, and has overflowed if it does not.
    pub closed spec fn wf(&self) -> bool {
        if self.overflowed {
            encode_utf8(self.text@).len() > RECORD_CAPACITY
        } else {
            &&& self.bytes@ == encode_utf8(self.text@)
            &&& self.bytes@.len() <= RECORD_CAPACITY
        }
    }

    /// An empty buffer.
    pub fn new() -> (buf: RecordBuf)
        ensures
            buf.wf(),
            buf@ == Seq::<char>::empty(),
    {
        RecordBuf { bytes: Vec::new(), overflowed: false, text: Ghost(Seq::empty()) }
    }

    /// Writes one piece of text at the end.
    pub fn put(&mut self, piece: &str)
        requires
            old(self).wf(),
        ensures
            final(self).wf(),
            final(self)@ == old(self)@ + piece@,
    {
        proof {
            lemma_encode_concat(self.text@, piece@);
        }
        if !self.overflowed {
            let new: &[u8] = piece.as_bytes();
            if new.len() <= RECORD_CAPACITY - self.bytes.len() {
                let ghost before = self.bytes@;
                self.bytes.extend_from_slice(new);
                assert(self.bytes@ =~= before + new@);
            } else {
                self.overflowed = true;
            }
        }
        self.text = Ghost(self.text@ + piece@);
    }

    /// The finished record, unless the text did not fit.
    pub fn finish(self) -> (record: Option<Vec<u8>>)
        requires
            self.wf(),
        ensures
            match record {
                Some(bytes) => record_bytes(self@) == Some(bytes@),
                None => record_bytes(self@) is None,
            },
    {
        if self.overflowed {
            None
        } else {
            Some(self.bytes)
        }
    }
}

} // verus!
