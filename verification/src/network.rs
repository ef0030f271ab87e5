//! The network scraper: the attachment of the connection-table iterator and
//! the decoding of its lines.
//!
//! A line of the table is split at white space. The second and third fields
//! are the local and the remote end point, written as an address in base 16,
//! a colon and a port number; the fourth field is the state in base 16. An
//! address of eight digits is an IPv4 address, any other an IPv6 address,
//! both read as one big-endian number.

use vstd::prelude::*;
use crate::lifecycle::{settle, start_steps, Program, StartError, StartOutcome, Step};
use crate::text::{chars_of, hex_value, is_hex_number, lemma_hex_value_bound, parse_hex, pow16};

verus! {

/// Whether `c` is white space: a character with the Unicode property
/// `White_Space`.
pub open spec fn is_whitespace(c: char) -> bool {
    ||| ('\u{9}' <= c && c <= '\u{d}')
    ||| c == ' '
    ||| c == '\u{85}'
    ||| c == '\u{a0}'
    ||| c == '\u{1680}'
    ||| ('\u{2000}' <= c && c <= '\u{200a}')
    ||| c == '\u{2028}'
    ||| c == '\u{2029}'
    ||| c == '\u{202f}'
    ||| c == '\u{205f}'
    ||| c == '\u{3000}'
}

/// Executable test for white space.
pub fn is_whitespace_char(c: char) -> (r: bool)
    ensures
        r == is_whitespace(c),
{
    (c >= '\u{9}' && c <= '\u{d}') || c == ' ' || c == '\u{85}' || c == '\u{a0}' || c
        == '\u{1680}' || (c >= '\u{2000}' && c <= '\u{200a}') || c == '\u{2028}' || c
        == '\u{2029}' || c == '\u{202f}' || c == '\u{205f}' || c == '\u{3000}'
}

/// The first index at or after `from` that holds no white space, or the
/// length of `s`.
pub open spec fn skip_spaces(s: Seq<char>, from: int) -> int
    decreases s.len() - from,
{
    if 0 <= from < s.len() && is_whitespace(s[from]) {
        skip_spaces(s, from + 1)
    } else {
        from
    }
}

/// The first index at or after `from` that holds white space, or the length
/// of `s`.
pub open spec fn skip_word(s: Seq<char>, from: int) -> int
    decreases s.len() - from,
{
    if 0 <= from < s.len() && !is_whitespace(s[from]) {
        skip_word(s, from + 1)
    } else {
        from
    }
}

/// The span `(start, end)` of the field with number `n`, counted from zero,
/// among the fields that start at or after `from`. Fields are the longest
/// stretches without white space. `None` where there are not that many.
pub open spec fn field_span(s: Seq<char>, from: int, n: nat) -> Option<(int, int)>
    decreases n,
{
    let start = skip_spaces(s, from);
    let end = skip_word(s, start);
    if start < 0 || start >= s.len() {
        None
    } else if n == 0 {
        Some((start, end))
    } else {
        field_span(s, end, (n - 1) as nat)
    }
}

/// The field with number `n` of the line `s`, counted from zero.
pub open spec fn field(s: Seq<char>, n: nat) -> Option<Seq<char>> {
    match field_span(s, 0, n) {
        Some((start, end)) => Some(s.subrange(start, end)),
        None => None,
    }
}

/// `skip_spaces` stays inside the line, passes white space only and stops at
/// a character that is none.
pub proof fn lemma_skip_spaces(s: Seq<char>, from: int)
    requires
        0 <= from <= s.len(),
    ensures
        from <= skip_spaces(s, from) <= s.len(),
        forall|i: int| from <= i < skip_spaces(s, from) ==> is_whitespace(#[trigger] s[i]),
        skip_spaces(s, from) < s.len() ==> !is_whitespace(s[skip_spaces(s, from)]),
    decreases s.len() - from,
{
    if from < s.len() && is_whitespace(s[from]) {
        lemma_skip_spaces(s, from + 1);
    }
}

/// `skip_word` stays inside the line, passes no white space and stops at
/// white space or at the end.
pub proof fn lemma_skip_word(s: Seq<char>, from: int)
    requires
        0 <= from <= s.len(),
    ensures
        from <= skip_word(s, from) <= s.len(),
        forall|i: int| from <= i < skip_word(s, from) ==> !is_whitespace(#[trigger] s[i]),
        skip_word(s, from) < s.len() ==> is_whitespace(s[skip_word(s, from)]),
    decreases s.len() - from,
{
    if from < s.len() && !is_whitespace(s[from]) {
        lemma_skip_word(s, from + 1);
    }
}

/// A field is not empty, lies inside the line, holds no white space, and has
/// white space or an edge of the line on either side.
pub proof fn lemma_field_span(s: Seq<char>, from: int, n: nat)
    requires
        0 <= from <= s.len(),
    ensures
        field_span(s, from, n) matches Some((start, end)) ==> {
            &&& from <= start < end <= s.len()
            &&& forall|i: int| start <= i < end ==> !is_whitespace(#[trigger] s[i])
            &&& end < s.len() ==> is_whitespace(s[end])
            &&& start > from ==> is_whitespace(s[start - 1])
        },
    decreases n,
{
    let start = skip_spaces(s, from);
    lemma_skip_spaces(s, from);
    if start < s.len() {
        let end = skip_word(s, start);
        lemma_skip_word(s, start);
        if n > 0 {
            lemma_field_span(s, end, (n - 1) as nat);
            if field_span(s, end, (n - 1) as nat) is Some {
                let (a, b) = field_span(s, end, (n - 1) as nat).unwrap();
                if a == end {
                    // the next field cannot start on the white space that ends this one
                    assert(!is_whitespace(s[a]));
                }
            }
        }
    }
}

/// Finds the end of the white space that starts at `from`.
fn pass_spaces(chars: &Vec<char>, from: usize) -> (at: usize)
    requires
        from <= chars.len(),
    ensures
        at == skip_spaces(chars@, from as int),
        from <= at <= chars.len(),
{
    let mut at: usize = from;
    while at < chars.len() && is_whitespace_char(chars[at])
        invariant
            from <= at <= chars.len(),
            skip_spaces(chars@, from as int) == skip_spaces(chars@, at as int),
        decreases chars.len() - at,
    {
        at = at + 1;
    }
    at
}

/// Finds the end of the field that starts at `from`.
fn pass_word(chars: &Vec<char>, from: usize) -> (at: usize)
    requires
        from <= chars.len(),
    ensures
        at == skip_word(chars@, from as int),
        from <= at <= chars.len(),
{
    let mut at: usize = from;
    while at < chars.len() && !is_whitespace_char(chars[at])
        invariant
            from <= at <= chars.len(),
            skip_word(chars@, from as int) == skip_word(chars@, at as int),
        decreases chars.len() - at,
    {
        at = at + 1;
    }
    at
}

/// Finds the field with number `n` among those that start at or after
/// `from`.
pub fn find_field(chars: &Vec<char>, from: usize, n: usize) -> (span: Option<(usize, usize)>)
    requires
        from <= chars.len(),
    ensures
        match span {
            Some((start, end)) => field_span(chars@, from as int, n as nat) == Some(
                (start as int, end as int),
            ) && start < end <= chars.len(),
            None => field_span(chars@, from as int, n as nat) is None,
        },
{
    let mut at: usize = from;
    let mut left: usize = n;
    loop
        invariant
            at <= chars.len(),
            field_span(chars@, from as int, n as nat) == field_span(chars@, at as int, left as nat),
        decreases left,
    {
        let start = pass_spaces(chars, at);
        if start >= chars.len() {
            return None;
        }
        let end = pass_word(chars, start);
        proof {
            lemma_skip_spaces(chars@, at as int);
            lemma_skip_word(chars@, start + 1);
        }
        if left == 0 {
            return Some((start, end));
        }
        at = end;
        left = left - 1;
    }
}

/// An IP address as the one number that its bytes make, most significant
/// byte first.
#[derive(PartialEq, Eq, Structural, Clone, Copy, Debug)]
pub enum Address {
    V4(u32),
    V6(u128),
}

/// A row of the connection table.
#[derive(PartialEq, Eq, Structural, Clone, Copy, Debug)]
pub struct Connection {
    pub local: Address,
    pub remote: Address,
    /// The state of the connection as the protocol numbers it.
    pub state: u8,
}

/// Why a line is no row of the connection table.
#[derive(PartialEq, Eq, Structural, Clone, Copy, Debug)]
pub enum DecodeError {
    /// The line has fewer than four fields.
    TooFewFields,
    /// The address of the local end point is no number in base 16, or does
    /// not fit in 128 bits.
    InvalidLocalAddress,
    /// The same, of the remote end point.
    InvalidRemoteAddress,
}

/// The index of the first colon of `s` at or after `from`, or the length of
/// `s`.
pub open spec fn colon_at(s: Seq<char>, from: int) -> int
    decreases s.len() - from,
{
    if 0 <= from < s.len() && s[from] != ':' {
        colon_at(s, from + 1)
    } else {
        from
    }
}

/// The address part of an end point: what stands before its first colon, or
/// all of it where it has none.
pub open spec fn address_part(end_point: Seq<char>) -> Seq<char> {
    end_point.take(colon_at(end_point, 0))
}

/// The address that the digits `hex` write. Eight digits write an IPv4
/// address; any other number of digits writes an IPv6 address, as long as the
/// number fits in 128 bits.
pub open spec fn address_of(hex: Seq<char>) -> Option<Address> {
    if !is_hex_number(hex) {
        None
    } else if hex.len() == 8 {
        Some(Address::V4(hex_value(hex) as u32))
    } else if hex_value(hex) <= u128::MAX {
        Some(Address::V6(hex_value(hex) as u128))
    } else {
        None
    }
}

/// The address of an end point such as `0100007F:1F90`. The port number is
/// not read.
pub open spec fn decode_address(end_point: Seq<char>) -> Option<Address> {
    address_of(address_part(end_point))
}

/// The state that a field writes: its value in base 16, or zero where it is
/// no such number or does not fit in a byte.
pub open spec fn state_of(field: Seq<char>) -> u8 {
    if is_hex_number(field) && hex_value(field) <= u8::MAX {
        hex_value(field) as u8
    } else {
        0
    }
}

/// The row that a line of the connection table writes.
pub open spec fn decode_connection(line: Seq<char>) -> Result<Connection, DecodeError> {
    match (field(line, 1), field(line, 2), field(line, 3)) {
        (Some(local), Some(remote), Some(state)) => match decode_address(local) {
            None => Err(DecodeError::InvalidLocalAddress),
            Some(local_address) => match decode_address(remote) {
                None => Err(DecodeError::InvalidRemoteAddress),
                Some(remote_address) => Ok(
                    Connection {
                        local: local_address,
                        remote: remote_address,
                        state: state_of(state),
                    },
                ),
            },
        },
        _ => Err(DecodeError::TooFewFields),
    }
}

/// Sixteen to the eighth is two to the thirty-second.
proof fn lemma_pow16_8()
    ensures
        pow16(8) == 0x1_0000_0000,
{
    reveal_with_fuel(pow16, 9);
}

/// Eight hexadecimal digits, whatever follows their colon, are an IPv4
/// address: the number that they write.
pub proof fn lemma_eight_digits_are_v4(end_point: Seq<char>)
    requires
        is_hex_number(address_part(end_point)),
        address_part(end_point).len() == 8,
    ensures
        decode_address(end_point) == Some(Address::V4(hex_value(address_part(end_point)) as u32)),
        hex_value(address_part(end_point)) <= u32::MAX,
{
    lemma_hex_value_bound(address_part(end_point));
    lemma_pow16_8();
}

/// Sixteen to the thirty-second is two to the hundred and twenty-eighth.
proof fn lemma_pow16_32()
    ensures
        pow16(32) == 0x1_0000_0000_0000_0000_0000_0000_0000_0000,
{
    reveal_with_fuel(pow16, 9);
    assert(pow16(8) == 0x1_0000_0000);
    assert(pow16(16) == 0x1_0000_0000_0000_0000) by {
        reveal_with_fuel(pow16, 9);
    }
    assert(pow16(24) == 0x1_0000_0000_0000_0000_0000_0000) by {
        reveal_with_fuel(pow16, 9);
    }
    assert(pow16(32) == 0x1_0000_0000_0000_0000_0000_0000_0000_0000) by {
        reveal_with_fuel(pow16, 9);
    }
}

/// Thirty-two hexadecimal digits are an IPv6 address: the number that they
/// write, which always fits.
pub proof fn lemma_thirty_two_digits_are_v6(end_point: Seq<char>)
    requires
        is_hex_number(address_part(end_point)),
        address_part(end_point).len() == 32,
    ensures
        decode_address(end_point) == Some(Address::V6(hex_value(address_part(end_point)) as u128)),
        hex_value(address_part(end_point)) <= u128::MAX,
{
    lemma_hex_value_bound(address_part(end_point));
    lemma_pow16_32();
}

/// Reads the address of the end point `chars[from..to]`.
fn address_in(chars: &Vec<char>, from: usize, to: usize) -> (r: Option<Address>)
    requires
        from <= to <= chars.len(),
    ensures
        r == decode_address(chars@.subrange(from as int, to as int)),
{
    let ghost end_point = chars@.subrange(from as int, to as int);
    let mut colon: usize = from;
    while colon < to && chars[colon] != ':'
        invariant
            from <= colon <= to <= chars.len(),
            end_point == chars@.subrange(from as int, to as int),
            colon_at(end_point, 0) == colon_at(end_point, colon - from),
        decreases to - colon,
    {
        assert(end_point[colon - from] == chars@[colon as int]);
        colon = colon + 1;
    }
    proof {
        if colon < to {
            assert(end_point[colon - from] == chars@[colon as int]);
        }
        assert(colon_at(end_point, 0) == colon - from);
        assert(address_part(end_point) =~= chars@.subrange(from as int, colon as int));
        if is_hex_number(address_part(end_point)) && colon - from == 8 {
            lemma_hex_value_bound(address_part(end_point));
            lemma_pow16_8();
        }
    }
    match parse_hex(chars, from, colon) {
        None => None,
        Some(value) => {
            if colon - from == 8 {
                Some(Address::V4(value as u32))
            } else {
                Some(Address::V6(value))
            }
        },
    }
}

/// Reads the state that the field `chars[from..to]` writes.
fn state_in(chars: &Vec<char>, from: usize, to: usize) -> (r: u8)
    requires
        from <= to <= chars.len(),
    ensures
        r == state_of(chars@.subrange(from as int, to as int)),
{
    match parse_hex(chars, from, to) {
        Some(value) => {
            if value <= 255 {
                value as u8
            } else {
                0
            }
        },
        None => 0,
    }
}

/// Decodes the address of an end point such as `0100007F:1F90`; `None` where
/// what stands before the colon is no address.
pub fn parse_addr(raw: &str) -> (r: Option<Address>)
    ensures
        r == decode_address(raw@),
{
    let chars = chars_of(raw);
    assert(chars@.subrange(0, chars.len() as int) =~= chars@);
    address_in(&chars, 0, chars.len())
}

/// Decodes a line of the connection table.
pub fn parse_connection(line: &str) -> (r: Result<Connection, DecodeError>)
    ensures
        r == decode_connection(line@),
{
    let chars = chars_of(line);
    let local = find_field(&chars, 0, 1);
    let remote = find_field(&chars, 0, 2);
    let state = find_field(&chars, 0, 3);
    match (local, remote, state) {
        (Some(l), Some(r), Some(s)) => {
            match address_in(&chars, l.0, l.1) {
                None => Err(DecodeError::InvalidLocalAddress),
                Some(local_address) => match address_in(&chars, r.0, r.1) {
                    None => Err(DecodeError::InvalidRemoteAddress),
                    Some(remote_address) => Ok(
                        Connection {
                            local: local_address,
                            remote: remote_address,
                            state: state_in(&chars, s.0, s.1),
                        },
                    ),
                },
            }
        },
        _ => Err(DecodeError::TooFewFields),
    }
}

/// What a scraper hands out for one read of its session: nothing before it
/// is started, nothing where the read failed or the data ended (an empty
/// read), and otherwise what the line decodes to.
pub open spec fn next_item(started: bool, read: Option<&str>) -> Option<
    Result<Connection, DecodeError>,
> {
    match read {
        Some(line) => if started && line@.len() > 0 {
            Some(decode_connection(line@))
        } else {
            None
        },
        None => None,
    }
}

/// The scraper of the connection table. `L` is the handle of its attachment
/// to the kernel, which the caller makes.
pub struct NetworkScraper<L> {
    link: Option<L>,
    debug: bool,
}

impl<L> NetworkScraper<L> {
    /// The attachment, once the scraper is started.
    pub closed spec fn attachment(&self) -> Option<L> {
        self.link
    }

    /// Whether the diagnostics of the kernel facility are wanted.
    pub closed spec fn debug_flag(&self) -> bool {
        self.debug
    }

    /// A scraper that is not started yet.
    pub fn new(debug: bool) -> (scraper: Self)
        ensures
            scraper.attachment() is None,
            scraper.debug_flag() == debug,
    {
        NetworkScraper { link: None, debug }
    }

    /// Whether the scraper is started.
    pub fn is_started(&self) -> (r: bool)
        ensures
            r == self.attachment() is Some,
    {
        self.link.is_some()
    }

    /// Whether the diagnostics of the kernel facility are wanted.
    pub fn debug(&self) -> (r: bool)
        ensures
            r == self.debug_flag(),
    {
        self.debug
    }

    /// The handle of the attachment, for opening a session on it.
    pub fn link(&self) -> (r: Option<&L>)
        ensures
            r is Some <==> self.attachment() is Some,
            r matches Some(handle) ==> self.attachment() == Some(*handle),
    {
        self.link.as_ref()
    }

    /// The steps that the caller performs to start this scraper: none where
    /// it is started already, else open, load, and attach `dump_tcp4`.
    pub fn steps(&self) -> (steps: Vec<Step>)
        ensures
            steps@ == if self.attachment() is Some {
                Seq::<Step>::empty()
            } else {
                crate::lifecycle::steps_of(self.debug_flag(), Program::DumpTcp4)
            },
    {
        if self.link.is_some() {
            Vec::new()
        } else {
            start_steps(self.debug, Program::DumpTcp4)
        }
    }

    /// Ends the start of this scraper with what its steps came to.
    ///
    /// The attachment is set where the steps succeeded and the scraper was
    /// not started before. A failed step is returned as the error and leaves
    /// the scraper as it was; so does a start of a started scraper.
    pub fn start(&mut self, outcome: StartOutcome<L>) -> (r: Result<(), StartError>)
        ensures
            (final(self).attachment(), r) == crate::lifecycle::settled(
                old(self).attachment(),
                outcome,
            ),
            final(self).debug_flag() == old(self).debug_flag(),
    {
        settle(&mut self.link, outcome)
    }

    /// Does nothing: the attachment is released when the scraper is dropped,
    /// not before.
    pub fn stop(&self) -> (r: Result<(), StartError>)
        ensures
            r is Ok,
    {
        Ok(())
    }

    /// Decodes what one read of a fresh session gave: `None` for a read that
    /// failed, else the line that was read, which is empty at the end of the
    /// data.
    pub fn next(&mut self, read: Option<&str>) -> (r: Option<Result<Connection, DecodeError>>)
        ensures
            r == next_item(old(self).attachment() is Some, read),
            final(self).attachment() == old(self).attachment(),
            final(self).debug_flag() == old(self).debug_flag(),
    {
        if self.link.is_none() {
            return None;
        }
        match read {
            Some(line) => {
                if line.is_empty() {
                    None
                } else {
                    Some(parse_connection(line))
                }
            },
            None => None,
        }
    }
}

} // verus!
