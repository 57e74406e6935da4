//! The parser of the byte stream of a terminal: it cuts the stream into
//! printable characters, control bytes and escape sequences.

use vstd::prelude::*;

verus! {

/// Most parameters of a control sequence that are kept; further ones are dropped.
pub const MAX_PARAMS: usize = 16;

/// Largest value of a parameter; larger ones are cut down to it.
pub const MAX_PARAM: u16 = 9999;

/// Most bytes of an operating system command that are kept; further ones are dropped.
pub const MAX_TEXT: usize = 1024;

/// The character that stands for bytes that are no UTF-8.
pub const REPLACEMENT: char = '\u{FFFD}';

/// Where in a sequence the parser is.
#[derive(Clone, Copy, Debug, PartialEq, Eq, Structural)]
pub enum Phase {
    /// Between sequences.
    Ground,
    /// After ESC.
    Escape,
    /// In a control sequence, after ESC [.
    Csi,
    /// In an operating system command, after ESC ].
    Osc,
    /// In an operating system command, after an ESC that may end it.
    OscEscape,
    /// In a character of several bytes.
    Utf8,
}

/// What a byte completed.
#[derive(Clone, Copy, Debug, PartialEq, Eq, Structural)]
pub enum Event {
    /// Nothing yet.
    Nothing,
    /// A character to print.
    Print(char),
    /// A control byte.
    Control(u8),
    /// An escape sequence of one byte after ESC.
    Escape(u8),
    /// A control sequence with this final byte; its parameters are in the parser.
    Csi(u8),
    /// An operating system command; its text is in the parser.
    Osc,
}

/// The parser as a mathematical value.
pub struct ParserState {
    pub phase: Phase,
    /// The parameters of the control sequence, the last one still growing.
    pub params: Seq<u16>,
    /// Whether the control sequence began with `?`.
    pub private: bool,
    /// Whether the control sequence holds bytes that no supported sequence has.
    pub odd: bool,
    /// Whether the control sequence has more parameters than are kept.
    pub full: bool,
    /// The text of the operating system command.
    pub text: Seq<u8>,
    /// Continuation bytes still to come.
    pub need: u8,
    /// Bytes of the character in all.
    pub width: u8,
    /// The bits of the character so far.
    pub acc: u32,
    /// Sequences discarded so far.
    pub dropped: u64,
}

/// The parser.
pub struct Parser {
    pub phase: Phase,
    pub params: Vec<u16>,
    pub private: bool,
    pub odd: bool,
    pub full: bool,
    pub text: Vec<u8>,
    pub need: u8,
    pub width: u8,
    pub acc: u32,
    pub dropped: u64,
}

impl View for Parser {
    type V = ParserState;

    open spec fn view(&self) -> ParserState {
        ParserState {
            phase: self.phase,
            params: self.params@,
            private: self.private,
            odd: self.odd,
            full: self.full,
            text: self.text@,
            need: self.need,
            width: self.width,
            acc: self.acc,
            dropped: self.dropped,
        }
    }
}

/// A count of discarded sequences, one more; it stops at the largest number.
pub open spec fn bumped(count: u64) -> u64 {
    if count < u64::MAX {
        (count + 1) as u64
    } else {
        count
    }
}

/// A parameter with one more decimal digit.
pub open spec fn grown(value: u16, digit: u8) -> u16 {
    if value * 10 + digit > MAX_PARAM {
        MAX_PARAM
    } else {
        (value * 10 + digit) as u16
    }
}

/// The smallest scalar value that needs `width` bytes in UTF-8.
pub open spec fn least_of_width(width: u8) -> u32 {
    if width == 2 {
        0x80
    } else if width == 3 {
        0x800
    } else {
        0x10000
    }
}

/// The character that `width` bytes with the bits `value` stand for: the
/// scalar value itself, or the replacement character where the bytes are no
/// shortest encoding of a scalar value.
pub open spec fn decoded(value: u32, width: u8) -> char {
    if vstd::utf8::is_scalar(value) && value >= least_of_width(width) {
        value as char
    } else {
        REPLACEMENT
    }
}

/// `char::from_u32`: the character with the scalar value `value`. It exists
/// exactly for the Unicode scalar values, which are the numbers up to 0x10FFFF
/// but for the surrogates 0xD800 to 0xDFFF.
#[verifier::external_body]
pub(crate) fn char_of_scalar(value: u32) -> (c: Option<char>)
    ensures
        c is Some <==> vstd::utf8::is_scalar(value),
        c matches Some(ch) ==> ch == value as char,
{
    char::from_u32(value)
}

impl ParserState {
    /// The state of a parser that has seen no byte.
    pub open spec fn start() -> ParserState {
        ParserState {
            phase: Phase::Ground,
            params: Seq::empty(),
            private: false,
            odd: false,
            full: false,
            text: Seq::empty(),
            need: 0,
            width: 0,
            acc: 0,
            dropped: 0,
        }
    }

    /// The invariant of the parser.
    pub open spec fn wf(self) -> bool {
        &&& self.params.len() <= MAX_PARAMS
        &&& self.phase == Phase::Csi ==> self.params.len() >= 1
        &&& self.text.len() <= MAX_TEXT
        &&& self.phase == Phase::Utf8 ==> {
            ||| self.need == 1 && self.acc < 0x8000
            ||| self.need == 2 && self.acc < 0x200
            ||| self.need == 3 && self.acc < 8
        }
    }

    /// Back between sequences.
    pub open spec fn grounded(self) -> ParserState {
        ParserState { phase: Phase::Ground, ..self }
    }

    /// Back between sequences, one sequence discarded.
    pub open spec fn abandoned(self) -> ParserState {
        ParserState { phase: Phase::Ground, dropped: bumped(self.dropped), ..self }
    }

    /// A byte between sequences.
    pub open spec fn ground(self, byte: u8) -> (ParserState, Event) {
        if byte == 0x1b {
            (ParserState { phase: Phase::Escape, ..self }, Event::Nothing)
        } else if byte < 0x20 || byte == 0x7f {
            (self, Event::Control(byte))
        } else if byte < 0x80 {
            (self, Event::Print(byte as char))
        } else if 0xc2 <= byte <= 0xdf {
            (
                ParserState {
                    phase: Phase::Utf8,
                    need: 1,
                    width: 2,
                    acc: (byte - 0xc0) as u32,
                    ..self
                },
                Event::Nothing,
            )
        } else if 0xe0 <= byte <= 0xef {
            (
                ParserState {
                    phase: Phase::Utf8,
                    need: 2,
                    width: 3,
                    acc: (byte - 0xe0) as u32,
                    ..self
                },
                Event::Nothing,
            )
        } else if 0xf0 <= byte <= 0xf4 {
            (
                ParserState {
                    phase: Phase::Utf8,
                    need: 3,
                    width: 4,
                    acc: (byte - 0xf0) as u32,
                    ..self
                },
                Event::Nothing,
            )
        } else {
            (ParserState { dropped: bumped(self.dropped), ..self }, Event::Print(REPLACEMENT))
        }
    }

    /// A byte inside a character of several bytes. A byte that is no
    /// continuation ends the character, which is discarded, and counts for
    /// itself.
    pub open spec fn utf8(self, byte: u8) -> (ParserState, Event) {
        if 0x80 <= byte <= 0xbf {
            let acc = (self.acc * 64 + (byte - 0x80)) as u32;
            if self.need <= 1 {
                (
                    ParserState { phase: Phase::Ground, need: 0, acc, ..self },
                    Event::Print(decoded(acc, self.width)),
                )
            } else {
                (ParserState { need: (self.need - 1) as u8, acc, ..self }, Event::Nothing)
            }
        } else {
            self.abandoned().ground(byte)
        }
    }

    /// A byte after ESC.
    pub open spec fn escape(self, byte: u8) -> (ParserState, Event) {
        if byte == 0x5b {
            (
                ParserState {
                    phase: Phase::Csi,
                    params: seq![0u16],
                    private: false,
                    odd: false,
                    full: false,
                    ..self
                },
                Event::Nothing,
            )
        } else if byte == 0x5d {
            (ParserState { phase: Phase::Osc, text: Seq::empty(), ..self }, Event::Nothing)
        } else if byte == 0x1b {
            (ParserState { dropped: bumped(self.dropped), ..self }, Event::Nothing)
        } else if 0x20 <= byte <= 0x7e {
            (self.grounded(), Event::Escape(byte))
        } else {
            (self.abandoned(), Event::Nothing)
        }
    }

    /// A byte inside a control sequence.
    pub open spec fn csi(self, byte: u8) -> (ParserState, Event) {
        let last = self.params.len() - 1;
        if 0x30 <= byte <= 0x39 {
            if self.full {
                (self, Event::Nothing)
            } else {
                (
                    ParserState {
                        params: self.params.update(last, grown(self.params[last], (byte - 0x30) as u8)),
                        ..self
                    },
                    Event::Nothing,
                )
            }
        } else if byte == 0x3b {
            if self.full || self.params.len() >= MAX_PARAMS {
                (ParserState { full: true, ..self }, Event::Nothing)
            } else {
                (ParserState { params: self.params.push(0), ..self }, Event::Nothing)
            }
        } else if byte == 0x3f {
            (ParserState { private: true, ..self }, Event::Nothing)
        } else if 0x20 <= byte <= 0x2f || 0x3a <= byte <= 0x3e {
            (ParserState { odd: true, ..self }, Event::Nothing)
        } else if 0x40 <= byte <= 0x7e {
            if self.odd {
                (self.abandoned(), Event::Nothing)
            } else {
                (self.grounded(), Event::Csi(byte))
            }
        } else if byte == 0x1b {
            (
                ParserState { phase: Phase::Escape, dropped: bumped(self.dropped), ..self },
                Event::Nothing,
            )
        } else {
            (self.abandoned(), Event::Nothing)
        }
    }

    /// A byte inside an operating system command.
    pub open spec fn osc(self, byte: u8) -> (ParserState, Event) {
        if byte == 0x07 {
            (self.grounded(), Event::Osc)
        } else if byte == 0x1b {
            (ParserState { phase: Phase::OscEscape, ..self }, Event::Nothing)
        } else if byte == 0x18 || byte == 0x1a {
            (self.abandoned(), Event::Nothing)
        } else if self.text.len() < MAX_TEXT {
            (ParserState { text: self.text.push(byte), ..self }, Event::Nothing)
        } else {
            (self, Event::Nothing)
        }
    }

    /// A byte after an ESC inside an operating system command: a backslash
    /// ends the command; any other byte discards it and follows the ESC.
    pub open spec fn osc_escape(self, byte: u8) -> (ParserState, Event) {
        if byte == 0x5c {
            (self.grounded(), Event::Osc)
        } else {
            ParserState { phase: Phase::Escape, dropped: bumped(self.dropped), ..self }.escape(byte)
        }
    }

    /// The state after `byte`, and what the byte completed.
    pub open spec fn advance(self, byte: u8) -> (ParserState, Event) {
        match self.phase {
            Phase::Ground => self.ground(byte),
            Phase::Escape => self.escape(byte),
            Phase::Csi => self.csi(byte),
            Phase::Osc => self.osc(byte),
            Phase::OscEscape => self.osc_escape(byte),
            Phase::Utf8 => self.utf8(byte),
        }
    }

    /// The parameter at `i` of the control sequence just completed; 0 where
    /// it has none.
    pub open spec fn param(self, i: int) -> u16 {
        if 0 <= i < self.params.len() {
            self.params[i]
        } else {
            0
        }
    }
}

impl Parser {
    /// The invariant of the parser.
    pub open spec fn wf(&self) -> bool {
        self@.wf()
    }

    /// A parser that has seen no byte.
    pub fn new() -> (p: Parser)
        ensures
            p@ == ParserState::start(),
            p.wf(),
    {
        Parser {
            phase: Phase::Ground,
            params: Vec::new(),
            private: false,
            odd: false,
            full: false,
            text: Vec::new(),
            need: 0,
            width: 0,
            acc: 0,
            dropped: 0,
        }
    }

    /// Counts a discarded sequence.
    pub fn drop_one(&mut self)
        ensures
            final(self)@ == (ParserState { dropped: bumped(old(self).dropped), ..old(self)@ }),
    {
        if self.dropped < u64::MAX {
            self.dropped = self.dropped + 1;
        }
    }

    /// The parameter at `i` of the control sequence just completed; 0 where
    /// it has none.
    pub fn param(&self, i: usize) -> (value: u16)
        ensures
            value == self@.param(i as int),
    {
        if i < self.params.len() {
            self.params[i]
        } else {
            0
        }
    }

    /// Takes a byte between sequences.
    fn ground(&mut self, byte: u8) -> (event: Event)
        requires
            old(self).wf(),
        ensures
            final(self).wf(),
            (final(self)@, event) == old(self)@.ground(byte),
    {
        if byte == 0x1b {
            self.phase = Phase::Escape;
            Event::Nothing
        } else if byte < 0x20 || byte == 0x7f {
            Event::Control(byte)
        } else if byte < 0x80 {
            Event::Print(byte as char)
        } else if 0xc2 <= byte && byte <= 0xdf {
            self.phase = Phase::Utf8;
            self.need = 1;
            self.width = 2;
            self.acc = (byte - 0xc0) as u32;
            Event::Nothing
        } else if 0xe0 <= byte && byte <= 0xef {
            self.phase = Phase::Utf8;
            self.need = 2;
            self.width = 3;
            self.acc = (byte - 0xe0) as u32;
            Event::Nothing
        } else if 0xf0 <= byte && byte <= 0xf4 {
            self.phase = Phase::Utf8;
            self.need = 3;
            self.width = 4;
            self.acc = (byte - 0xf0) as u32;
            Event::Nothing
        } else {
            self.drop_one();
            Event::Print(REPLACEMENT)
        }
    }

    /// Takes a byte inside a character of several bytes.
    fn utf8(&mut self, byte: u8) -> (event: Event)
        requires
            old(self).wf(),
            old(self).phase == Phase::Utf8,
        ensures
            final(self).wf(),
            (final(self)@, event) == old(self)@.utf8(byte),
    {
        if 0x80 <= byte && byte <= 0xbf {
            let acc: u32 = self.acc * 64 + (byte - 0x80) as u32;
            self.acc = acc;
            if self.need <= 1 {
                self.phase = Phase::Ground;
                self.need = 0;
                let least: u32 = if self.width == 2 {
                    0x80
                } else if self.width == 3 {
                    0x800
                } else {
                    0x10000
                };
                let c = match char_of_scalar(acc) {
                    Some(c) => if acc >= least {
                        c
                    } else {
                        REPLACEMENT
                    },
                    None => REPLACEMENT,
                };
                Event::Print(c)
            } else {
                self.need = self.need - 1;
                Event::Nothing
            }
        } else {
            self.phase = Phase::Ground;
            self.drop_one();
            self.ground(byte)
        }
    }

    /// Takes a byte after ESC.
    fn escape(&mut self, byte: u8) -> (event: Event)
        requires
            old(self).wf(),
        ensures
            final(self).wf(),
            (final(self)@, event) == old(self)@.escape(byte),
    {
        if byte == 0x5b {
            self.phase = Phase::Csi;
            self.params.clear();
            self.params.push(0);
            self.private = false;
            self.odd = false;
            self.full = false;
            assert(self.params@ =~= seq![0u16]);
            Event::Nothing
        } else if byte == 0x5d {
            self.phase = Phase::Osc;
            self.text.clear();
            Event::Nothing
        } else if byte == 0x1b {
            self.drop_one();
            Event::Nothing
        } else if 0x20 <= byte && byte <= 0x7e {
            self.phase = Phase::Ground;
            Event::Escape(byte)
        } else {
            self.phase = Phase::Ground;
            self.drop_one();
            Event::Nothing
        }
    }

    /// Takes a byte inside a control sequence.
    fn csi(&mut self, byte: u8) -> (event: Event)
        requires
            old(self).wf(),
            old(self).phase == Phase::Csi,
        ensures
            final(self).wf(),
            (final(self)@, event) == old(self)@.csi(byte),
    {
        if 0x30 <= byte && byte <= 0x39 {
            if !self.full {
                let last = self.params.len() - 1;
                let value = self.params[last];
                let digit = (byte - 0x30) as u16;
                let more: u16 = if value > (MAX_PARAM - digit) / 10 {
                    MAX_PARAM
                } else {
                    value * 10 + digit
                };
                self.params[last] = more;
            }
            Event::Nothing
        } else if byte == 0x3b {
            if self.full || self.params.len() >= MAX_PARAMS {
                self.full = true;
            } else {
                self.params.push(0);
            }
            Event::Nothing
        } else if byte == 0x3f {
            self.private = true;
            Event::Nothing
        } else if (0x20 <= byte && byte <= 0x2f) || (0x3a <= byte && byte <= 0x3e) {
            self.odd = true;
            Event::Nothing
        } else if 0x40 <= byte && byte <= 0x7e {
            self.phase = Phase::Ground;
            if self.odd {
                self.drop_one();
                Event::Nothing
            } else {
                Event::Csi(byte)
            }
        } else if byte == 0x1b {
            self.phase = Phase::Escape;
            self.drop_one();
            Event::Nothing
        } else {
            self.phase = Phase::Ground;
            self.drop_one();
            Event::Nothing
        }
    }

    /// Takes a byte inside an operating system command.
    fn osc(&mut self, byte: u8) -> (event: Event)
        requires
            old(self).wf(),
        ensures
            final(self).wf(),
            (final(self)@, event) == old(self)@.osc(byte),
    {
        if byte == 0x07 {
            self.phase = Phase::Ground;
            Event::Osc
        } else if byte == 0x1b {
            self.phase = Phase::OscEscape;
            Event::Nothing
        } else if byte == 0x18 || byte == 0x1a {
            self.phase = Phase::Ground;
            self.drop_one();
            Event::Nothing
        } else if self.text.len() < MAX_TEXT {
            self.text.push(byte);
            Event::Nothing
        } else {
            Event::Nothing
        }
    }

    /// Takes the next byte of the stream. Returns what the byte completed.
    pub fn advance(&mut self, byte: u8) -> (event: Event)
        requires
            old(self).wf(),
        ensures
            final(self).wf(),
            (final(self)@, event) == old(self)@.advance(byte),
    {
        match self.phase {
            Phase::Ground => self.ground(byte),
            Phase::Escape => self.escape(byte),
            Phase::Csi => self.csi(byte),
            Phase::Osc => self.osc(byte),
            Phase::OscEscape => {
                if byte == 0x5c {
                    self.phase = Phase::Ground;
                    Event::Osc
                } else {
                    self.phase = Phase::Escape;
                    self.drop_one();
                    self.escape(byte)
                }
            },
            Phase::Utf8 => self.utf8(byte),
        }
    }
}

} // verus!
