//! The messages between a client and a host, and how they travel: each as a
//! frame of four bytes that hold the length of the body, most significant
//! byte first, and the body, which is a tag byte and what the message holds.

use vstd::prelude::*;
use vstd::utf8::{decode_utf8, encode_utf8, is_scalar, valid_utf8};
use crate::cell::{Attrs, Cell, Color};
use crate::frame::FrameCell;

verus! {

/// Most bytes that the body of a message may have.
pub const MAX_BODY: usize = 1048576;

/// What a client tells a host.
#[derive(Debug, PartialEq, Eq)]
pub enum ServerInstruction {
    SplitHorizontally,
    SplitVertically,
    MoveFocus,
    OpenFile(String),
    NewClient { rows: u16, cols: u16 },
    ClientExit,
    TerminalResize { rows: u16, cols: u16 },
    Key(Vec<u8>),
    Mouse { row: u16, col: u16, button: u8, pressed: bool },
    Quit,
}

/// A message as a mathematical value.
pub enum Message {
    SplitHorizontally,
    SplitVertically,
    MoveFocus,
    OpenFile(Seq<char>),
    NewClient { rows: u16, cols: u16 },
    ClientExit,
    TerminalResize { rows: u16, cols: u16 },
    Key(Seq<u8>),
    Mouse { row: u16, col: u16, button: u8, pressed: bool },
    Quit,
}

impl View for ServerInstruction {
    type V = Message;

    open spec fn view(&self) -> Message {
        match *self {
            ServerInstruction::SplitHorizontally => Message::SplitHorizontally,
            ServerInstruction::SplitVertically => Message::SplitVertically,
            ServerInstruction::MoveFocus => Message::MoveFocus,
            ServerInstruction::OpenFile(path) => Message::OpenFile(path@),
            ServerInstruction::NewClient { rows, cols } => Message::NewClient { rows, cols },
            ServerInstruction::ClientExit => Message::ClientExit,
            ServerInstruction::TerminalResize { rows, cols } => Message::TerminalResize {
                rows,
                cols,
            },
            ServerInstruction::Key(bytes) => Message::Key(bytes@),
            ServerInstruction::Mouse { row, col, button, pressed } => Message::Mouse {
                row,
                col,
                button,
                pressed,
            },
            ServerInstruction::Quit => Message::Quit,
        }
    }
}

/// What the start of a stream of bytes holds.
pub enum Parsed {
    /// The frame is not all there yet.
    NeedMore,
    /// The frame holds no message.
    Bad,
    /// A message, in a frame of this many bytes.
    Got(Message, nat),
}

/// What the start of a buffer holds.
#[derive(Debug, PartialEq, Eq)]
pub enum Decoded {
    /// The frame is not all there yet.
    NeedMore,
    /// The frame holds no message.
    Bad,
    /// A message, in a frame of this many bytes.
    Got(ServerInstruction, usize),
}

/// The two bytes of a number, most significant first.
pub open spec fn be16(v: u16) -> Seq<u8> {
    seq![(v / 256) as u8, (v % 256) as u8]
}

/// The number of two bytes, most significant first.
pub open spec fn un16(hi: u8, lo: u8) -> u16 {
    (hi * 256 + lo) as u16
}

/// The four bytes of a length, most significant first.
pub open spec fn be32(n: int) -> Seq<u8> {
    seq![
        (n / 16777216 % 256) as u8,
        (n / 65536 % 256) as u8,
        (n / 256 % 256) as u8,
        (n % 256) as u8,
    ]
}

/// The length of four bytes, most significant first.
pub open spec fn un32(b: Seq<u8>) -> int {
    b[0] * 16777216 + b[1] * 65536 + b[2] * 256 + b[3]
}

/// The body of a message: its tag and what it holds.
pub open spec fn body(m: Message) -> Seq<u8> {
    match m {
        Message::SplitHorizontally => seq![0u8],
        Message::SplitVertically => seq![1u8],
        Message::MoveFocus => seq![2u8],
        Message::OpenFile(path) => seq![3u8] + encode_utf8(path),
        Message::NewClient { rows, cols } => seq![4u8] + be16(rows) + be16(cols),
        Message::ClientExit => seq![5u8],
        Message::TerminalResize { rows, cols } => seq![6u8] + be16(rows) + be16(cols),
        Message::Key(bytes) => seq![7u8] + bytes,
        Message::Mouse { row, col, button, pressed } => seq![8u8] + be16(row) + be16(col) + seq![
            button,
            if pressed {
                1u8
            } else {
                0u8
            },
        ],
        Message::Quit => seq![9u8],
    }
}

/// The frame of a message: the length of its body and the body.
pub open spec fn framed(m: Message) -> Seq<u8> {
    be32(body(m).len() as int) + body(m)
}

/// The message that a body holds, if it holds one.
pub open spec fn parse_body(b: Seq<u8>) -> Option<Message> {
    if b.len() == 0 {
        None
    } else if b[0] == 0 && b.len() == 1 {
        Some(Message::SplitHorizontally)
    } else if b[0] == 1 && b.len() == 1 {
        Some(Message::SplitVertically)
    } else if b[0] == 2 && b.len() == 1 {
        Some(Message::MoveFocus)
    } else if b[0] == 3 && valid_utf8(b.skip(1)) {
        Some(Message::OpenFile(decode_utf8(b.skip(1))))
    } else if b[0] == 4 && b.len() == 5 {
        Some(Message::NewClient { rows: un16(b[1], b[2]), cols: un16(b[3], b[4]) })
    } else if b[0] == 5 && b.len() == 1 {
        Some(Message::ClientExit)
    } else if b[0] == 6 && b.len() == 5 {
        Some(Message::TerminalResize { rows: un16(b[1], b[2]), cols: un16(b[3], b[4]) })
    } else if b[0] == 7 {
        Some(Message::Key(b.skip(1)))
    } else if b[0] == 8 && b.len() == 7 && b[6] <= 1 {
        Some(
            Message::Mouse {
                row: un16(b[1], b[2]),
                col: un16(b[3], b[4]),
                button: b[5],
                pressed: b[6] == 1,
            },
        )
    } else if b[0] == 9 && b.len() == 1 {
        Some(Message::Quit)
    } else {
        None
    }
}

/// What the start of `bytes` holds: a frame is cut off after its length
/// and parsed; a frame that announces a body of more than `MAX_BODY` bytes,
/// or whose body holds no message, is bad.
pub open spec fn parsed(bytes: Seq<u8>) -> Parsed {
    if bytes.len() < 4 {
        Parsed::NeedMore
    } else {
        let n = un32(bytes);
        if n > MAX_BODY {
            Parsed::Bad
        } else if bytes.len() < 4 + n {
            Parsed::NeedMore
        } else {
            match parse_body(bytes.subrange(4, 4 + n)) {
                Some(m) => Parsed::Got(m, (4 + n) as nat),
                None => Parsed::Bad,
            }
        }
    }
}

/// `String::from_utf8`: the string whose UTF-8 encoding the bytes are; none
/// where the bytes are no UTF-8.
#[verifier::external_body]
fn string_of_utf8(bytes: Vec<u8>) -> (text: Option<String>)
    ensures
        text is Some <==> valid_utf8(bytes@),
        text matches Some(s) ==> s@ == decode_utf8(bytes@),
{
    String::from_utf8(bytes).ok()
}

/// Appends bytes.
fn append(out: &mut Vec<u8>, bytes: &[u8])
    ensures
        final(out)@ == old(out)@ + bytes@,
{
    let n = bytes.len();
    let mut i: usize = 0;
    assert(out@ =~= old(out)@ + bytes@.take(0));
    while i < n
        invariant
            i <= n,
            n == bytes@.len(),
            out@ == old(out)@ + bytes@.take(i as int),
        decreases n - i,
    {
        out.push(bytes[i]);
        assert(out@ =~= old(out)@ + bytes@.take(i + 1));
        i += 1;
    }
    assert(bytes@.take(n as int) =~= bytes@);
}

/// Appends the two bytes of a number.
fn append16(out: &mut Vec<u8>, v: u16)
    ensures
        final(out)@ == old(out)@ + be16(v),
{
    out.push((v / 256) as u8);
    out.push((v % 256) as u8);
    assert(out@ =~= old(out)@ + be16(v));
}

/// Makes the body of a message.
fn encode_body(m: &ServerInstruction) -> (out: Vec<u8>)
    ensures
        out@ == body(m@),
{
    let mut out: Vec<u8> = Vec::new();
    match m {
        ServerInstruction::SplitHorizontally => {
            out.push(0);
        },
        ServerInstruction::SplitVertically => {
            out.push(1);
        },
        ServerInstruction::MoveFocus => {
            out.push(2);
        },
        ServerInstruction::OpenFile(path) => {
            out.push(3);
            append(&mut out, path.as_str().as_bytes());
        },
        ServerInstruction::NewClient { rows, cols } => {
            out.push(4);
            append16(&mut out, *rows);
            append16(&mut out, *cols);
        },
        ServerInstruction::ClientExit => {
            out.push(5);
        },
        ServerInstruction::TerminalResize { rows, cols } => {
            out.push(6);
            append16(&mut out, *rows);
            append16(&mut out, *cols);
        },
        ServerInstruction::Key(bytes) => {
            out.push(7);
            append(&mut out, bytes.as_slice());
        },
        ServerInstruction::Mouse { row, col, button, pressed } => {
            out.push(8);
            append16(&mut out, *row);
            append16(&mut out, *col);
            out.push(*button);
            out.push(
                if *pressed {
                    1
                } else {
                    0
                },
            );
        },
        ServerInstruction::Quit => {
            out.push(9);
        },
    }
    assert(out@ =~= body(m@));
    out
}

/// Makes the frame of a message. A message whose body has more than
/// `MAX_BODY` bytes has none.
pub fn encode(m: &ServerInstruction) -> (out: Option<Vec<u8>>)
    ensures
        out is Some <==> body(m@).len() <= MAX_BODY,
        out matches Some(frame) ==> frame@ == framed(m@),
{
    let body = encode_body(m);
    let n = body.len();
    if n > MAX_BODY {
        return None;
    }
    let mut out: Vec<u8> = Vec::new();
    out.push((n / 16777216 % 256) as u8);
    out.push((n / 65536 % 256) as u8);
    out.push((n / 256 % 256) as u8);
    out.push((n % 256) as u8);
    assert(out@ =~= be32(n as int));
    append(&mut out, body.as_slice());
    Some(out)
}

/// The number of two bytes.
fn read16(hi: u8, lo: u8) -> (v: u16)
    ensures
        v == un16(hi, lo),
{
    (hi as u16) * 256 + lo as u16
}

/// Finds the message that a body holds.
fn decode_body(b: &[u8]) -> (out: Option<ServerInstruction>)
    ensures
        match out {
            Some(m) => parse_body(b@) == Some(m@),
            None => parse_body(b@) is None,
        },
{
    let n = b.len();
    if n == 0 {
        return None;
    }
    let tag = b[0];
    if tag == 0 && n == 1 {
        Some(ServerInstruction::SplitHorizontally)
    } else if tag == 1 && n == 1 {
        Some(ServerInstruction::SplitVertically)
    } else if tag == 2 && n == 1 {
        Some(ServerInstruction::MoveFocus)
    } else if tag == 3 {
        let rest = vstd::slice::slice_to_vec(vstd::slice::slice_subrange(b, 1, n));
        assert(rest@ =~= b@.skip(1));
        match string_of_utf8(rest) {
            Some(path) => Some(ServerInstruction::OpenFile(path)),
            None => None,
        }
    } else if tag == 4 && n == 5 {
        Some(ServerInstruction::NewClient { rows: read16(b[1], b[2]), cols: read16(b[3], b[4]) })
    } else if tag == 5 && n == 1 {
        Some(ServerInstruction::ClientExit)
    } else if tag == 6 && n == 5 {
        Some(
            ServerInstruction::TerminalResize { rows: read16(b[1], b[2]), cols: read16(b[3], b[4]) },
        )
    } else if tag == 7 {
        let rest = vstd::slice::slice_to_vec(vstd::slice::slice_subrange(b, 1, n));
        assert(rest@ =~= b@.skip(1));
        Some(ServerInstruction::Key(rest))
    } else if tag == 8 && n == 7 && b[6] <= 1 {
        Some(
            ServerInstruction::Mouse {
                row: read16(b[1], b[2]),
                col: read16(b[3], b[4]),
                button: b[5],
                pressed: b[6] == 1,
            },
        )
    } else if tag == 9 && n == 1 {
        Some(ServerInstruction::Quit)
    } else {
        None
    }
}

/// Takes the first frame off the start of a buffer, if it is all there, and
/// finds the message in it.
pub fn decode(bytes: &[u8]) -> (out: Decoded)
    ensures
        match out {
            Decoded::NeedMore => parsed(bytes@) is NeedMore,
            Decoded::Bad => parsed(bytes@) is Bad,
            Decoded::Got(m, used) => parsed(bytes@) == Parsed::Got(m@, used as nat),
        },
{
    if bytes.len() < 4 {
        return Decoded::NeedMore;
    }
    let n: u64 = (bytes[0] as u64) * 16777216 + (bytes[1] as u64) * 65536 + (bytes[2] as u64) * 256
        + bytes[3] as u64;
    if n > MAX_BODY as u64 {
        return Decoded::Bad;
    }
    let n = n as usize;
    if bytes.len() - 4 < n {
        return Decoded::NeedMore;
    }
    match decode_body(vstd::slice::slice_subrange(bytes, 4, 4 + n)) {
        Some(m) => Decoded::Got(m, 4 + n),
        None => Decoded::Bad,
    }
}

/// The two bytes of a number give the number back.
pub proof fn lemma_be16(v: u16)
    ensures
        un16(be16(v)[0], be16(v)[1]) == v,
        be16(v).len() == 2,
{
}

/// The four bytes of a length give the length back.
pub proof fn lemma_be32(n: int)
    requires
        0 <= n < 4294967296,
    ensures
        un32(be32(n)) == n,
        be32(n).len() == 4,
{
}

/// The body of a message holds that message and no other.
pub proof fn lemma_body_round_trip(m: Message)
    ensures
        parse_body(body(m)) == Some(m),
{
    let b = body(m);
    match m {
        Message::OpenFile(path) => {
            assert(b.skip(1) =~= encode_utf8(path));
            vstd::utf8::encode_utf8_valid_utf8(path);
            vstd::utf8::encode_utf8_decode_utf8(path);
        },
        Message::NewClient { rows, cols } => {
            lemma_be16(rows);
            lemma_be16(cols);
        },
        Message::TerminalResize { rows, cols } => {
            lemma_be16(rows);
            lemma_be16(cols);
        },
        Message::Key(bytes) => {
            assert(b.skip(1) =~= bytes);
        },
        Message::Mouse { row, col, button, pressed } => {
            lemma_be16(row);
            lemma_be16(col);
        },
        _ => {},
    }
}

/// A frame, whatever follows it, is read back as the message that it was
/// made of, and as no byte more.
pub proof fn lemma_round_trip(m: Message, rest: Seq<u8>)
    requires
        body(m).len() <= MAX_BODY,
    ensures
        parsed(framed(m) + rest) == Parsed::Got(m, framed(m).len()),
{
    let n = body(m).len() as int;
    let bytes = framed(m) + rest;
    lemma_be32(n);
    assert(bytes[0] == be32(n)[0] && bytes[1] == be32(n)[1] && bytes[2] == be32(n)[2] && bytes[3]
        == be32(n)[3]);
    assert(bytes.subrange(4, 4 + n) =~= body(m));
    lemma_body_round_trip(m);
}

/// Bytes that a cell of a frame takes on the wire.
pub const CELL_BYTES: usize = 17;

/// What a host tells a client.
#[derive(Debug, PartialEq, Eq)]
pub enum ClientInstruction {
    /// The cells that have changed.
    FrameDelta(Vec<FrameCell>),
    /// The title of the focused pane, as its child sent it.
    SetTitle(Vec<u8>),
    Bell,
    Exit(i32),
}

/// A message to a client as a mathematical value.
pub enum Reply {
    FrameDelta(Seq<FrameCell>),
    SetTitle(Seq<u8>),
    Bell,
    Exit(i32),
}

impl View for ClientInstruction {
    type V = Reply;

    open spec fn view(&self) -> Reply {
        match *self {
            ClientInstruction::FrameDelta(cells) => Reply::FrameDelta(cells@),
            ClientInstruction::SetTitle(title) => Reply::SetTitle(title@),
            ClientInstruction::Bell => Reply::Bell,
            ClientInstruction::Exit(code) => Reply::Exit(code),
        }
    }
}

/// What the start of a stream of bytes from a host holds.
pub enum ParsedReply {
    NeedMore,
    Bad,
    Got(Reply, nat),
}

/// What the start of a buffer of bytes from a host holds.
#[derive(Debug, PartialEq, Eq)]
pub enum DecodedReply {
    NeedMore,
    Bad,
    Got(ClientInstruction, usize),
}

/// The four bytes of a colour: its kind, and its index or its parts.
pub open spec fn color_bytes(c: Color) -> Seq<u8> {
    match c {
        Color::Default => seq![0u8, 0u8, 0u8, 0u8],
        Color::Indexed(i) => seq![1u8, i, 0u8, 0u8],
        Color::Rgb(r, g, b) => seq![2u8, r, g, b],
    }
}

/// The colour of four bytes, if they are those of one.
pub open spec fn parse_color(b: Seq<u8>) -> Option<Color> {
    if b[0] == 0 && b[1] == 0 && b[2] == 0 && b[3] == 0 {
        Some(Color::Default)
    } else if b[0] == 1 && b[2] == 0 && b[3] == 0 {
        Some(Color::Indexed(b[1]))
    } else if b[0] == 2 {
        Some(Color::Rgb(b[1], b[2], b[3]))
    } else {
        None
    }
}

/// One if the flag is set.
pub open spec fn bit(flag: bool) -> int {
    if flag {
        1
    } else {
        0
    }
}

/// The byte of the attributes, a bit for each: bold is the least
/// significant, then dim, italic, underline, blink, reverse, hidden and strike.
pub open spec fn attr_byte(a: Attrs) -> u8 {
    (bit(a.bold) + 2 * bit(a.dim) + 4 * bit(a.italic) + 8 * bit(a.underline) + 16 * bit(a.blink)
        + 32 * bit(a.reverse) + 64 * bit(a.hidden) + 128 * bit(a.strike)) as u8
}

/// The attributes of a byte.
pub open spec fn parse_attrs(b: u8) -> Attrs {
    Attrs {
        bold: b % 2 == 1,
        dim: b / 2 % 2 == 1,
        italic: b / 4 % 2 == 1,
        underline: b / 8 % 2 == 1,
        blink: b / 16 % 2 == 1,
        reverse: b / 32 % 2 == 1,
        hidden: b / 64 % 2 == 1,
        strike: b / 128 % 2 == 1,
    }
}

/// The bytes of a cell of a frame: its row, its column, the scalar value of
/// its character, its colours and its attributes.
pub open spec fn cell_bytes(c: FrameCell) -> Seq<u8> {
    be16(c.row) + be16(c.col) + be32(c.cell.ch as u32 as int) + color_bytes(c.cell.fg)
        + color_bytes(c.cell.bg) + seq![attr_byte(c.cell.attrs)]
}

/// The cell of seventeen bytes, if they are those of one.
pub open spec fn parse_cell(b: Seq<u8>) -> Option<FrameCell> {
    let scalar = un32(b.subrange(4, 8));
    match (parse_color(b.subrange(8, 12)), parse_color(b.subrange(12, 16))) {
        (Some(fg), Some(bg)) => if scalar <= u32::MAX && is_scalar(scalar as u32) {
            Some(
                FrameCell {
                    row: un16(b[0], b[1]),
                    col: un16(b[2], b[3]),
                    cell: Cell { ch: scalar as u32 as char, fg, bg, attrs: parse_attrs(b[16]) },
                },
            )
        } else {
            None
        },
        _ => None,
    }
}

/// The bytes of the cells of a frame, cell by cell.
pub open spec fn cells_bytes(cells: Seq<FrameCell>) -> Seq<u8>
    decreases cells.len(),
{
    if cells.len() == 0 {
        Seq::empty()
    } else {
        cells_bytes(cells.drop_last()) + cell_bytes(cells.last())
    }
}

/// The cells that bytes hold, if they hold some: seventeen bytes each.
pub open spec fn parse_cells(b: Seq<u8>) -> Option<Seq<FrameCell>>
    decreases b.len(),
{
    if b.len() == 0 {
        Some(Seq::empty())
    } else if b.len() < CELL_BYTES {
        None
    } else {
        let cut = b.len() - CELL_BYTES;
        match (parse_cells(b.take(cut)), parse_cell(b.skip(cut))) {
            (Some(cells), Some(cell)) => Some(cells.push(cell)),
            _ => None,
        }
    }
}

/// The four bytes of an exit code: the code plus 2147483648, so that it is
/// no negative number.
pub open spec fn code_bytes(code: i32) -> Seq<u8> {
    be32(code + 2147483648)
}

/// The body of a message to a client: its tag and what it holds.
pub open spec fn reply_body(m: Reply) -> Seq<u8> {
    match m {
        Reply::FrameDelta(cells) => seq![0u8] + cells_bytes(cells),
        Reply::SetTitle(title) => seq![1u8] + title,
        Reply::Bell => seq![2u8],
        Reply::Exit(code) => seq![3u8] + code_bytes(code),
    }
}

/// The frame of a message to a client.
pub open spec fn reply_framed(m: Reply) -> Seq<u8> {
    be32(reply_body(m).len() as int) + reply_body(m)
}

/// The message to a client that a body holds, if it holds one.
pub open spec fn parse_reply_body(b: Seq<u8>) -> Option<Reply> {
    if b.len() == 0 {
        None
    } else if b[0] == 0 {
        match parse_cells(b.skip(1)) {
            Some(cells) => Some(Reply::FrameDelta(cells)),
            None => None,
        }
    } else if b[0] == 1 {
        Some(Reply::SetTitle(b.skip(1)))
    } else if b[0] == 2 && b.len() == 1 {
        Some(Reply::Bell)
    } else if b[0] == 3 && b.len() == 5 {
        Some(Reply::Exit((un32(b.skip(1)) - 2147483648) as i32))
    } else {
        None
    }
}

/// What the start of `bytes` from a host holds.
pub open spec fn parsed_reply(bytes: Seq<u8>) -> ParsedReply {
    if bytes.len() < 4 {
        ParsedReply::NeedMore
    } else {
        let n = un32(bytes);
        if n > MAX_BODY {
            ParsedReply::Bad
        } else if bytes.len() < 4 + n {
            ParsedReply::NeedMore
        } else {
            match parse_reply_body(bytes.subrange(4, 4 + n)) {
                Some(m) => ParsedReply::Got(m, (4 + n) as nat),
                None => ParsedReply::Bad,
            }
        }
    }
}

/// Appends the four bytes of a number.
fn append32(out: &mut Vec<u8>, n: u32)
    ensures
        final(out)@ == old(out)@ + be32(n as int),
{
    out.push((n / 16777216 % 256) as u8);
    out.push((n / 65536 % 256) as u8);
    out.push((n / 256 % 256) as u8);
    out.push((n % 256) as u8);
    assert(out@ =~= old(out)@ + be32(n as int));
}

/// Appends the four bytes of a colour.
fn append_color(out: &mut Vec<u8>, c: Color)
    ensures
        final(out)@ == old(out)@ + color_bytes(c),
{
    match c {
        Color::Default => {
            out.push(0);
            out.push(0);
            out.push(0);
            out.push(0);
        },
        Color::Indexed(i) => {
            out.push(1);
            out.push(i);
            out.push(0);
            out.push(0);
        },
        Color::Rgb(r, g, b) => {
            out.push(2);
            out.push(r);
            out.push(g);
            out.push(b);
        },
    }
    assert(out@ =~= old(out)@ + color_bytes(c));
}

/// The byte of the attributes.
fn attrs_to_byte(a: Attrs) -> (b: u8)
    ensures
        b == attr_byte(a),
{
    let mut b: u8 = 0;
    if a.bold {
        b += 1;
    }
    if a.dim {
        b += 2;
    }
    if a.italic {
        b += 4;
    }
    if a.underline {
        b += 8;
    }
    if a.blink {
        b += 16;
    }
    if a.reverse {
        b += 32;
    }
    if a.hidden {
        b += 64;
    }
    if a.strike {
        b += 128;
    }
    b
}

/// Appends the bytes of a cell.
fn append_cell(out: &mut Vec<u8>, c: FrameCell)
    ensures
        final(out)@ == old(out)@ + cell_bytes(c),
{
    append16(out, c.row);
    append16(out, c.col);
    append32(out, c.cell.ch as u32);
    append_color(out, c.cell.fg);
    append_color(out, c.cell.bg);
    out.push(attrs_to_byte(c.cell.attrs));
    assert(out@ =~= old(out)@ + cell_bytes(c));
}

/// Makes the body of a message to a client.
fn encode_reply_body(m: &ClientInstruction) -> (out: Vec<u8>)
    ensures
        out@ == reply_body(m@),
{
    let mut out: Vec<u8> = Vec::new();
    match m {
        ClientInstruction::FrameDelta(cells) => {
            out.push(0);
            let n = cells.len();
            let mut i: usize = 0;
            assert(out@ =~= seq![0u8] + cells_bytes(cells@.take(0)));
            while i < n
                invariant
                    i <= n,
                    n == cells@.len(),
                    out@ == seq![0u8] + cells_bytes(cells@.take(i as int)),
                decreases n - i,
            {
                append_cell(&mut out, cells[i]);
                proof {
                    assert(cells@.take(i + 1).drop_last() =~= cells@.take(i as int));
                    assert(cells@.take(i + 1).last() == cells@[i as int]);
                    assert(out@ =~= seq![0u8] + cells_bytes(cells@.take(i + 1)));
                }
                i += 1;
            }
            assert(cells@.take(n as int) =~= cells@);
        },
        ClientInstruction::SetTitle(title) => {
            out.push(1);
            append(&mut out, title.as_slice());
        },
        ClientInstruction::Bell => {
            out.push(2);
        },
        ClientInstruction::Exit(code) => {
            out.push(3);
            append32(&mut out, (*code as i64 + 2147483648) as u32);
        },
    }
    assert(out@ =~= reply_body(m@));
    out
}

/// Makes the frame of a message to a client. A message whose body has more
/// than `MAX_BODY` bytes has none.
pub fn encode_reply(m: &ClientInstruction) -> (out: Option<Vec<u8>>)
    ensures
        out is Some <==> reply_body(m@).len() <= MAX_BODY,
        out matches Some(frame) ==> frame@ == reply_framed(m@),
{
    let body = encode_reply_body(m);
    let n = body.len();
    if n > MAX_BODY {
        return None;
    }
    let mut out: Vec<u8> = Vec::new();
    append32(&mut out, n as u32);
    append(&mut out, body.as_slice());
    Some(out)
}

/// The number of four bytes.
fn read32(b: &[u8], at: usize) -> (n: u32)
    requires
        at + 4 <= b@.len(),
    ensures
        n == un32(b@.subrange(at as int, at + 4)),
{
    (b[at] as u32) * 16777216 + (b[at + 1] as u32) * 65536 + (b[at + 2] as u32) * 256 + b[at
        + 3] as u32
}

/// The colour of the four bytes at `at`.
fn read_color(b: &[u8], at: usize) -> (c: Option<Color>)
    requires
        at + 4 <= b@.len(),
    ensures
        c == parse_color(b@.subrange(at as int, at + 4)),
{
    let kind = b[at];
    let x = b[at + 1];
    let y = b[at + 2];
    let z = b[at + 3];
    if kind == 0 && x == 0 && y == 0 && z == 0 {
        Some(Color::Default)
    } else if kind == 1 && y == 0 && z == 0 {
        Some(Color::Indexed(x))
    } else if kind == 2 {
        Some(Color::Rgb(x, y, z))
    } else {
        None
    }
}

/// The cell of the seventeen bytes at `at`.
fn read_cell(b: &[u8], at: usize) -> (c: Option<FrameCell>)
    requires
        at + CELL_BYTES <= b@.len(),
    ensures
        c == parse_cell(b@.subrange(at as int, at + CELL_BYTES)),
{
    let ghost chunk = b@.subrange(at as int, at + CELL_BYTES);
    let total = b.len();
    assert(at + CELL_BYTES <= total);
    proof {
        assert(chunk.subrange(4, 8) =~= b@.subrange(at + 4, at + 8));
        assert(chunk.subrange(8, 12) =~= b@.subrange(at + 8, at + 12));
        assert(chunk.subrange(12, 16) =~= b@.subrange(at + 12, at + 16));
    }
    let scalar = read32(b, at + 4);
    let fg = read_color(b, at + 8);
    let bg = read_color(b, at + 12);
    let bits = b[at + 16];
    match (fg, bg) {
        (Some(fg), Some(bg)) => match crate::parser::char_of_scalar(scalar) {
            Some(ch) => Some(
                FrameCell {
                    row: read16(b[at], b[at + 1]),
                    col: read16(b[at + 2], b[at + 3]),
                    cell: Cell {
                        ch,
                        fg,
                        bg,
                        attrs: Attrs {
                            bold: bits % 2 == 1,
                            dim: bits / 2 % 2 == 1,
                            italic: bits / 4 % 2 == 1,
                            underline: bits / 8 % 2 == 1,
                            blink: bits / 16 % 2 == 1,
                            reverse: bits / 32 % 2 == 1,
                            hidden: bits / 64 % 2 == 1,
                            strike: bits / 128 % 2 == 1,
                        },
                    },
                },
            ),
            None => None,
        },
        _ => None,
    }
}

/// Whole cells cut off the start of bytes that hold cells are cells.
pub proof fn lemma_parse_cells_prefix(b: Seq<u8>, k: int)
    requires
        0 <= k,
        k * CELL_BYTES <= b.len(),
        parse_cells(b.take(k * CELL_BYTES)) is None,
        b.len() % (CELL_BYTES as nat) == 0,
    ensures
        parse_cells(b) is None,
    decreases b.len(),
{
    if k * CELL_BYTES < b.len() {
        let cut = b.len() - CELL_BYTES;
        assert(b.take(cut).take(k * CELL_BYTES) =~= b.take(k * CELL_BYTES));
        lemma_parse_cells_prefix(b.take(cut), k);
    } else {
        assert(b.take(k * CELL_BYTES) =~= b);
    }
}

/// Bytes that are not whole cells hold no cells.
pub proof fn lemma_parse_cells_ragged(b: Seq<u8>)
    requires
        b.len() % (CELL_BYTES as nat) != 0,
    ensures
        parse_cells(b) is None,
    decreases b.len(),
{
    if b.len() >= CELL_BYTES {
        lemma_parse_cells_ragged(b.take(b.len() - CELL_BYTES));
    }
}

/// Finds the cells that bytes hold.
fn decode_cells(b: &[u8]) -> (out: Option<Vec<FrameCell>>)
    ensures
        match out {
            Some(cells) => parse_cells(b@) == Some(cells@),
            None => parse_cells(b@) is None,
        },
{
    let n = b.len();
    if n % CELL_BYTES != 0 {
        proof {
            lemma_parse_cells_ragged(b@);
        }
        return None;
    }
    let count = n / CELL_BYTES;
    let mut cells: Vec<FrameCell> = Vec::new();
    let mut k: usize = 0;
    assert(b@.take(0).len() == 0);
    while k < count
        invariant
            k <= count,
            n == b@.len(),
            n == count * CELL_BYTES,
            parse_cells(b@.take(k * CELL_BYTES)) == Some(cells@),
        decreases count - k,
    {
        let at = k * CELL_BYTES;
        let cell = read_cell(b, at);
        proof {
            let upto = b@.take((k + 1) * CELL_BYTES);
            assert(upto.take(upto.len() - CELL_BYTES) =~= b@.take(k * CELL_BYTES));
            assert(upto.skip(upto.len() - CELL_BYTES) =~= b@.subrange(at as int, at + CELL_BYTES));
        }
        match cell {
            Some(cell) => {
                cells.push(cell);
            },
            None => {
                proof {
                    lemma_parse_cells_prefix(b@, k + 1);
                }
                return None;
            },
        }
        k += 1;
    }
    assert(b@.take(count * CELL_BYTES) =~= b@);
    Some(cells)
}

/// Finds the message to a client that a body holds.
fn decode_reply_body(b: &[u8]) -> (out: Option<ClientInstruction>)
    ensures
        match out {
            Some(m) => parse_reply_body(b@) == Some(m@),
            None => parse_reply_body(b@) is None,
        },
{
    let n = b.len();
    if n == 0 {
        return None;
    }
    let tag = b[0];
    if tag == 0 {
        match decode_cells(vstd::slice::slice_subrange(b, 1, n)) {
            Some(cells) => Some(ClientInstruction::FrameDelta(cells)),
            None => None,
        }
    } else if tag == 1 {
        let rest = vstd::slice::slice_to_vec(vstd::slice::slice_subrange(b, 1, n));
        assert(rest@ =~= b@.skip(1));
        Some(ClientInstruction::SetTitle(rest))
    } else if tag == 2 && n == 1 {
        Some(ClientInstruction::Bell)
    } else if tag == 3 && n == 5 {
        assert(b@.subrange(1, 5) =~= b@.skip(1));
        let raw = read32(b, 1);
        Some(ClientInstruction::Exit((raw as i64 - 2147483648) as i32))
    } else {
        None
    }
}

/// Takes the first frame off the start of a buffer of bytes from a host, if
/// it is all there, and finds the message in it.
pub fn decode_reply(bytes: &[u8]) -> (out: DecodedReply)
    ensures
        match out {
            DecodedReply::NeedMore => parsed_reply(bytes@) is NeedMore,
            DecodedReply::Bad => parsed_reply(bytes@) is Bad,
            DecodedReply::Got(m, used) => parsed_reply(bytes@) == ParsedReply::Got(m@, used as nat),
        },
{
    if bytes.len() < 4 {
        return DecodedReply::NeedMore;
    }
    let n: u64 = (bytes[0] as u64) * 16777216 + (bytes[1] as u64) * 65536 + (bytes[2] as u64) * 256
        + bytes[3] as u64;
    if n > MAX_BODY as u64 {
        return DecodedReply::Bad;
    }
    let n = n as usize;
    if bytes.len() - 4 < n {
        return DecodedReply::NeedMore;
    }
    match decode_reply_body(vstd::slice::slice_subrange(bytes, 4, 4 + n)) {
        Some(m) => DecodedReply::Got(m, 4 + n),
        None => DecodedReply::Bad,
    }
}

/// The bytes of a colour give the colour back.
pub proof fn lemma_color_round_trip(c: Color)
    ensures
        parse_color(color_bytes(c)) == Some(c),
        color_bytes(c).len() == 4,
{
}

/// The byte of attributes gives the attributes back.
pub proof fn lemma_attrs_round_trip(a: Attrs)
    ensures
        parse_attrs(attr_byte(a)) == a,
{
}

/// The bytes of a cell give the cell back.
pub proof fn lemma_cell_round_trip(c: FrameCell)
    ensures
        cell_bytes(c).len() == CELL_BYTES,
        parse_cell(cell_bytes(c)) == Some(c),
{
    let b = cell_bytes(c);
    let scalar = c.cell.ch as u32;
    lemma_be16(c.row);
    lemma_be16(c.col);
    lemma_be32(scalar as int);
    lemma_color_round_trip(c.cell.fg);
    lemma_color_round_trip(c.cell.bg);
    lemma_attrs_round_trip(c.cell.attrs);
    vstd::utf8::char_is_scalar(c.cell.ch);
    vstd::utf8::char_u32_cast(c.cell.ch, scalar);
    assert(b.subrange(4, 8) =~= be32(scalar as int));
    assert(b.subrange(8, 12) =~= color_bytes(c.cell.fg));
    assert(b.subrange(12, 16) =~= color_bytes(c.cell.bg));
    assert(b[0] == be16(c.row)[0] && b[1] == be16(c.row)[1]);
    assert(b[2] == be16(c.col)[0] && b[3] == be16(c.col)[1]);
    assert(b[16] == attr_byte(c.cell.attrs));
}

/// The bytes of cells give the cells back.
pub proof fn lemma_cells_round_trip(cells: Seq<FrameCell>)
    ensures
        cells_bytes(cells).len() == cells.len() * CELL_BYTES,
        parse_cells(cells_bytes(cells)) == Some(cells),
    decreases cells.len(),
{
    if cells.len() > 0 {
        let b = cells_bytes(cells);
        let head = cells_bytes(cells.drop_last());
        lemma_cells_round_trip(cells.drop_last());
        lemma_cell_round_trip(cells.last());
        assert(b.take(b.len() - CELL_BYTES) =~= head);
        assert(b.skip(b.len() - CELL_BYTES) =~= cell_bytes(cells.last()));
        assert(cells.drop_last().push(cells.last()) =~= cells);
    }
}

/// The body of a message to a client holds that message and no other.
pub proof fn lemma_reply_body_round_trip(m: Reply)
    ensures
        parse_reply_body(reply_body(m)) == Some(m),
{
    let b = reply_body(m);
    match m {
        Reply::FrameDelta(cells) => {
            assert(b.skip(1) =~= cells_bytes(cells));
            lemma_cells_round_trip(cells);
        },
        Reply::SetTitle(title) => {
            assert(b.skip(1) =~= title);
        },
        Reply::Bell => {},
        Reply::Exit(code) => {
            assert(b.skip(1) =~= code_bytes(code));
            lemma_be32(code + 2147483648);
        },
    }
}

/// A frame for a client, whatever follows it, is read back as the message
/// that it was made of, and as no byte more.
pub proof fn lemma_reply_round_trip(m: Reply, rest: Seq<u8>)
    requires
        reply_body(m).len() <= MAX_BODY,
    ensures
        parsed_reply(reply_framed(m) + rest) == ParsedReply::Got(m, reply_framed(m).len()),
{
    let n = reply_body(m).len() as int;
    let bytes = reply_framed(m) + rest;
    lemma_be32(n);
    assert(bytes[0] == be32(n)[0] && bytes[1] == be32(n)[1] && bytes[2] == be32(n)[2] && bytes[3]
        == be32(n)[3]);
    assert(bytes.subrange(4, 4 + n) =~= reply_body(m));
    lemma_reply_body_round_trip(m);
}

} // verus!
