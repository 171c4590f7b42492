//! What a demonstration client decides: how it reads the console, and how
//! it answers a binary frame that holds a count.

use vstd::prelude::*;
use vstd::arithmetic::power::{lemma_pow_increases, pow};
use vstd::layout::{size_of, unsigned_int_max_values};

verus! {

/// The console line that makes the client send its text.
pub open spec fn start_line() -> Seq<char> {
    "start\n"@
}

/// The text that the client sends when it is told to start.
pub open spec fn ready_text() -> Seq<char> {
    "ready send"@
}

/// What the client sends for a line of the console: the ready text for the
/// start line, and nothing for any other.
pub fn command_for(line: &String) -> (out: Option<String>)
    ensures
        line@ == start_line() ==> out is Some && out->Some_0@ == ready_text(),
        line@ != start_line() ==> out is None,
{
    if *line == "start\n".to_string() {
        Some("ready send".to_string())
    } else {
        None
    }
}

/// The number that `bytes` spell, the first byte the most significant.
pub open spec fn be_value(bytes: Seq<u8>) -> nat
    decreases bytes.len(),
{
    if bytes.len() == 0 {
        0
    } else {
        be_value(bytes.drop_last()) * 256 + bytes.last() as nat
    }
}

/// A number of `n` bytes is below the `n`-th power of 256.
pub proof fn lemma_be_value_bound(bytes: Seq<u8>)
    ensures
        be_value(bytes) < pow(256, bytes.len()),
    decreases bytes.len(),
{
    reveal(pow);
    if bytes.len() > 0 {
        lemma_be_value_bound(bytes.drop_last());
    }
}

/// How `Debug` of the standard library writes a list of bytes.
pub uninterp spec fn debug_text(bytes: Seq<u8>) -> Seq<char>;

/// Writes `bytes` with the `Debug` formatting of the standard library's
/// `Vec<u8>`, through `format!`. The text is a function of the bytes alone;
/// what it looks like is left to the standard library.
#[verifier::external_body]
fn debug_of(bytes: &Vec<u8>) -> (text: String)
    ensures
        text@ == debug_text(bytes@),
{
    format!("{:?}", bytes)
}

/// A count that came in a binary frame.
#[derive(Clone, Copy, Debug, PartialEq, Eq, Structural)]
pub struct Number(pub usize);

impl Number {
    /// Reads a count from the payload of a binary frame. The payload must
    /// be as many bytes as a `usize` has, the most significant first; any
    /// other payload is handed back as the text of the error.
    pub fn try_from(item: Vec<u8>) -> (out: Result<Number, String>)
        ensures
            item@.len() == size_of::<usize>() ==> be_value(item@) <= usize::MAX && out == Ok::<
                Number,
                String,
            >(Number(be_value(item@) as usize)),
            item@.len() != size_of::<usize>() ==> out is Err && out->Err_0@ == debug_text(item@),
    {
        if item.len() != core::mem::size_of::<usize>() {
            return Err(debug_of(&item));
        }
        let mut value: usize = 0;
        let mut i: usize = 0;
        while i < item.len()
            invariant
                i <= item.len(),
                item@.len() == size_of::<usize>(),
                value == be_value(item@.take(i as int)),
            decreases item.len() - i,
        {
            proof {
                let read = item@.take(i as int);
                let next = item@.take(i + 1);
                assert(next.drop_last() =~= read);
                assert(next.last() == item@[i as int]);
                lemma_be_value_bound(next);
                lemma_pow_increases(256, next.len(), item@.len());
                unsigned_int_max_values();
            }
            value = value * 256 + item[i] as usize;
            i += 1;
        }
        assert(item@.take(i as int) =~= item@);
        Ok(Number(value))
    }
}

/// The part of a fragmented message that the client sends next.
#[derive(Clone, Copy, Debug, PartialEq, Eq, Structural)]
pub enum Piece {
    /// The first fragment of a binary message.
    First,
    /// A fragment in the middle.
    Continue,
    /// The last fragment.
    Last,
}

/// How many bytes a fragment holds.
pub const PIECE_LEN: usize = 4097;

/// The byte that fills a fragment.
pub const FILLER: u8 = 78;

/// The part that answers the count `n`: the first for 0, a middle one for 1
/// to 8, the last for 9, and none beyond.
pub open spec fn piece_of(n: usize) -> Option<Piece> {
    if n == 0 {
        Some(Piece::First)
    } else if n <= 8 {
        Some(Piece::Continue)
    } else if n == 9 {
        Some(Piece::Last)
    } else {
        None
    }
}

/// The part that answers the count `n`.
pub fn piece_for(n: usize) -> (out: Option<Piece>)
    ensures
        out == piece_of(n),
{
    if n == 0 {
        Some(Piece::First)
    } else if n <= 8 {
        Some(Piece::Continue)
    } else if n == 9 {
        Some(Piece::Last)
    } else {
        None
    }
}

/// The payload of a fragment: [`PIECE_LEN`] times [`FILLER`].
pub open spec fn filling() -> Seq<u8> {
    Seq::new(PIECE_LEN as nat, |i: int| FILLER)
}

/// Makes the payload of a fragment.
pub fn payload() -> (out: Vec<u8>)
    ensures
        out@ == filling(),
{
    let mut out: Vec<u8> = Vec::new();
    let mut i: usize = 0;
    while i < PIECE_LEN
        invariant
            i <= PIECE_LEN,
            out@.len() == i,
            forall|j: int| 0 <= j < i ==> out@[j] == FILLER,
        decreases PIECE_LEN - i,
    {
        out.push(FILLER);
        i += 1;
    }
    assert(out@ =~= filling());
    out
}

/// What the client does about a binary frame.
#[derive(Clone, Debug, PartialEq, Eq)]
pub enum Answer {
    /// Send this part of a fragmented message, with this payload.
    Send(Piece, Vec<u8>),
    /// Say that the sending has come to its end.
    End,
    /// Do nothing: the frame held no count.
    Nothing,
}

/// What the client does about a binary frame, with payloads as sequences.
pub enum AnswerView {
    Send(Piece, Seq<u8>),
    End,
    Nothing,
}

impl View for Answer {
    type V = AnswerView;

    open spec fn view(&self) -> AnswerView {
        match *self {
            Answer::Send(piece, bytes) => AnswerView::Send(piece, bytes@),
            Answer::End => AnswerView::End,
            Answer::Nothing => AnswerView::Nothing,
        }
    }
}

/// What the client does about a binary frame with the payload `item`: it
/// sends the part that the count in it asks for, says that the sending has
/// ended where the count asks for no part, and does nothing where the
/// payload is no count.
pub open spec fn answer_of(item: Seq<u8>) -> AnswerView {
    if item.len() != size_of::<usize>() {
        AnswerView::Nothing
    } else {
        match piece_of(be_value(item) as usize) {
            Some(piece) => AnswerView::Send(piece, filling()),
            None => AnswerView::End,
        }
    }
}

/// Decides what to do about a binary frame with the payload `item`.
pub fn answer_binary(item: Vec<u8>) -> (out: Answer)
    ensures
        out@ == answer_of(item@),
{
    match Number::try_from(item) {
        Ok(n) => match piece_for(n.0) {
            Some(piece) => Answer::Send(piece, payload()),
            None => Answer::End,
        },
        Err(_) => Answer::Nothing,
    }
}

} // verus!
