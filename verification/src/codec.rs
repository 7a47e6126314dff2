//! The message codec: every protocol record is written as one
//! self-delimiting structured text record, and records sit back-to-back on
//! the byte stream with no length prefix — a decoder finds the end of a
//! record from the record's own closing syntax alone.
//!
//! The canonical byte form of every record is pinned down by the `enc_*`
//! spec functions; the matching `sdec_*` spec functions are a strict parser
//! for exactly that form, consuming one record and reporting the cursor of
//! the next. Each executable encoder produces exactly its `enc_*` bytes and
//! each decoder returns exactly what its `sdec_*` says, so that decoding is
//! three-valued: a finished record with its length, a need for more bytes
//! (the buffer ends inside a record that may still be completed), or a
//! malformed prefix that no further bytes can repair.

use vstd::prelude::*;
use crate::protocol::{
    Board, ClientToServer, ClientToServerHandshake, Color, Joever, Move, Piece, ServerToClient,
    ServerToClientHandshake, ServerToClientHandshakeView, ServerToClientView,
};

verus! {

broadcast use vstd::seq_lib::group_seq_properties;

/// Spec-level outcome of decoding at a position: a finished value with the
/// cursor one past its record, a prefix that needs more bytes, or a
/// malformed prefix.
pub enum SpecDec<T> {
    Done(T, int),
    Short,
    Bad,
}

/// Executable outcome of decoding at a position.
pub enum DecodeOutcome<T> {
    /// One whole record, and the cursor of the byte after it.
    Done(T, usize),
    /// The buffer ends before the record's shape is settled; the decoder
    /// judges again once more bytes arrive. A stream that ends here ended
    /// mid-record, which is fatal to the session.
    Incomplete,
    /// No continuation of this buffer holds a valid record here.
    Malformed,
}

/// The executable outcome `r` reports exactly what the spec decoder said.
pub open spec fn reflects<T>(r: DecodeOutcome<T>, s: SpecDec<T>) -> bool {
    match r {
        DecodeOutcome::Done(v, n) => s == SpecDec::Done(v, n as int),
        DecodeOutcome::Incomplete => s == SpecDec::<T>::Short,
        DecodeOutcome::Malformed => s == SpecDec::<T>::Bad,
    }
}

/// As [`reflects`], for an outcome whose value is compared through its view.
pub open spec fn reflects_view<T: View>(r: DecodeOutcome<T>, s: SpecDec<T::V>) -> bool {
    match r {
        DecodeOutcome::Done(v, n) => s == SpecDec::Done(v@, n as int),
        DecodeOutcome::Incomplete => s == SpecDec::<T::V>::Short,
        DecodeOutcome::Malformed => s == SpecDec::<T::V>::Bad,
    }
}

// ---------------------------------------------------------------------------
// Fixed byte sequences of the record syntax.
// ---------------------------------------------------------------------------

pub open spec fn lit_move_open() -> Seq<u8> {
    seq![123u8, 34u8, 115u8, 116u8, 97u8, 114u8, 116u8, 95u8, 120u8, 34u8, 58u8]
}

pub open spec fn lit_key_start_y() -> Seq<u8> {
    seq![44u8, 34u8, 115u8, 116u8, 97u8, 114u8, 116u8, 95u8, 121u8, 34u8, 58u8]
}

pub open spec fn lit_key_end_x() -> Seq<u8> {
    seq![44u8, 34u8, 101u8, 110u8, 100u8, 95u8, 120u8, 34u8, 58u8]
}

pub open spec fn lit_key_end_y() -> Seq<u8> {
    seq![44u8, 34u8, 101u8, 110u8, 100u8, 95u8, 121u8, 34u8, 58u8]
}

pub open spec fn lit_key_promotion() -> Seq<u8> {
    seq![44u8, 34u8, 112u8, 114u8, 111u8, 109u8, 111u8, 116u8, 105u8, 111u8, 110u8, 34u8, 58u8]
}

pub open spec fn lit_rbrace() -> Seq<u8> {
    seq![125u8]
}

pub open spec fn lit_c2s_move_open() -> Seq<u8> {
    seq![123u8, 34u8, 77u8, 111u8, 118u8, 101u8, 34u8, 58u8]
}

pub open spec fn lit_state_open() -> Seq<u8> {
    seq![123u8, 34u8, 83u8, 116u8, 97u8, 116u8, 101u8, 34u8, 58u8, 123u8, 34u8, 98u8, 111u8, 97u8, 114u8,
        100u8, 34u8, 58u8]
}

pub open spec fn lit_key_moves() -> Seq<u8> {
    seq![44u8, 34u8, 109u8, 111u8, 118u8, 101u8, 115u8, 34u8, 58u8]
}

pub open spec fn lit_key_joever() -> Seq<u8> {
    seq![44u8, 34u8, 106u8, 111u8, 101u8, 118u8, 101u8, 114u8, 34u8, 58u8]
}

pub open spec fn lit_key_move_made() -> Seq<u8> {
    seq![44u8, 34u8, 109u8, 111u8, 118u8, 101u8, 95u8, 109u8, 97u8, 100u8, 101u8, 34u8, 58u8]
}

pub open spec fn lit_state_close() -> Seq<u8> {
    seq![125u8, 125u8]
}

pub open spec fn lit_rejected() -> Seq<u8> {
    seq![34u8, 82u8, 101u8, 106u8, 101u8, 99u8, 116u8, 101u8, 100u8, 34u8]
}

pub open spec fn lit_hs_req_open() -> Seq<u8> {
    seq![123u8, 34u8, 115u8, 101u8, 114u8, 118u8, 101u8, 114u8, 95u8, 99u8, 111u8, 108u8, 111u8, 114u8, 34u8,
        58u8]
}

pub open spec fn lit_hs_resp_open() -> Seq<u8> {
    seq![123u8, 34u8, 99u8, 111u8, 108u8, 111u8, 114u8, 34u8, 58u8]
}

pub open spec fn lit_key_board() -> Seq<u8> {
    seq![44u8, 34u8, 98u8, 111u8, 97u8, 114u8, 100u8, 34u8, 58u8]
}

fn vec_move_open() -> (v: Vec<u8>)
    ensures
        v@ == lit_move_open(),
{
    let v = vec![123u8, 34u8, 115u8, 116u8, 97u8, 114u8, 116u8, 95u8, 120u8, 34u8, 58u8];
    proof {
        assert(v@ =~= lit_move_open());
    }
    v
}

fn vec_key_start_y() -> (v: Vec<u8>)
    ensures
        v@ == lit_key_start_y(),
{
    let v = vec![44u8, 34u8, 115u8, 116u8, 97u8, 114u8, 116u8, 95u8, 121u8, 34u8, 58u8];
    proof {
        assert(v@ =~= lit_key_start_y());
    }
    v
}

fn vec_key_end_x() -> (v: Vec<u8>)
    ensures
        v@ == lit_key_end_x(),
{
    let v = vec![44u8, 34u8, 101u8, 110u8, 100u8, 95u8, 120u8, 34u8, 58u8];
    proof {
        assert(v@ =~= lit_key_end_x());
    }
    v
}

fn vec_key_end_y() -> (v: Vec<u8>)
    ensures
        v@ == lit_key_end_y(),
{
    let v = vec![44u8, 34u8, 101u8, 110u8, 100u8, 95u8, 121u8, 34u8, 58u8];
    proof {
        assert(v@ =~= lit_key_end_y());
    }
    v
}

fn vec_key_promotion() -> (v: Vec<u8>)
    ensures
        v@ == lit_key_promotion(),
{
    let v = vec![44u8, 34u8, 112u8, 114u8, 111u8, 109u8, 111u8, 116u8, 105u8, 111u8, 110u8, 34u8, 58u8];
    proof {
        assert(v@ =~= lit_key_promotion());
    }
    v
}

fn vec_c2s_move_open() -> (v: Vec<u8>)
    ensures
        v@ == lit_c2s_move_open(),
{
    let v = vec![123u8, 34u8, 77u8, 111u8, 118u8, 101u8, 34u8, 58u8];
    proof {
        assert(v@ =~= lit_c2s_move_open());
    }
    v
}

fn vec_state_open() -> (v: Vec<u8>)
    ensures
        v@ == lit_state_open(),
{
    let v = vec![123u8, 34u8, 83u8, 116u8, 97u8, 116u8, 101u8, 34u8, 58u8, 123u8, 34u8, 98u8, 111u8,
        97u8, 114u8, 100u8, 34u8, 58u8];
    proof {
        assert(v@ =~= lit_state_open());
    }
    v
}

fn vec_key_moves() -> (v: Vec<u8>)
    ensures
        v@ == lit_key_moves(),
{
    let v = vec![44u8, 34u8, 109u8, 111u8, 118u8, 101u8, 115u8, 34u8, 58u8];
    proof {
        assert(v@ =~= lit_key_moves());
    }
    v
}

fn vec_key_joever() -> (v: Vec<u8>)
    ensures
        v@ == lit_key_joever(),
{
    let v = vec![44u8, 34u8, 106u8, 111u8, 101u8, 118u8, 101u8, 114u8, 34u8, 58u8];
    proof {
        assert(v@ =~= lit_key_joever());
    }
    v
}

fn vec_key_move_made() -> (v: Vec<u8>)
    ensures
        v@ == lit_key_move_made(),
{
    let v = vec![44u8, 34u8, 109u8, 111u8, 118u8, 101u8, 95u8, 109u8, 97u8, 100u8, 101u8, 34u8, 58u8];
    proof {
        assert(v@ =~= lit_key_move_made());
    }
    v
}

fn vec_state_close() -> (v: Vec<u8>)
    ensures
        v@ == lit_state_close(),
{
    let v = vec![125u8, 125u8];
    proof {
        assert(v@ =~= lit_state_close());
    }
    v
}

fn vec_rejected() -> (v: Vec<u8>)
    ensures
        v@ == lit_rejected(),
{
    let v = vec![34u8, 82u8, 101u8, 106u8, 101u8, 99u8, 116u8, 101u8, 100u8, 34u8];
    proof {
        assert(v@ =~= lit_rejected());
    }
    v
}

fn vec_hs_req_open() -> (v: Vec<u8>)
    ensures
        v@ == lit_hs_req_open(),
{
    let v = vec![123u8, 34u8, 115u8, 101u8, 114u8, 118u8, 101u8, 114u8, 95u8, 99u8, 111u8, 108u8, 111u8,
        114u8, 34u8, 58u8];
    proof {
        assert(v@ =~= lit_hs_req_open());
    }
    v
}

fn vec_hs_resp_open() -> (v: Vec<u8>)
    ensures
        v@ == lit_hs_resp_open(),
{
    let v = vec![123u8, 34u8, 99u8, 111u8, 108u8, 111u8, 114u8, 34u8, 58u8];
    proof {
        assert(v@ =~= lit_hs_resp_open());
    }
    v
}

fn vec_key_board() -> (v: Vec<u8>)
    ensures
        v@ == lit_key_board(),
{
    let v = vec![44u8, 34u8, 98u8, 111u8, 97u8, 114u8, 100u8, 34u8, 58u8];
    proof {
        assert(v@ =~= lit_key_board());
    }
    v
}

// ---------------------------------------------------------------------------
// Names of the atoms (quoted enum tags).
// ---------------------------------------------------------------------------

/// The tag naming wire piece `p`.
pub open spec fn piece_name(p: Piece) -> Seq<u8> {
    match p {
        Piece::Empty => seq![78u8, 111u8, 110u8, 101u8],
        Piece::WhitePawn => seq![87u8, 104u8, 105u8, 116u8, 101u8, 80u8, 97u8, 119u8, 110u8],
        Piece::WhiteKnight => seq![87u8, 104u8, 105u8, 116u8, 101u8, 75u8, 110u8, 105u8, 103u8, 104u8,
            116u8],
        Piece::WhiteBishop => seq![87u8, 104u8, 105u8, 116u8, 101u8, 66u8, 105u8, 115u8, 104u8, 111u8,
            112u8],
        Piece::WhiteRook => seq![87u8, 104u8, 105u8, 116u8, 101u8, 82u8, 111u8, 111u8, 107u8],
        Piece::WhiteQueen => seq![87u8, 104u8, 105u8, 116u8, 101u8, 81u8, 117u8, 101u8, 101u8, 110u8],
        Piece::WhiteKing => seq![87u8, 104u8, 105u8, 116u8, 101u8, 75u8, 105u8, 110u8, 103u8],
        Piece::BlackPawn => seq![66u8, 108u8, 97u8, 99u8, 107u8, 80u8, 97u8, 119u8, 110u8],
        Piece::BlackKnight => seq![66u8, 108u8, 97u8, 99u8, 107u8, 75u8, 110u8, 105u8, 103u8, 104u8,
            116u8],
        Piece::BlackBishop => seq![66u8, 108u8, 97u8, 99u8, 107u8, 66u8, 105u8, 115u8, 104u8, 111u8,
            112u8],
        Piece::BlackRook => seq![66u8, 108u8, 97u8, 99u8, 107u8, 82u8, 111u8, 111u8, 107u8],
        Piece::BlackQueen => seq![66u8, 108u8, 97u8, 99u8, 107u8, 81u8, 117u8, 101u8, 101u8, 110u8],
        Piece::BlackKing => seq![66u8, 108u8, 97u8, 99u8, 107u8, 75u8, 105u8, 110u8, 103u8],
    }
}

fn vec_piece_name(p: Piece) -> (v: Vec<u8>)
    ensures
        v@ == piece_name(p),
{
    match p {
        Piece::Empty => {
            let v = vec![78u8, 111u8, 110u8, 101u8];
            proof {
                assert(v@ =~= piece_name(p));
            }
            v
        },
        Piece::WhitePawn => {
            let v = vec![87u8, 104u8, 105u8, 116u8, 101u8, 80u8, 97u8, 119u8, 110u8];
            proof {
                assert(v@ =~= piece_name(p));
            }
            v
        },
        Piece::WhiteKnight => {
            let v = vec![87u8, 104u8, 105u8, 116u8, 101u8, 75u8, 110u8, 105u8, 103u8, 104u8, 116u8];
            proof {
                assert(v@ =~= piece_name(p));
            }
            v
        },
        Piece::WhiteBishop => {
            let v = vec![87u8, 104u8, 105u8, 116u8, 101u8, 66u8, 105u8, 115u8, 104u8, 111u8, 112u8];
            proof {
                assert(v@ =~= piece_name(p));
            }
            v
        },
        Piece::WhiteRook => {
            let v = vec![87u8, 104u8, 105u8, 116u8, 101u8, 82u8, 111u8, 111u8, 107u8];
            proof {
                assert(v@ =~= piece_name(p));
            }
            v
        },
        Piece::WhiteQueen => {
            let v = vec![87u8, 104u8, 105u8, 116u8, 101u8, 81u8, 117u8, 101u8, 101u8, 110u8];
            proof {
                assert(v@ =~= piece_name(p));
            }
            v
        },
        Piece::WhiteKing => {
            let v = vec![87u8, 104u8, 105u8, 116u8, 101u8, 75u8, 105u8, 110u8, 103u8];
            proof {
                assert(v@ =~= piece_name(p));
            }
            v
        },
        Piece::BlackPawn => {
            let v = vec![66u8, 108u8, 97u8, 99u8, 107u8, 80u8, 97u8, 119u8, 110u8];
            proof {
                assert(v@ =~= piece_name(p));
            }
            v
        },
        Piece::BlackKnight => {
            let v = vec![66u8, 108u8, 97u8, 99u8, 107u8, 75u8, 110u8, 105u8, 103u8, 104u8, 116u8];
            proof {
                assert(v@ =~= piece_name(p));
            }
            v
        },
        Piece::BlackBishop => {
            let v = vec![66u8, 108u8, 97u8, 99u8, 107u8, 66u8, 105u8, 115u8, 104u8, 111u8, 112u8];
            proof {
                assert(v@ =~= piece_name(p));
            }
            v
        },
        Piece::BlackRook => {
            let v = vec![66u8, 108u8, 97u8, 99u8, 107u8, 82u8, 111u8, 111u8, 107u8];
            proof {
                assert(v@ =~= piece_name(p));
            }
            v
        },
        Piece::BlackQueen => {
            let v = vec![66u8, 108u8, 97u8, 99u8, 107u8, 81u8, 117u8, 101u8, 101u8, 110u8];
            proof {
                assert(v@ =~= piece_name(p));
            }
            v
        },
        Piece::BlackKing => {
            let v = vec![66u8, 108u8, 97u8, 99u8, 107u8, 75u8, 105u8, 110u8, 103u8];
            proof {
                assert(v@ =~= piece_name(p));
            }
            v
        },
    }
}

/// The tag naming color `c`.
pub open spec fn color_name(c: Color) -> Seq<u8> {
    match c {
        Color::White => seq![87u8, 104u8, 105u8, 116u8, 101u8],
        Color::Black => seq![66u8, 108u8, 97u8, 99u8, 107u8],
    }
}

fn vec_color_name(c: Color) -> (v: Vec<u8>)
    ensures
        v@ == color_name(c),
{
    match c {
        Color::White => {
            let v = vec![87u8, 104u8, 105u8, 116u8, 101u8];
            proof {
                assert(v@ =~= color_name(c));
            }
            v
        },
        Color::Black => {
            let v = vec![66u8, 108u8, 97u8, 99u8, 107u8];
            proof {
                assert(v@ =~= color_name(c));
            }
            v
        },
    }
}

/// The tag naming outcome `j`.
pub open spec fn joever_name(j: Joever) -> Seq<u8> {
    match j {
        Joever::Ongoing => seq![79u8, 110u8, 103u8, 111u8, 105u8, 110u8, 103u8],
        Joever::White => seq![87u8, 104u8, 105u8, 116u8, 101u8],
        Joever::Black => seq![66u8, 108u8, 97u8, 99u8, 107u8],
        Joever::Draw => seq![68u8, 114u8, 97u8, 119u8],
    }
}

fn vec_joever_name(j: Joever) -> (v: Vec<u8>)
    ensures
        v@ == joever_name(j),
{
    match j {
        Joever::Ongoing => {
            let v = vec![79u8, 110u8, 103u8, 111u8, 105u8, 110u8, 103u8];
            proof {
                assert(v@ =~= joever_name(j));
            }
            v
        },
        Joever::White => {
            let v = vec![87u8, 104u8, 105u8, 116u8, 101u8];
            proof {
                assert(v@ =~= joever_name(j));
            }
            v
        },
        Joever::Black => {
            let v = vec![66u8, 108u8, 97u8, 99u8, 107u8];
            proof {
                assert(v@ =~= joever_name(j));
            }
            v
        },
        Joever::Draw => {
            let v = vec![68u8, 114u8, 97u8, 119u8];
            proof {
                assert(v@ =~= joever_name(j));
            }
            v
        },
    }
}

// ---------------------------------------------------------------------------
// Encoding: spec forms and emitters.
// ---------------------------------------------------------------------------

/// `s` wrapped in double quotes.
pub open spec fn quoted(s: Seq<u8>) -> Seq<u8> {
    seq![34u8] + s + seq![34u8]
}

pub open spec fn enc_piece(p: Piece) -> Seq<u8> {
    quoted(piece_name(p))
}

pub open spec fn enc_color(c: Color) -> Seq<u8> {
    quoted(color_name(c))
}

pub open spec fn enc_joever(j: Joever) -> Seq<u8> {
    quoted(joever_name(j))
}

/// The single byte naming board coordinate `d` (0..=7).
pub open spec fn enc_digit(d: int) -> Seq<u8> {
    seq![(d + 48) as u8]
}

/// Appends the bytes of `v`.
fn emit_bytes(out: &mut Vec<u8>, v: &Vec<u8>)
    ensures
        final(out)@ == old(out)@ + v@,
{
    let n = v.len();
    for i in 0..n
        invariant
            n == v@.len(),
            out@ =~= old(out)@ + v@.subrange(0, i as int),
    {
        out.push(v[i]);
    }
    proof {
        assert(out@ =~= old(out)@ + v@);
    }
}

/// Appends the bytes of `name` wrapped in quotes.
fn emit_quoted(out: &mut Vec<u8>, name: &Vec<u8>)
    ensures
        final(out)@ == old(out)@ + quoted(name@),
{
    out.push(34u8);
    emit_bytes(out, name);
    out.push(34u8);
    proof {
        assert(out@ =~= old(out)@ + quoted(name@));
    }
}

fn emit_piece(out: &mut Vec<u8>, p: Piece)
    ensures
        final(out)@ == old(out)@ + enc_piece(p),
{
    let name = vec_piece_name(p);
    emit_quoted(out, &name);
}

fn emit_color(out: &mut Vec<u8>, c: Color)
    ensures
        final(out)@ == old(out)@ + enc_color(c),
{
    let name = vec_color_name(c);
    emit_quoted(out, &name);
}

fn emit_joever(out: &mut Vec<u8>, j: Joever)
    ensures
        final(out)@ == old(out)@ + enc_joever(j),
{
    let name = vec_joever_name(j);
    emit_quoted(out, &name);
}

fn emit_digit(out: &mut Vec<u8>, d: usize)
    requires
        d <= 7,
    ensures
        final(out)@ == old(out)@ + enc_digit(d as int),
{
    out.push(48u8 + d as u8);
    proof {
        assert(out@ =~= old(out)@ + enc_digit(d as int));
    }
}

// ---------------------------------------------------------------------------
// Decoding: spec parser and executable parser, atoms first.
// ---------------------------------------------------------------------------

/// Expects exactly the bytes of `lit` at `pos`. A buffer that ends before
/// the literal does is reported short without inspecting it.
pub open spec fn sdec_lit(s: Seq<u8>, pos: int, lit: Seq<u8>) -> SpecDec<()> {
    if pos + lit.len() > s.len() {
        SpecDec::Short
    } else if s.subrange(pos, pos + lit.len() as int) == lit {
        SpecDec::Done((), pos + lit.len() as int)
    } else {
        SpecDec::Bad
    }
}

fn expect_lit(buf: &Vec<u8>, pos: usize, lit: &Vec<u8>) -> (r: DecodeOutcome<()>)
    requires
        pos <= buf@.len(),
    ensures
        reflects(r, sdec_lit(buf@, pos as int, lit@)),
{
    if buf.len() - pos < lit.len() {
        return DecodeOutcome::Incomplete;
    }
    let n = lit.len();
    for i in 0..n
        invariant
            pos + n <= buf@.len(),
            pos + n <= usize::MAX,
            n == lit@.len(),
            forall|k: int| 0 <= k < i ==> buf@[pos + k] == lit@[k],
    {
        if buf[pos + i] != lit[i] {
            proof {
                assert(buf@.subrange(pos as int, pos + n as int)[i as int] != lit@[i as int]);
            }
            return DecodeOutcome::Malformed;
        }
    }
    proof {
        assert(buf@.subrange(pos as int, pos + n as int) =~= lit@);
    }
    DecodeOutcome::Done((), pos + n)
}

/// Expects a single digit 0..=7 at `pos`.
pub open spec fn sdec_digit(s: Seq<u8>, pos: int) -> SpecDec<usize> {
    if pos >= s.len() {
        SpecDec::Short
    } else if 48 <= s[pos] <= 55 {
        SpecDec::Done((s[pos] - 48) as usize, pos + 1)
    } else {
        SpecDec::Bad
    }
}

fn read_digit(buf: &Vec<u8>, pos: usize) -> (r: DecodeOutcome<usize>)
    requires
        pos <= buf@.len(),
    ensures
        reflects(r, sdec_digit(buf@, pos as int)),
{
    if pos >= buf.len() {
        return DecodeOutcome::Incomplete;
    }
    let b = buf[pos];
    if 48u8 <= b && b <= 55u8 {
        DecodeOutcome::Done((b - 48u8) as usize, pos + 1)
    } else {
        DecodeOutcome::Malformed
    }
}

/// The position of the first `"` at or after `pos`.
pub open spec fn sfind_quote(s: Seq<u8>, pos: int) -> SpecDec<()>
    decreases s.len() - pos,
{
    if pos >= s.len() {
        SpecDec::Short
    } else if s[pos] == 34u8 {
        SpecDec::Done((), pos)
    } else {
        sfind_quote(s, pos + 1)
    }
}

/// Expects a quoted atom at `pos`: its token is the bytes between the
/// quotes, and the cursor moves past the closing quote.
pub open spec fn sdec_atom(s: Seq<u8>, pos: int) -> SpecDec<Seq<u8>> {
    if pos >= s.len() {
        SpecDec::Short
    } else if s[pos] != 34u8 {
        SpecDec::Bad
    } else {
        match sfind_quote(s, pos + 1) {
            SpecDec::Done(_, q) => SpecDec::Done(s.subrange(pos + 1, q), q + 1),
            SpecDec::Short => SpecDec::Short,
            SpecDec::Bad => SpecDec::Bad,
        }
    }
}

/// Finds the closing quote of an atom opened before `pos`, scanning from
/// `pos` itself.
fn find_quote(buf: &Vec<u8>, pos: usize) -> (r: DecodeOutcome<()>)
    requires
        pos <= buf@.len(),
    ensures
        reflects(r, sfind_quote(buf@, pos as int)),
        r matches DecodeOutcome::Done(v, q) ==> pos <= q < buf@.len() && buf@[q as int] == 34u8,
{
    let mut i = pos;
    loop
        invariant
            pos <= i <= buf@.len(),
            sfind_quote(buf@, pos as int) == sfind_quote(buf@, i as int),
        decreases buf@.len() - i,
    {
        if i >= buf.len() {
            return DecodeOutcome::Incomplete;
        }
        if buf[i] == 34u8 {
            return DecodeOutcome::Done((), i);
        }
        i = i + 1;
    }
}

/// Compares `buf[lo..hi]` with `lit`.
fn range_eq(buf: &Vec<u8>, lo: usize, hi: usize, lit: &Vec<u8>) -> (r: bool)
    requires
        lo <= hi <= buf@.len(),
    ensures
        r == (buf@.subrange(lo as int, hi as int) == lit@),
{
    if hi - lo != lit.len() {
        return false;
    }
    let n = lit.len();
    for i in 0..n
        invariant
            lo + n <= buf@.len(),
            lo + n <= usize::MAX,
            hi == lo + n,
            n == lit@.len(),
            forall|k: int| 0 <= k < i ==> buf@[lo + k] == lit@[k],
    {
        if buf[lo + i] != lit[i] {
            proof {
                assert(buf@.subrange(lo as int, hi as int)[i as int] != lit@[i as int]);
            }
            return false;
        }
    }
    proof {
        assert(buf@.subrange(lo as int, hi as int) =~= lit@);
    }
    true
}

/// The piece named by token `t`, if any.
pub open spec fn token_piece(t: Seq<u8>) -> Option<Piece> {
    if t == piece_name(Piece::Empty) {
        Some(Piece::Empty)
    } else if t == piece_name(Piece::WhitePawn) {
        Some(Piece::WhitePawn)
    } else if t == piece_name(Piece::WhiteKnight) {
        Some(Piece::WhiteKnight)
    } else if t == piece_name(Piece::WhiteBishop) {
        Some(Piece::WhiteBishop)
    } else if t == piece_name(Piece::WhiteRook) {
        Some(Piece::WhiteRook)
    } else if t == piece_name(Piece::WhiteQueen) {
        Some(Piece::WhiteQueen)
    } else if t == piece_name(Piece::WhiteKing) {
        Some(Piece::WhiteKing)
    } else if t == piece_name(Piece::BlackPawn) {
        Some(Piece::BlackPawn)
    } else if t == piece_name(Piece::BlackKnight) {
        Some(Piece::BlackKnight)
    } else if t == piece_name(Piece::BlackBishop) {
        Some(Piece::BlackBishop)
    } else if t == piece_name(Piece::BlackRook) {
        Some(Piece::BlackRook)
    } else if t == piece_name(Piece::BlackQueen) {
        Some(Piece::BlackQueen)
    } else if t == piece_name(Piece::BlackKing) {
        Some(Piece::BlackKing)
    } else {
        None
    }
}

/// Expects a quoted piece tag at `pos`.
pub open spec fn sdec_piece(s: Seq<u8>, pos: int) -> SpecDec<Piece> {
    match sdec_atom(s, pos) {
        SpecDec::Done(t, end) => match token_piece(t) {
            Some(p) => SpecDec::Done(p, end),
            None => SpecDec::Bad,
        },
        SpecDec::Short => SpecDec::Short,
        SpecDec::Bad => SpecDec::Bad,
    }
}

fn decode_piece(buf: &Vec<u8>, pos: usize) -> (r: DecodeOutcome<Piece>)
    requires
        pos <= buf@.len(),
    ensures
        reflects(r, sdec_piece(buf@, pos as int)),
        r matches DecodeOutcome::Done(v, n) ==> pos < n <= buf@.len(),
{
    if pos >= buf.len() {
        return DecodeOutcome::Incomplete;
    }
    if buf[pos] != 34u8 {
        return DecodeOutcome::Malformed;
    }
    let q: usize;
    match find_quote(buf, pos + 1) {
        DecodeOutcome::Done(_, qq) => {
            q = qq;
        },
        DecodeOutcome::Incomplete => {
            return DecodeOutcome::Incomplete;
        },
        DecodeOutcome::Malformed => {
            return DecodeOutcome::Malformed;
        },
    }
    let lo = pos + 1;
    let ghost t = buf@.subrange(lo as int, q as int);
    let p: Piece;
    if range_eq(buf, lo, q, &vec_piece_name(Piece::Empty)) {
        p = Piece::Empty;
    } else if range_eq(buf, lo, q, &vec_piece_name(Piece::WhitePawn)) {
        p = Piece::WhitePawn;
    } else if range_eq(buf, lo, q, &vec_piece_name(Piece::WhiteKnight)) {
        p = Piece::WhiteKnight;
    } else if range_eq(buf, lo, q, &vec_piece_name(Piece::WhiteBishop)) {
        p = Piece::WhiteBishop;
    } else if range_eq(buf, lo, q, &vec_piece_name(Piece::WhiteRook)) {
        p = Piece::WhiteRook;
    } else if range_eq(buf, lo, q, &vec_piece_name(Piece::WhiteQueen)) {
        p = Piece::WhiteQueen;
    } else if range_eq(buf, lo, q, &vec_piece_name(Piece::WhiteKing)) {
        p = Piece::WhiteKing;
    } else if range_eq(buf, lo, q, &vec_piece_name(Piece::BlackPawn)) {
        p = Piece::BlackPawn;
    } else if range_eq(buf, lo, q, &vec_piece_name(Piece::BlackKnight)) {
        p = Piece::BlackKnight;
    } else if range_eq(buf, lo, q, &vec_piece_name(Piece::BlackBishop)) {
        p = Piece::BlackBishop;
    } else if range_eq(buf, lo, q, &vec_piece_name(Piece::BlackRook)) {
        p = Piece::BlackRook;
    } else if range_eq(buf, lo, q, &vec_piece_name(Piece::BlackQueen)) {
        p = Piece::BlackQueen;
    } else if range_eq(buf, lo, q, &vec_piece_name(Piece::BlackKing)) {
        p = Piece::BlackKing;
    } else {
        return DecodeOutcome::Malformed;
    }
    DecodeOutcome::Done(p, q + 1)
}

/// The color named by token `t`, if any.
pub open spec fn token_color(t: Seq<u8>) -> Option<Color> {
    if t == color_name(Color::White) {
        Some(Color::White)
    } else if t == color_name(Color::Black) {
        Some(Color::Black)
    } else {
        None
    }
}

/// Expects a quoted color tag at `pos`.
pub open spec fn sdec_color(s: Seq<u8>, pos: int) -> SpecDec<Color> {
    match sdec_atom(s, pos) {
        SpecDec::Done(t, end) => match token_color(t) {
            Some(c) => SpecDec::Done(c, end),
            None => SpecDec::Bad,
        },
        SpecDec::Short => SpecDec::Short,
        SpecDec::Bad => SpecDec::Bad,
    }
}

fn decode_color(buf: &Vec<u8>, pos: usize) -> (r: DecodeOutcome<Color>)
    requires
        pos <= buf@.len(),
    ensures
        reflects(r, sdec_color(buf@, pos as int)),
        r matches DecodeOutcome::Done(v, n) ==> pos < n <= buf@.len(),
{
    if pos >= buf.len() {
        return DecodeOutcome::Incomplete;
    }
    if buf[pos] != 34u8 {
        return DecodeOutcome::Malformed;
    }
    let q: usize;
    match find_quote(buf, pos + 1) {
        DecodeOutcome::Done(_, qq) => {
            q = qq;
        },
        DecodeOutcome::Incomplete => {
            return DecodeOutcome::Incomplete;
        },
        DecodeOutcome::Malformed => {
            return DecodeOutcome::Malformed;
        },
    }
    let lo = pos + 1;
    if range_eq(buf, lo, q, &vec_color_name(Color::White)) {
        DecodeOutcome::Done(Color::White, q + 1)
    } else if range_eq(buf, lo, q, &vec_color_name(Color::Black)) {
        DecodeOutcome::Done(Color::Black, q + 1)
    } else {
        DecodeOutcome::Malformed
    }
}

/// The outcome named by token `t`, if any.
pub open spec fn token_joever(t: Seq<u8>) -> Option<Joever> {
    if t == joever_name(Joever::Ongoing) {
        Some(Joever::Ongoing)
    } else if t == joever_name(Joever::White) {
        Some(Joever::White)
    } else if t == joever_name(Joever::Black) {
        Some(Joever::Black)
    } else if t == joever_name(Joever::Draw) {
        Some(Joever::Draw)
    } else {
        None
    }
}

/// Expects a quoted outcome tag at `pos`.
pub open spec fn sdec_joever(s: Seq<u8>, pos: int) -> SpecDec<Joever> {
    match sdec_atom(s, pos) {
        SpecDec::Done(t, end) => match token_joever(t) {
            Some(j) => SpecDec::Done(j, end),
            None => SpecDec::Bad,
        },
        SpecDec::Short => SpecDec::Short,
        SpecDec::Bad => SpecDec::Bad,
    }
}

fn decode_joever(buf: &Vec<u8>, pos: usize) -> (r: DecodeOutcome<Joever>)
    requires
        pos <= buf@.len(),
    ensures
        reflects(r, sdec_joever(buf@, pos as int)),
        r matches DecodeOutcome::Done(v, n) ==> pos < n <= buf@.len(),
{
    if pos >= buf.len() {
        return DecodeOutcome::Incomplete;
    }
    if buf[pos] != 34u8 {
        return DecodeOutcome::Malformed;
    }
    let q: usize;
    match find_quote(buf, pos + 1) {
        DecodeOutcome::Done(_, qq) => {
            q = qq;
        },
        DecodeOutcome::Incomplete => {
            return DecodeOutcome::Incomplete;
        },
        DecodeOutcome::Malformed => {
            return DecodeOutcome::Malformed;
        },
    }
    let lo = pos + 1;
    if range_eq(buf, lo, q, &vec_joever_name(Joever::Ongoing)) {
        DecodeOutcome::Done(Joever::Ongoing, q + 1)
    } else if range_eq(buf, lo, q, &vec_joever_name(Joever::White)) {
        DecodeOutcome::Done(Joever::White, q + 1)
    } else if range_eq(buf, lo, q, &vec_joever_name(Joever::Black)) {
        DecodeOutcome::Done(Joever::Black, q + 1)
    } else if range_eq(buf, lo, q, &vec_joever_name(Joever::Draw)) {
        DecodeOutcome::Done(Joever::Draw, q + 1)
    } else {
        DecodeOutcome::Malformed
    }
}

// ---------------------------------------------------------------------------
// Moves.
// ---------------------------------------------------------------------------

/// The record form of one wire move.
pub open spec fn enc_move(m: Move) -> Seq<u8> {
    lit_move_open() + enc_digit(m.start_x as int) + lit_key_start_y() + enc_digit(m.start_y as int)
        + lit_key_end_x() + enc_digit(m.end_x as int) + lit_key_end_y() + enc_digit(
        m.end_y as int,
    ) + lit_key_promotion() + enc_piece(m.promotion) + lit_rbrace()
}

fn emit_move(out: &mut Vec<u8>, m: &Move)
    requires
        m.wf(),
    ensures
        final(out)@ == old(out)@ + enc_move(*m),
{
    let key = vec_move_open();
    emit_bytes(out, &key);
    emit_digit(out, m.start_x);
    let key = vec_key_start_y();
    emit_bytes(out, &key);
    emit_digit(out, m.start_y);
    let key = vec_key_end_x();
    emit_bytes(out, &key);
    emit_digit(out, m.end_x);
    let key = vec_key_end_y();
    emit_bytes(out, &key);
    emit_digit(out, m.end_y);
    let key = vec_key_promotion();
    emit_bytes(out, &key);
    emit_piece(out, m.promotion);
    out.push(125u8);
    proof {
        assert(out@ =~= old(out)@ + enc_move(*m));
    }
}

/// Expects one wire-move record at `pos`.
pub open spec fn sdec_move(s: Seq<u8>, pos: int) -> SpecDec<Move> {
    match sdec_lit(s, pos, lit_move_open()) {
        SpecDec::Done(_, p1) => match sdec_digit(s, p1) {
            SpecDec::Done(sx, p2) => match sdec_lit(s, p2, lit_key_start_y()) {
                SpecDec::Done(_, p3) => match sdec_digit(s, p3) {
                    SpecDec::Done(sy, p4) => match sdec_lit(s, p4, lit_key_end_x()) {
                        SpecDec::Done(_, p5) => match sdec_digit(s, p5) {
                            SpecDec::Done(ex, p6) => match sdec_lit(s, p6, lit_key_end_y()) {
                                SpecDec::Done(_, p7) => match sdec_digit(s, p7) {
                                    SpecDec::Done(ey, p8) => sdec_move_tail(s, p8, sx, sy, ex, ey),
                                    SpecDec::Short => SpecDec::Short,
                                    SpecDec::Bad => SpecDec::Bad,
                                },
                                SpecDec::Short => SpecDec::Short,
                                SpecDec::Bad => SpecDec::Bad,
                            },
                            SpecDec::Short => SpecDec::Short,
                            SpecDec::Bad => SpecDec::Bad,
                        },
                        SpecDec::Short => SpecDec::Short,
                        SpecDec::Bad => SpecDec::Bad,
                    },
                    SpecDec::Short => SpecDec::Short,
                    SpecDec::Bad => SpecDec::Bad,
                },
                SpecDec::Short => SpecDec::Short,
                SpecDec::Bad => SpecDec::Bad,
            },
            SpecDec::Short => SpecDec::Short,
            SpecDec::Bad => SpecDec::Bad,
        },
        SpecDec::Short => SpecDec::Short,
        SpecDec::Bad => SpecDec::Bad,
    }
}

/// The promotion field and closing brace of a wire-move record.
pub open spec fn sdec_move_tail(s: Seq<u8>, pos: int, sx: usize, sy: usize, ex: usize, ey: usize)
    -> SpecDec<Move> {
    match sdec_lit(s, pos, lit_key_promotion()) {
        SpecDec::Done(_, p9) => match sdec_piece(s, p9) {
            SpecDec::Done(pr, p10) => match sdec_lit(s, p10, lit_rbrace()) {
                SpecDec::Done(_, p11) => SpecDec::Done(
                    Move { start_x: sx, start_y: sy, end_x: ex, end_y: ey, promotion: pr },
                    p11,
                ),
                SpecDec::Short => SpecDec::Short,
                SpecDec::Bad => SpecDec::Bad,
            },
            SpecDec::Short => SpecDec::Short,
            SpecDec::Bad => SpecDec::Bad,
        },
        SpecDec::Short => SpecDec::Short,
        SpecDec::Bad => SpecDec::Bad,
    }
}

fn decode_move(buf: &Vec<u8>, pos: usize) -> (r: DecodeOutcome<Move>)
    requires
        pos <= buf@.len(),
    ensures
        reflects(r, sdec_move(buf@, pos as int)),
        r matches DecodeOutcome::Done(m, n) ==> pos < n <= buf@.len() && m.wf(),
{
    let key = vec_move_open();
    let p1 = match expect_lit(buf, pos, &key) {
        DecodeOutcome::Done(_, p) => p,
        DecodeOutcome::Incomplete => { return DecodeOutcome::Incomplete },
        DecodeOutcome::Malformed => { return DecodeOutcome::Malformed },
    };
    let (sx, p2) = match read_digit(buf, p1) {
        DecodeOutcome::Done(d, p) => (d, p),
        DecodeOutcome::Incomplete => { return DecodeOutcome::Incomplete },
        DecodeOutcome::Malformed => { return DecodeOutcome::Malformed },
    };
    let key = vec_key_start_y();
    let p3 = match expect_lit(buf, p2, &key) {
        DecodeOutcome::Done(_, p) => p,
        DecodeOutcome::Incomplete => { return DecodeOutcome::Incomplete },
        DecodeOutcome::Malformed => { return DecodeOutcome::Malformed },
    };
    let (sy, p4) = match read_digit(buf, p3) {
        DecodeOutcome::Done(d, p) => (d, p),
        DecodeOutcome::Incomplete => { return DecodeOutcome::Incomplete },
        DecodeOutcome::Malformed => { return DecodeOutcome::Malformed },
    };
    let key = vec_key_end_x();
    let p5 = match expect_lit(buf, p4, &key) {
        DecodeOutcome::Done(_, p) => p,
        DecodeOutcome::Incomplete => { return DecodeOutcome::Incomplete },
        DecodeOutcome::Malformed => { return DecodeOutcome::Malformed },
    };
    let (ex, p6) = match read_digit(buf, p5) {
        DecodeOutcome::Done(d, p) => (d, p),
        DecodeOutcome::Incomplete => { return DecodeOutcome::Incomplete },
        DecodeOutcome::Malformed => { return DecodeOutcome::Malformed },
    };
    let key = vec_key_end_y();
    let p7 = match expect_lit(buf, p6, &key) {
        DecodeOutcome::Done(_, p) => p,
        DecodeOutcome::Incomplete => { return DecodeOutcome::Incomplete },
        DecodeOutcome::Malformed => { return DecodeOutcome::Malformed },
    };
    let (ey, p8) = match read_digit(buf, p7) {
        DecodeOutcome::Done(d, p) => (d, p),
        DecodeOutcome::Incomplete => { return DecodeOutcome::Incomplete },
        DecodeOutcome::Malformed => { return DecodeOutcome::Malformed },
    };
    let key = vec_key_promotion();
    let p9 = match expect_lit(buf, p8, &key) {
        DecodeOutcome::Done(_, p) => p,
        DecodeOutcome::Incomplete => { return DecodeOutcome::Incomplete },
        DecodeOutcome::Malformed => { return DecodeOutcome::Malformed },
    };
    let (pr, p10) = match decode_piece(buf, p9) {
        DecodeOutcome::Done(d, p) => (d, p),
        DecodeOutcome::Incomplete => { return DecodeOutcome::Incomplete },
        DecodeOutcome::Malformed => { return DecodeOutcome::Malformed },
    };
    let rb = vec_rbrace();
    let p11 = match expect_lit(buf, p10, &rb) {
        DecodeOutcome::Done(_, p) => p,
        DecodeOutcome::Incomplete => { return DecodeOutcome::Incomplete },
        DecodeOutcome::Malformed => { return DecodeOutcome::Malformed },
    };
    DecodeOutcome::Done(
        Move { start_x: sx, start_y: sy, end_x: ex, end_y: ey, promotion: pr },
        p11,
    )
}

fn vec_rbrace() -> (v: Vec<u8>)
    ensures
        v@ == lit_rbrace(),
{
    let v = vec![125u8];
    proof {
        assert(v@ =~= lit_rbrace());
    }
    v
}

// ---------------------------------------------------------------------------
// Lists: comma-separated items between brackets.
// ---------------------------------------------------------------------------

/// The bytes of list items `v[i..]`, each preceded by a comma, then the
/// closing bracket.
pub open spec fn enc_list_rest<T>(v: Seq<T>, i: int, f: spec_fn(T) -> Seq<u8>) -> Seq<u8>
    decreases v.len() - i,
{
    if i >= v.len() {
        seq![93u8]
    } else {
        seq![44u8] + f(v[i]) + enc_list_rest(v, i + 1, f)
    }
}

/// The bytes of the whole list `v`, items encoded by `f`.
pub open spec fn enc_list<T>(v: Seq<T>, f: spec_fn(T) -> Seq<u8>) -> Seq<u8> {
    if v.len() == 0 {
        seq![91u8, 93u8]
    } else {
        seq![91u8] + f(v[0]) + enc_list_rest(v, 1, f)
    }
}

/// Continues a list at `pos`: either the closing bracket, or a comma and
/// one more item. `fuel` only bounds the recursion; any fuel at least the
/// number of remaining items gives the same answer.
pub open spec fn sdec_list_rest<T>(
    s: Seq<u8>,
    pos: int,
    f: spec_fn(Seq<u8>, int) -> SpecDec<T>,
    acc: Seq<T>,
    fuel: nat,
) -> SpecDec<Seq<T>>
    decreases fuel,
{
    if pos >= s.len() {
        SpecDec::Short
    } else if s[pos] == 93u8 {
        SpecDec::Done(acc, pos + 1)
    } else if s[pos] == 44u8 {
        if fuel == 0 {
            SpecDec::Short
        } else {
            match f(s, pos + 1) {
                SpecDec::Done(v, p2) => sdec_list_rest(s, p2, f, acc.push(v), (fuel - 1) as nat),
                SpecDec::Short => SpecDec::Short,
                SpecDec::Bad => SpecDec::Bad,
            }
        }
    } else {
        SpecDec::Bad
    }
}

/// Expects a whole list at `pos`, items decoded by `f`.
pub open spec fn sdec_list<T>(s: Seq<u8>, pos: int, f: spec_fn(Seq<u8>, int) -> SpecDec<T>)
    -> SpecDec<Seq<T>> {
    if pos >= s.len() {
        SpecDec::Short
    } else if s[pos] != 91u8 {
        SpecDec::Bad
    } else if pos + 1 >= s.len() {
        SpecDec::Short
    } else if s[pos + 1] == 93u8 {
        SpecDec::Done(Seq::empty(), pos + 2)
    } else {
        match f(s, pos + 1) {
            SpecDec::Done(v, p2) => sdec_list_rest(s, p2, f, seq![v], s.len() as nat),
            SpecDec::Short => SpecDec::Short,
            SpecDec::Bad => SpecDec::Bad,
        }
    }
}

/// The item decoder of piece lists.
pub open spec fn piece_sdec() -> spec_fn(Seq<u8>, int) -> SpecDec<Piece> {
    |s: Seq<u8>, pos: int| sdec_piece(s, pos)
}

/// The item encoder of piece lists.
pub open spec fn piece_enc() -> spec_fn(Piece) -> Seq<u8> {
    |p: Piece| enc_piece(p)
}

/// The item decoder of move lists.
pub open spec fn move_sdec() -> spec_fn(Seq<u8>, int) -> SpecDec<Move> {
    |s: Seq<u8>, pos: int| sdec_move(s, pos)
}

/// The item encoder of move lists.
pub open spec fn move_enc() -> spec_fn(Move) -> Seq<u8> {
    |m: Move| enc_move(m)
}

/// The item decoder of row lists.
pub open spec fn row_sdec() -> spec_fn(Seq<u8>, int) -> SpecDec<Seq<Piece>> {
    |s: Seq<u8>, pos: int| sdec_row(s, pos)
}

/// The item encoder of row lists.
pub open spec fn row_enc() -> spec_fn(Seq<Piece>) -> Seq<u8> {
    |r: Seq<Piece>| enc_row(r)
}

/// One board rank as a list of eight pieces.
pub open spec fn enc_row(r: Seq<Piece>) -> Seq<u8> {
    enc_list(r, piece_enc())
}

pub open spec fn sdec_row(s: Seq<u8>, pos: int) -> SpecDec<Seq<Piece>> {
    sdec_list(s, pos, piece_sdec())
}

/// The whole board as a list of eight ranks.
pub open spec fn enc_board(b: Seq<Seq<Piece>>) -> Seq<u8> {
    enc_list(b, row_enc())
}

/// Expects a full 8x8 board: a list of exactly eight rows of exactly eight
/// pieces. A grid of any other shape is malformed.
pub open spec fn sdec_board(s: Seq<u8>, pos: int) -> SpecDec<Seq<Seq<Piece>>> {
    match sdec_list(s, pos, row_sdec()) {
        SpecDec::Done(rows, end) => if rows.len() == 8 && (forall|i: int|
            0 <= i < 8 ==> (#[trigger] rows[i]).len() == 8) {
            SpecDec::Done(rows, end)
        } else {
            SpecDec::Bad
        },
        SpecDec::Short => SpecDec::Short,
        SpecDec::Bad => SpecDec::Bad,
    }
}

/// A move list.
pub open spec fn enc_moves(ms: Seq<Move>) -> Seq<u8> {
    enc_list(ms, move_enc())
}

pub open spec fn sdec_moves(s: Seq<u8>, pos: int) -> SpecDec<Seq<Move>> {
    sdec_list(s, pos, move_sdec())
}

fn emit_row(out: &mut Vec<u8>, row: &Vec<Piece>)
    ensures
        final(out)@ == old(out)@ + enc_row(row@),
{
    out.push(91u8);
    let n = row.len();
    if n == 0 {
        out.push(93u8);
        proof {
            assert(out@ =~= old(out)@ + enc_row(row@));
        }
        return ;
    }
    emit_piece(out, row[0]);
    for i in 1..n
        invariant
            n == row@.len(),
            1 <= i <= n,
            out@ + enc_list_rest(row@, i as int, piece_enc()) =~= old(out)@ + enc_row(row@),
    {
        out.push(44u8);
        emit_piece(out, row[i]);
        proof {
            assert(enc_list_rest(row@, i as int, piece_enc()) == seq![44u8] + piece_enc()(
                row@[i as int],
            ) + enc_list_rest(row@, i + 1, piece_enc()));
            assert(out@ + enc_list_rest(row@, i + 1, piece_enc()) =~= old(out)@ + enc_row(row@));
        }
    }
    out.push(93u8);
    proof {
        assert(enc_list_rest(row@, n as int, piece_enc()) == seq![93u8]);
        assert(out@ =~= old(out)@ + enc_row(row@));
    }
}

fn emit_moves(out: &mut Vec<u8>, ms: &Vec<Move>)
    requires
        forall|i: int| 0 <= i < ms@.len() ==> (#[trigger] ms@[i]).wf(),
    ensures
        final(out)@ == old(out)@ + enc_moves(ms@),
{
    out.push(91u8);
    let n = ms.len();
    if n == 0 {
        out.push(93u8);
        proof {
            assert(out@ =~= old(out)@ + enc_moves(ms@));
        }
        return ;
    }
    emit_move(out, &ms[0]);
    for i in 1..n
        invariant
            n == ms@.len(),
            1 <= i <= n,
            forall|k: int| 0 <= k < ms@.len() ==> (#[trigger] ms@[k]).wf(),
            out@ + enc_list_rest(ms@, i as int, move_enc()) =~= old(out)@ + enc_moves(ms@),
    {
        out.push(44u8);
        emit_move(out, &ms[i]);
        proof {
            assert(enc_list_rest(ms@, i as int, move_enc()) == seq![44u8] + move_enc()(
                ms@[i as int],
            ) + enc_list_rest(ms@, i + 1, move_enc()));
            assert(out@ + enc_list_rest(ms@, i + 1, move_enc()) =~= old(out)@ + enc_moves(ms@));
        }
    }
    out.push(93u8);
    proof {
        assert(enc_list_rest(ms@, n as int, move_enc()) == seq![93u8]);
        assert(out@ =~= old(out)@ + enc_moves(ms@));
    }
}

fn emit_board(out: &mut Vec<u8>, b: &Board)
    requires
        b.wf(),
    ensures
        final(out)@ == old(out)@ + enc_board(b@),
{
    out.push(91u8);
    proof {
        assert(b@.len() == 8);
    }
    let row = board_row(b, 0);
    emit_row(out, &row);
    for y in 1..8usize
        invariant
            b.wf(),
            out@ + enc_list_rest(b@, y as int, row_enc()) =~= old(out)@ + enc_board(b@),
    {
        out.push(44u8);
        let row = board_row(b, y);
        emit_row(out, &row);
        proof {
            assert(enc_list_rest(b@, y as int, row_enc()) == seq![44u8] + row_enc()(b@[y as int])
                + enc_list_rest(b@, y + 1, row_enc()));
            assert(out@ + enc_list_rest(b@, y + 1, row_enc()) =~= old(out)@ + enc_board(b@));
        }
    }
    out.push(93u8);
    proof {
        assert(enc_list_rest(b@, 8, row_enc()) == seq![93u8]);
        assert(out@ =~= old(out)@ + enc_board(b@));
    }
}

/// A copy of rank `y` of the board.
fn board_row(b: &Board, y: usize) -> (row: Vec<Piece>)
    requires
        b.wf(),
        y <= 7,
    ensures
        row@ == b@[y as int],
{
    let mut row: Vec<Piece> = Vec::new();
    for x in 0..8usize
        invariant
            b.wf(),
            y <= 7,
            row@.len() == x,
            forall|c: int| 0 <= c < x ==> #[trigger] row@[c] == b@[y as int][c],
    {
        row.push(b.at(x, y));
    }
    proof {
        assert(row@ =~= b@[y as int]);
    }
    row
}

fn decode_row(buf: &Vec<u8>, pos: usize) -> (r: DecodeOutcome<Vec<Piece>>)
    requires
        pos <= buf@.len(),
    ensures
        reflects_view(r, sdec_row(buf@, pos as int)),
        r matches DecodeOutcome::Done(v, n) ==> pos < n <= buf@.len(),
{
    if pos >= buf.len() {
        return DecodeOutcome::Incomplete;
    }
    if buf[pos] != 91u8 {
        return DecodeOutcome::Malformed;
    }
    if pos + 1 >= buf.len() {
        return DecodeOutcome::Incomplete;
    }
    if buf[pos + 1] == 93u8 {
        let empty: Vec<Piece> = Vec::new();
        return DecodeOutcome::Done(empty, pos + 2);
    }
    let mut acc: Vec<Piece> = Vec::new();
    let mut cur: usize;
    match decode_piece(buf, pos + 1) {
        DecodeOutcome::Done(p, p2) => {
            acc.push(p);
            cur = p2;
        },
        DecodeOutcome::Incomplete => { return DecodeOutcome::Incomplete },
        DecodeOutcome::Malformed => { return DecodeOutcome::Malformed },
    }
    let ghost mut fuel: nat = buf@.len() as nat;
    loop
        invariant
            pos < cur <= buf@.len(),
            fuel >= buf@.len() - cur,
            sdec_row(buf@, pos as int) == sdec_list_rest(
                buf@,
                cur as int,
                piece_sdec(),
                acc@,
                fuel,
            ),
        decreases buf@.len() - cur,
    {
        if cur >= buf.len() {
            return DecodeOutcome::Incomplete;
        }
        if buf[cur] == 93u8 {
            return DecodeOutcome::Done(acc, cur + 1);
        }
        if buf[cur] != 44u8 {
            return DecodeOutcome::Malformed;
        }
        match decode_piece(buf, cur + 1) {
            DecodeOutcome::Done(p, p2) => {
                acc.push(p);
                proof {
                    fuel = (fuel - 1) as nat;
                }
                cur = p2;
            },
            DecodeOutcome::Incomplete => { return DecodeOutcome::Incomplete },
            DecodeOutcome::Malformed => { return DecodeOutcome::Malformed },
        }
    }
}

fn decode_moves(buf: &Vec<u8>, pos: usize) -> (r: DecodeOutcome<Vec<Move>>)
    requires
        pos <= buf@.len(),
    ensures
        reflects_view(r, sdec_moves(buf@, pos as int)),
        r matches DecodeOutcome::Done(v, n) ==> pos < n <= buf@.len() && (forall|i: int|
            0 <= i < v@.len() ==> (#[trigger] v@[i]).wf()),
{
    if pos >= buf.len() {
        return DecodeOutcome::Incomplete;
    }
    if buf[pos] != 91u8 {
        return DecodeOutcome::Malformed;
    }
    if pos + 1 >= buf.len() {
        return DecodeOutcome::Incomplete;
    }
    if buf[pos + 1] == 93u8 {
        let empty: Vec<Move> = Vec::new();
        return DecodeOutcome::Done(empty, pos + 2);
    }
    let mut acc: Vec<Move> = Vec::new();
    let mut cur: usize;
    match decode_move(buf, pos + 1) {
        DecodeOutcome::Done(m, p2) => {
            acc.push(m);
            cur = p2;
        },
        DecodeOutcome::Incomplete => { return DecodeOutcome::Incomplete },
        DecodeOutcome::Malformed => { return DecodeOutcome::Malformed },
    }
    let ghost mut fuel: nat = buf@.len() as nat;
    loop
        invariant
            pos < cur <= buf@.len(),
            fuel >= buf@.len() - cur,
            forall|i: int| 0 <= i < acc@.len() ==> (#[trigger] acc@[i]).wf(),
            sdec_moves(buf@, pos as int) == sdec_list_rest(
                buf@,
                cur as int,
                move_sdec(),
                acc@,
                fuel,
            ),
        decreases buf@.len() - cur,
    {
        if cur >= buf.len() {
            return DecodeOutcome::Incomplete;
        }
        if buf[cur] == 93u8 {
            return DecodeOutcome::Done(acc, cur + 1);
        }
        if buf[cur] != 44u8 {
            return DecodeOutcome::Malformed;
        }
        match decode_move(buf, cur + 1) {
            DecodeOutcome::Done(m, p2) => {
                acc.push(m);
                proof {
                    fuel = (fuel - 1) as nat;
                }
                cur = p2;
            },
            DecodeOutcome::Incomplete => { return DecodeOutcome::Incomplete },
            DecodeOutcome::Malformed => { return DecodeOutcome::Malformed },
        }
    }
}

fn decode_board(buf: &Vec<u8>, pos: usize) -> (r: DecodeOutcome<Board>)
    requires
        pos <= buf@.len(),
    ensures
        reflects_view(r, sdec_board(buf@, pos as int)),
        r matches DecodeOutcome::Done(b, n) ==> pos < n <= buf@.len() && b.wf(),
{
    if pos >= buf.len() {
        return DecodeOutcome::Incomplete;
    }
    if buf[pos] != 91u8 {
        return DecodeOutcome::Malformed;
    }
    if pos + 1 >= buf.len() {
        return DecodeOutcome::Incomplete;
    }
    if buf[pos + 1] == 93u8 {
        // an empty grid is not a full board
        return DecodeOutcome::Malformed;
    }
    let mut rows: Vec<Vec<Piece>> = Vec::new();
    let mut cur: usize;
    match decode_row(buf, pos + 1) {
        DecodeOutcome::Done(v, p2) => {
            let ghost v0 = v@;
            rows.push(v);
            proof {
                assert(rows@.map_values(|rr: Vec<Piece>| rr@) =~= seq![v0]);
            }
            cur = p2;
        },
        DecodeOutcome::Incomplete => { return DecodeOutcome::Incomplete },
        DecodeOutcome::Malformed => { return DecodeOutcome::Malformed },
    }
    let ghost mut fuel: nat = buf@.len() as nat;
    loop
        invariant
            pos < cur <= buf@.len(),
            fuel >= buf@.len() - cur,
            sdec_list(buf@, pos as int, row_sdec()) == sdec_list_rest(
                buf@,
                cur as int,
                row_sdec(),
                rows@.map_values(|rr: Vec<Piece>| rr@),
                fuel,
            ),
        decreases buf@.len() - cur,
    {
        if cur >= buf.len() {
            return DecodeOutcome::Incomplete;
        }
        if buf[cur] == 93u8 {
            let end = cur + 1;
            // the grid must be exactly 8 rows of 8 pieces each
            if rows.len() != 8 {
                return DecodeOutcome::Malformed;
            }
            let mut y = 0usize;
            while y < 8
                invariant
                    rows@.len() == 8,
                    y <= 8,
                    sdec_list(buf@, pos as int, row_sdec()) == SpecDec::Done(
                        rows@.map_values(|rr: Vec<Piece>| rr@),
                        end as int,
                    ),
                    forall|r: int| 0 <= r < y ==> (#[trigger] rows@[r])@.len() == 8,
                decreases 8 - y,
            {
                if rows[y].len() != 8 {
                    proof {
                        assert(rows@.map_values(|rr: Vec<Piece>| rr@)[y as int].len() != 8);
                    }
                    return DecodeOutcome::Malformed;
                }
                y = y + 1;
            }
            let b = Board { rows };
            proof {
                assert(forall|r: int| 0 <= r < 8 ==> (#[trigger] b@[r]).len() == 8);
                assert(b.wf());
            }
            return DecodeOutcome::Done(b, end);
        }
        if buf[cur] != 44u8 {
            return DecodeOutcome::Malformed;
        }
        match decode_row(buf, cur + 1) {
            DecodeOutcome::Done(v, p2) => {
                let ghost prev = rows@.map_values(|rr: Vec<Piece>| rr@);
                let ghost v0 = v@;
                rows.push(v);
                proof {
                    assert(rows@.map_values(|rr: Vec<Piece>| rr@) =~= prev.push(v0));
                    fuel = (fuel - 1) as nat;
                }
                cur = p2;
            },
            DecodeOutcome::Incomplete => { return DecodeOutcome::Incomplete },
            DecodeOutcome::Malformed => { return DecodeOutcome::Malformed },
        }
    }
}

// ---------------------------------------------------------------------------
// Whole records.
// ---------------------------------------------------------------------------

/// The record form of a client turn record.
pub open spec fn enc_c2s(r: ClientToServer) -> Seq<u8> {
    match r {
        ClientToServer::Move(m) => lit_c2s_move_open() + enc_move(m) + lit_rbrace(),
    }
}

/// Expects one client turn record at `pos`.
pub open spec fn sdec_c2s(s: Seq<u8>, pos: int) -> SpecDec<ClientToServer> {
    match sdec_lit(s, pos, lit_c2s_move_open()) {
        SpecDec::Done(_, p1) => match sdec_move(s, p1) {
            SpecDec::Done(m, p2) => match sdec_lit(s, p2, lit_rbrace()) {
                SpecDec::Done(_, p3) => SpecDec::Done(ClientToServer::Move(m), p3),
                SpecDec::Short => SpecDec::Short,
                SpecDec::Bad => SpecDec::Bad,
            },
            SpecDec::Short => SpecDec::Short,
            SpecDec::Bad => SpecDec::Bad,
        },
        SpecDec::Short => SpecDec::Short,
        SpecDec::Bad => SpecDec::Bad,
    }
}

/// Encodes one client turn record, flushed to the peer as written.
pub fn encode_client_record(r: &ClientToServer) -> (out: Vec<u8>)
    requires
        r.wf(),
    ensures
        out@ == enc_c2s(*r),
{
    let mut out: Vec<u8> = Vec::new();
    match r {
        ClientToServer::Move(m) => {
            let key = vec_c2s_move_open();
            emit_bytes(&mut out, &key);
            emit_move(&mut out, m);
            out.push(125u8);
        },
    }
    proof {
        assert(out@ =~= enc_c2s(*r));
    }
    out
}

/// Decodes one client turn record and reports the cursor of the next.
pub fn decode_client_record(buf: &Vec<u8>, pos: usize) -> (r: DecodeOutcome<ClientToServer>)
    requires
        pos <= buf@.len(),
    ensures
        reflects(r, sdec_c2s(buf@, pos as int)),
        r matches DecodeOutcome::Done(v, n) ==> pos < n <= buf@.len() && v.wf(),
{
    let key = vec_c2s_move_open();
    let p1 = match expect_lit(buf, pos, &key) {
        DecodeOutcome::Done(_, p) => p,
        DecodeOutcome::Incomplete => { return DecodeOutcome::Incomplete },
        DecodeOutcome::Malformed => { return DecodeOutcome::Malformed },
    };
    let (m, p2) = match decode_move(buf, p1) {
        DecodeOutcome::Done(m, p) => (m, p),
        DecodeOutcome::Incomplete => { return DecodeOutcome::Incomplete },
        DecodeOutcome::Malformed => { return DecodeOutcome::Malformed },
    };
    let rb = vec_rbrace();
    let p3 = match expect_lit(buf, p2, &rb) {
        DecodeOutcome::Done(_, p) => p,
        DecodeOutcome::Incomplete => { return DecodeOutcome::Incomplete },
        DecodeOutcome::Malformed => { return DecodeOutcome::Malformed },
    };
    DecodeOutcome::Done(ClientToServer::Move(m), p3)
}

/// The record form of a server turn record.
pub open spec fn enc_server(r: ServerToClientView) -> Seq<u8> {
    match r {
        ServerToClientView::Rejected => lit_rejected(),
        ServerToClientView::State { board, moves, joever, move_made } => lit_state_open()
            + enc_board(board) + lit_key_moves() + enc_moves(moves) + lit_key_joever()
            + enc_joever(joever) + lit_key_move_made() + enc_move(move_made) + lit_state_close(),
    }
}

/// Expects one server turn record at `pos`: either the explicit rejection
/// atom or a full state record.
pub open spec fn sdec_server(s: Seq<u8>, pos: int) -> SpecDec<ServerToClientView> {
    match sdec_lit(s, pos, lit_rejected()) {
        SpecDec::Done(_, n) => SpecDec::Done(ServerToClientView::Rejected, n),
        SpecDec::Short => SpecDec::Short,
        SpecDec::Bad => match sdec_lit(s, pos, lit_state_open()) {
            SpecDec::Done(_, p1) => match sdec_board(s, p1) {
                SpecDec::Done(board, p2) => match sdec_lit(s, p2, lit_key_moves()) {
                    SpecDec::Done(_, p3) => match sdec_moves(s, p3) {
                        SpecDec::Done(moves, p4) => match sdec_lit(s, p4, lit_key_joever()) {
                            SpecDec::Done(_, p5) => match sdec_joever(s, p5) {
                                SpecDec::Done(joever, p6) => match sdec_lit(
                                    s,
                                    p6,
                                    lit_key_move_made(),
                                ) {
                                    SpecDec::Done(_, p7) => match sdec_move(s, p7) {
                                        SpecDec::Done(move_made, p8) => match sdec_lit(
                                            s,
                                            p8,
                                            lit_state_close(),
                                        ) {
                                            SpecDec::Done(_, p9) => SpecDec::Done(
                                                ServerToClientView::State {
                                                    board,
                                                    moves,
                                                    joever,
                                                    move_made,
                                                },
                                                p9,
                                            ),
                                            SpecDec::Short => SpecDec::Short,
                                            SpecDec::Bad => SpecDec::Bad,
                                        },
                                        SpecDec::Short => SpecDec::Short,
                                        SpecDec::Bad => SpecDec::Bad,
                                    },
                                    SpecDec::Short => SpecDec::Short,
                                    SpecDec::Bad => SpecDec::Bad,
                                },
                                SpecDec::Short => SpecDec::Short,
                                SpecDec::Bad => SpecDec::Bad,
                            },
                            SpecDec::Short => SpecDec::Short,
                            SpecDec::Bad => SpecDec::Bad,
                        },
                        SpecDec::Short => SpecDec::Short,
                        SpecDec::Bad => SpecDec::Bad,
                    },
                    SpecDec::Short => SpecDec::Short,
                    SpecDec::Bad => SpecDec::Bad,
                },
                SpecDec::Short => SpecDec::Short,
                SpecDec::Bad => SpecDec::Bad,
            },
            SpecDec::Short => SpecDec::Short,
            SpecDec::Bad => SpecDec::Bad,
        },
    }
}

/// Encodes one server turn record, flushed to the peer as written.
pub fn encode_server_record(r: &ServerToClient) -> (out: Vec<u8>)
    requires
        r.wf(),
    ensures
        out@ == enc_server(r@),
{
    let mut out: Vec<u8> = Vec::new();
    match r {
        ServerToClient::Rejected => {
            let lit = vec_rejected();
            emit_bytes(&mut out, &lit);
        },
        ServerToClient::State { board, moves, joever, move_made } => {
            let key = vec_state_open();
            emit_bytes(&mut out, &key);
            emit_board(&mut out, board);
            let key = vec_key_moves();
            emit_bytes(&mut out, &key);
            emit_moves(&mut out, moves);
            let key = vec_key_joever();
            emit_bytes(&mut out, &key);
            emit_joever(&mut out, *joever);
            let key = vec_key_move_made();
            emit_bytes(&mut out, &key);
            emit_move(&mut out, move_made);
            let key = vec_state_close();
            emit_bytes(&mut out, &key);
        },
    }
    proof {
        assert(out@ =~= enc_server(r@));
    }
    out
}

/// Decodes one server turn record and reports the cursor of the next.
pub fn decode_server_record(buf: &Vec<u8>, pos: usize) -> (r: DecodeOutcome<ServerToClient>)
    requires
        pos <= buf@.len(),
    ensures
        reflects_view(r, sdec_server(buf@, pos as int)),
        r matches DecodeOutcome::Done(v, n) ==> pos < n <= buf@.len() && v.wf(),
{
    let lit = vec_rejected();
    match expect_lit(buf, pos, &lit) {
        DecodeOutcome::Done(_, n) => { return DecodeOutcome::Done(ServerToClient::Rejected, n) },
        DecodeOutcome::Incomplete => { return DecodeOutcome::Incomplete },
        DecodeOutcome::Malformed => {},
    }
    let key = vec_state_open();
    let p1 = match expect_lit(buf, pos, &key) {
        DecodeOutcome::Done(_, p) => p,
        DecodeOutcome::Incomplete => { return DecodeOutcome::Incomplete },
        DecodeOutcome::Malformed => { return DecodeOutcome::Malformed },
    };
    let (board, p2) = match decode_board(buf, p1) {
        DecodeOutcome::Done(b, p) => (b, p),
        DecodeOutcome::Incomplete => { return DecodeOutcome::Incomplete },
        DecodeOutcome::Malformed => { return DecodeOutcome::Malformed },
    };
    let key = vec_key_moves();
    let p3 = match expect_lit(buf, p2, &key) {
        DecodeOutcome::Done(_, p) => p,
        DecodeOutcome::Incomplete => { return DecodeOutcome::Incomplete },
        DecodeOutcome::Malformed => { return DecodeOutcome::Malformed },
    };
    let (moves, p4) = match decode_moves(buf, p3) {
        DecodeOutcome::Done(v, p) => (v, p),
        DecodeOutcome::Incomplete => { return DecodeOutcome::Incomplete },
        DecodeOutcome::Malformed => { return DecodeOutcome::Malformed },
    };
    let key = vec_key_joever();
    let p5 = match expect_lit(buf, p4, &key) {
        DecodeOutcome::Done(_, p) => p,
        DecodeOutcome::Incomplete => { return DecodeOutcome::Incomplete },
        DecodeOutcome::Malformed => { return DecodeOutcome::Malformed },
    };
    let (joever, p6) = match decode_joever(buf, p5) {
        DecodeOutcome::Done(j, p) => (j, p),
        DecodeOutcome::Incomplete => { return DecodeOutcome::Incomplete },
        DecodeOutcome::Malformed => { return DecodeOutcome::Malformed },
    };
    let key = vec_key_move_made();
    let p7 = match expect_lit(buf, p6, &key) {
        DecodeOutcome::Done(_, p) => p,
        DecodeOutcome::Incomplete => { return DecodeOutcome::Incomplete },
        DecodeOutcome::Malformed => { return DecodeOutcome::Malformed },
    };
    let (move_made, p8) = match decode_move(buf, p7) {
        DecodeOutcome::Done(m, p) => (m, p),
        DecodeOutcome::Incomplete => { return DecodeOutcome::Incomplete },
        DecodeOutcome::Malformed => { return DecodeOutcome::Malformed },
    };
    let key = vec_state_close();
    let p9 = match expect_lit(buf, p8, &key) {
        DecodeOutcome::Done(_, p) => p,
        DecodeOutcome::Incomplete => { return DecodeOutcome::Incomplete },
        DecodeOutcome::Malformed => { return DecodeOutcome::Malformed },
    };
    DecodeOutcome::Done(ServerToClient::State { board, moves, joever, move_made }, p9)
}

/// The record form of the client's opening handshake.
pub open spec fn enc_hs_req(h: ClientToServerHandshake) -> Seq<u8> {
    lit_hs_req_open() + enc_color(h.server_color) + lit_rbrace()
}

/// Expects the client's opening handshake at `pos`.
pub open spec fn sdec_hs_req(s: Seq<u8>, pos: int) -> SpecDec<ClientToServerHandshake> {
    match sdec_lit(s, pos, lit_hs_req_open()) {
        SpecDec::Done(_, p1) => match sdec_color(s, p1) {
            SpecDec::Done(c, p2) => match sdec_lit(s, p2, lit_rbrace()) {
                SpecDec::Done(_, p3) => SpecDec::Done(
                    ClientToServerHandshake { server_color: c },
                    p3,
                ),
                SpecDec::Short => SpecDec::Short,
                SpecDec::Bad => SpecDec::Bad,
            },
            SpecDec::Short => SpecDec::Short,
            SpecDec::Bad => SpecDec::Bad,
        },
        SpecDec::Short => SpecDec::Short,
        SpecDec::Bad => SpecDec::Bad,
    }
}

/// Encodes the client's opening handshake.
pub fn encode_handshake_request(h: &ClientToServerHandshake) -> (out: Vec<u8>)
    ensures
        out@ == enc_hs_req(*h),
{
    let mut out: Vec<u8> = Vec::new();
    let key = vec_hs_req_open();
    emit_bytes(&mut out, &key);
    emit_color(&mut out, h.server_color);
    out.push(125u8);
    proof {
        assert(out@ =~= enc_hs_req(*h));
    }
    out
}

/// Decodes the client's opening handshake.
pub fn decode_handshake_request(buf: &Vec<u8>, pos: usize) -> (r: DecodeOutcome<
    ClientToServerHandshake,
>)
    requires
        pos <= buf@.len(),
    ensures
        reflects(r, sdec_hs_req(buf@, pos as int)),
        r matches DecodeOutcome::Done(v, n) ==> pos < n <= buf@.len(),
{
    let key = vec_hs_req_open();
    let p1 = match expect_lit(buf, pos, &key) {
        DecodeOutcome::Done(_, p) => p,
        DecodeOutcome::Incomplete => { return DecodeOutcome::Incomplete },
        DecodeOutcome::Malformed => { return DecodeOutcome::Malformed },
    };
    let (c, p2) = match decode_color(buf, p1) {
        DecodeOutcome::Done(c, p) => (c, p),
        DecodeOutcome::Incomplete => { return DecodeOutcome::Incomplete },
        DecodeOutcome::Malformed => { return DecodeOutcome::Malformed },
    };
    let rb = vec_rbrace();
    let p3 = match expect_lit(buf, p2, &rb) {
        DecodeOutcome::Done(_, p) => p,
        DecodeOutcome::Incomplete => { return DecodeOutcome::Incomplete },
        DecodeOutcome::Malformed => { return DecodeOutcome::Malformed },
    };
    DecodeOutcome::Done(ClientToServerHandshake { server_color: c }, p3)
}

/// The record form of the server's opening handshake reply.
pub open spec fn enc_hs_resp(h: ServerToClientHandshakeView) -> Seq<u8> {
    lit_hs_resp_open() + enc_color(h.color) + lit_key_board() + enc_board(h.board)
        + lit_key_moves() + enc_moves(h.moves) + lit_rbrace()
}

/// Expects the server's opening handshake reply at `pos`.
pub open spec fn sdec_hs_resp(s: Seq<u8>, pos: int) -> SpecDec<ServerToClientHandshakeView> {
    match sdec_lit(s, pos, lit_hs_resp_open()) {
        SpecDec::Done(_, p1) => match sdec_color(s, p1) {
            SpecDec::Done(color, p2) => match sdec_lit(s, p2, lit_key_board()) {
                SpecDec::Done(_, p3) => match sdec_board(s, p3) {
                    SpecDec::Done(board, p4) => match sdec_lit(s, p4, lit_key_moves()) {
                        SpecDec::Done(_, p5) => match sdec_moves(s, p5) {
                            SpecDec::Done(moves, p6) => match sdec_lit(s, p6, lit_rbrace()) {
                                SpecDec::Done(_, p7) => SpecDec::Done(
                                    ServerToClientHandshakeView { color, board, moves },
                                    p7,
                                ),
                                SpecDec::Short => SpecDec::Short,
                                SpecDec::Bad => SpecDec::Bad,
                            },
                            SpecDec::Short => SpecDec::Short,
                            SpecDec::Bad => SpecDec::Bad,
                        },
                        SpecDec::Short => SpecDec::Short,
                        SpecDec::Bad => SpecDec::Bad,
                    },
                    SpecDec::Short => SpecDec::Short,
                    SpecDec::Bad => SpecDec::Bad,
                },
                SpecDec::Short => SpecDec::Short,
                SpecDec::Bad => SpecDec::Bad,
            },
            SpecDec::Short => SpecDec::Short,
            SpecDec::Bad => SpecDec::Bad,
        },
        SpecDec::Short => SpecDec::Short,
        SpecDec::Bad => SpecDec::Bad,
    }
}

/// Encodes the server's opening handshake reply.
pub fn encode_handshake_response(h: &ServerToClientHandshake) -> (out: Vec<u8>)
    requires
        h.wf(),
    ensures
        out@ == enc_hs_resp(h@),
{
    let mut out: Vec<u8> = Vec::new();
    let key = vec_hs_resp_open();
    emit_bytes(&mut out, &key);
    emit_color(&mut out, h.color);
    let key = vec_key_board();
    emit_bytes(&mut out, &key);
    emit_board(&mut out, &h.board);
    let key = vec_key_moves();
    emit_bytes(&mut out, &key);
    emit_moves(&mut out, &h.moves);
    out.push(125u8);
    proof {
        assert(out@ =~= enc_hs_resp(h@));
    }
    out
}

/// Decodes the server's opening handshake reply.
pub fn decode_handshake_response(buf: &Vec<u8>, pos: usize) -> (r: DecodeOutcome<
    ServerToClientHandshake,
>)
    requires
        pos <= buf@.len(),
    ensures
        reflects_view(r, sdec_hs_resp(buf@, pos as int)),
        r matches DecodeOutcome::Done(v, n) ==> pos < n <= buf@.len() && v.wf(),
{
    let key = vec_hs_resp_open();
    let p1 = match expect_lit(buf, pos, &key) {
        DecodeOutcome::Done(_, p) => p,
        DecodeOutcome::Incomplete => { return DecodeOutcome::Incomplete },
        DecodeOutcome::Malformed => { return DecodeOutcome::Malformed },
    };
    let (color, p2) = match decode_color(buf, p1) {
        DecodeOutcome::Done(c, p) => (c, p),
        DecodeOutcome::Incomplete => { return DecodeOutcome::Incomplete },
        DecodeOutcome::Malformed => { return DecodeOutcome::Malformed },
    };
    let key = vec_key_board();
    let p3 = match expect_lit(buf, p2, &key) {
        DecodeOutcome::Done(_, p) => p,
        DecodeOutcome::Incomplete => { return DecodeOutcome::Incomplete },
        DecodeOutcome::Malformed => { return DecodeOutcome::Malformed },
    };
    let (board, p4) = match decode_board(buf, p3) {
        DecodeOutcome::Done(b, p) => (b, p),
        DecodeOutcome::Incomplete => { return DecodeOutcome::Incomplete },
        DecodeOutcome::Malformed => { return DecodeOutcome::Malformed },
    };
    let key = vec_key_moves();
    let p5 = match expect_lit(buf, p4, &key) {
        DecodeOutcome::Done(_, p) => p,
        DecodeOutcome::Incomplete => { return DecodeOutcome::Incomplete },
        DecodeOutcome::Malformed => { return DecodeOutcome::Malformed },
    };
    let (moves, p6) = match decode_moves(buf, p5) {
        DecodeOutcome::Done(v, p) => (v, p),
        DecodeOutcome::Incomplete => { return DecodeOutcome::Incomplete },
        DecodeOutcome::Malformed => { return DecodeOutcome::Malformed },
    };
    let rb = vec_rbrace();
    let p7 = match expect_lit(buf, p6, &rb) {
        DecodeOutcome::Done(_, p) => p,
        DecodeOutcome::Incomplete => { return DecodeOutcome::Incomplete },
        DecodeOutcome::Malformed => { return DecodeOutcome::Malformed },
    };
    DecodeOutcome::Done(ServerToClientHandshake { color, board, moves }, p7)
}

// ---------------------------------------------------------------------------
// Round trips: a stream that continues with an encoded record decodes to
// exactly that record, and the cursor lands exactly one past it.
// ---------------------------------------------------------------------------

/// Splits knowledge of a two-part range into its parts.
proof fn lemma_split_at(s: Seq<u8>, pos: int, a: Seq<u8>, b: Seq<u8>)
    requires
        0 <= pos,
        pos + a.len() + b.len() <= s.len(),
        s.subrange(pos, pos + a.len() + b.len()) == a + b,
    ensures
        s.subrange(pos, pos + a.len()) == a,
        s.subrange(pos + a.len(), pos + a.len() + b.len()) == b,
{
    assert(s.subrange(pos, pos + a.len() as int) =~= a) by {
        assert(forall|k: int|
            0 <= k < a.len() ==> s.subrange(pos, pos + a.len() as int)[k] == (a + b)[k]);
    }
    assert(s.subrange(pos + a.len(), pos + a.len() + b.len()) =~= b) by {
        assert forall|k: int| 0 <= k < b.len() implies s.subrange(
            pos + a.len(),
            pos + a.len() + b.len(),
        )[k] == b[k] by {
            assert(s.subrange(pos + a.len(), pos + a.len() + b.len())[k] == s[pos + a.len() + k]);
            assert(s[pos + a.len() + k] == s.subrange(pos, pos + a.len() + b.len())[a.len() + k]);
            assert((a + b)[a.len() + k] == b[k]);
        }
    }
}

/// A literal in place decodes as itself.
proof fn lemma_lit_at(s: Seq<u8>, pos: int, lit: Seq<u8>)
    requires
        0 <= pos,
        pos + lit.len() <= s.len(),
        s.subrange(pos, pos + lit.len()) == lit,
    ensures
        sdec_lit(s, pos, lit) == SpecDec::Done((), pos + lit.len() as int),
{
}

/// A coordinate digit in place decodes as its value.
proof fn lemma_digit_at(s: Seq<u8>, pos: int, d: usize)
    requires
        d <= 7,
        0 <= pos,
        pos + 1 <= s.len(),
        s.subrange(pos, pos + 1) == enc_digit(d as int),
    ensures
        sdec_digit(s, pos) == SpecDec::Done(d, pos + 1),
{
    assert(s[pos] == enc_digit(d as int)[0]);
}

/// The first quote at or after `pos` is at `end`.
proof fn lemma_find_quote_at(s: Seq<u8>, pos: int, end: int)
    requires
        0 <= pos <= end < s.len(),
        forall|k: int| pos <= k < end ==> s[k] != 34u8,
        s[end] == 34u8,
    ensures
        sfind_quote(s, pos) == SpecDec::Done((), end),
    decreases end - pos,
{
    if pos < end {
        lemma_find_quote_at(s, pos + 1, end);
    }
}

/// No atom tag contains a quote, and each one names its own value back.
proof fn lemma_piece_name_facts(p: Piece)
    ensures
        piece_name(p).len() >= 4,
        forall|k: int| 0 <= k < piece_name(p).len() ==> piece_name(p)[k] != 34u8,
        token_piece(piece_name(p)) == Some(p),
{
    match p {
        Piece::Empty => {},
        Piece::WhitePawn => {},
        Piece::WhiteKnight => {},
        Piece::WhiteBishop => {
            assert(piece_name(Piece::WhiteBishop)[5] != piece_name(Piece::WhiteKnight)[5]);
        },
        Piece::WhiteRook => {
            assert(piece_name(Piece::WhiteRook)[5] != piece_name(Piece::WhitePawn)[5]);
        },
        Piece::WhiteQueen => {},
        Piece::WhiteKing => {
            assert(piece_name(Piece::WhiteKing)[5] != piece_name(Piece::WhitePawn)[5]);
            assert(piece_name(Piece::WhiteKing)[5] != piece_name(Piece::WhiteRook)[5]);
        },
        Piece::BlackPawn => {
            assert(piece_name(Piece::BlackPawn)[0] != piece_name(Piece::WhitePawn)[0]);
            assert(piece_name(Piece::BlackPawn)[0] != piece_name(Piece::WhiteRook)[0]);
            assert(piece_name(Piece::BlackPawn)[0] != piece_name(Piece::WhiteKing)[0]);
        },
        Piece::BlackKnight => {
            assert(piece_name(Piece::BlackKnight)[0] != piece_name(Piece::WhiteKnight)[0]);
            assert(piece_name(Piece::BlackKnight)[0] != piece_name(Piece::WhiteBishop)[0]);
        },
        Piece::BlackBishop => {
            assert(piece_name(Piece::BlackBishop)[0] != piece_name(Piece::WhiteKnight)[0]);
            assert(piece_name(Piece::BlackBishop)[0] != piece_name(Piece::WhiteBishop)[0]);
            assert(piece_name(Piece::BlackBishop)[5] != piece_name(Piece::BlackKnight)[5]);
        },
        Piece::BlackRook => {
            assert(piece_name(Piece::BlackRook)[0] != piece_name(Piece::WhitePawn)[0]);
            assert(piece_name(Piece::BlackRook)[0] != piece_name(Piece::WhiteRook)[0]);
            assert(piece_name(Piece::BlackRook)[0] != piece_name(Piece::WhiteKing)[0]);
            assert(piece_name(Piece::BlackRook)[5] != piece_name(Piece::BlackPawn)[5]);
        },
        Piece::BlackQueen => {
            assert(piece_name(Piece::BlackQueen)[0] != piece_name(Piece::WhiteQueen)[0]);
        },
        Piece::BlackKing => {
            assert(piece_name(Piece::BlackKing)[0] != piece_name(Piece::WhitePawn)[0]);
            assert(piece_name(Piece::BlackKing)[0] != piece_name(Piece::WhiteRook)[0]);
            assert(piece_name(Piece::BlackKing)[0] != piece_name(Piece::WhiteKing)[0]);
            assert(piece_name(Piece::BlackKing)[5] != piece_name(Piece::BlackPawn)[5]);
            assert(piece_name(Piece::BlackKing)[5] != piece_name(Piece::BlackRook)[5]);
        },
    }
}

/// A quoted tag in place decodes as its value.
proof fn lemma_atom_at(s: Seq<u8>, pos: int, name: Seq<u8>)
    requires
        0 <= pos,
        pos + quoted(name).len() <= s.len(),
        s.subrange(pos, pos + quoted(name).len()) == quoted(name),
        forall|k: int| 0 <= k < name.len() ==> name[k] != 34u8,
    ensures
        sdec_atom(s, pos) == SpecDec::Done(name, pos + quoted(name).len() as int),
{
    let q = quoted(name);
    let close = pos + 1 + name.len();
    assert(s[pos] == q[0]);
    assert(forall|k: int| pos + 1 <= k < close ==> s[k] == q[k - pos] && q[k - pos] == name[
        k - pos - 1
    ]);
    assert(s[close] == q[name.len() + 1 as int]);
    lemma_find_quote_at(s, pos + 1, close);
    assert(s.subrange(pos + 1, close) =~= name);
}

proof fn lemma_piece_at(s: Seq<u8>, pos: int, p: Piece)
    requires
        0 <= pos,
        pos + enc_piece(p).len() <= s.len(),
        s.subrange(pos, pos + enc_piece(p).len()) == enc_piece(p),
    ensures
        sdec_piece(s, pos) == SpecDec::Done(p, pos + enc_piece(p).len() as int),
{
    lemma_piece_name_facts(p);
    lemma_atom_at(s, pos, piece_name(p));
}

proof fn lemma_color_name_facts(c: Color)
    ensures
        color_name(c).len() >= 4,
        forall|k: int| 0 <= k < color_name(c).len() ==> color_name(c)[k] != 34u8,
        token_color(color_name(c)) == Some(c),
{
    match c {
        Color::White => {},
        Color::Black => {
            assert(color_name(Color::Black)[0] != color_name(Color::White)[0]);
        },
    }
}

proof fn lemma_color_at(s: Seq<u8>, pos: int, c: Color)
    requires
        0 <= pos,
        pos + enc_color(c).len() <= s.len(),
        s.subrange(pos, pos + enc_color(c).len()) == enc_color(c),
    ensures
        sdec_color(s, pos) == SpecDec::Done(c, pos + enc_color(c).len() as int),
{
    lemma_color_name_facts(c);
    lemma_atom_at(s, pos, color_name(c));
}

proof fn lemma_joever_name_facts(j: Joever)
    ensures
        joever_name(j).len() >= 4,
        forall|k: int| 0 <= k < joever_name(j).len() ==> joever_name(j)[k] != 34u8,
        token_joever(joever_name(j)) == Some(j),
{
    match j {
        Joever::Ongoing => {},
        Joever::White => {},
        Joever::Black => {
            assert(joever_name(Joever::Black)[0] != joever_name(Joever::White)[0]);
        },
        Joever::Draw => {},
    }
}

proof fn lemma_joever_at(s: Seq<u8>, pos: int, j: Joever)
    requires
        0 <= pos,
        pos + enc_joever(j).len() <= s.len(),
        s.subrange(pos, pos + enc_joever(j).len()) == enc_joever(j),
    ensures
        sdec_joever(s, pos) == SpecDec::Done(j, pos + enc_joever(j).len() as int),
{
    lemma_joever_name_facts(j);
    lemma_atom_at(s, pos, joever_name(j));
}

/// A wire-move record in place decodes as itself.
proof fn lemma_move_at(s: Seq<u8>, pos: int, m: Move)
    requires
        m.wf(),
        0 <= pos,
        pos + enc_move(m).len() <= s.len(),
        s.subrange(pos, pos + enc_move(m).len()) == enc_move(m),
    ensures
        sdec_move(s, pos) == SpecDec::Done(m, pos + enc_move(m).len() as int),
{
    let e1 = lit_move_open();
    let e2 = enc_digit(m.start_x as int);
    let e3 = lit_key_start_y();
    let e4 = enc_digit(m.start_y as int);
    let e5 = lit_key_end_x();
    let e6 = enc_digit(m.end_x as int);
    let e7 = lit_key_end_y();
    let e8 = enc_digit(m.end_y as int);
    let e9 = lit_key_promotion();
    let e10 = enc_piece(m.promotion);
    let e11 = lit_rbrace();
    let p0 = pos;
    let p1 = p0 + e1.len();
    let p2 = p1 + e2.len();
    let p3 = p2 + e3.len();
    let p4 = p3 + e4.len();
    let p5 = p4 + e5.len();
    let p6 = p5 + e6.len();
    let p7 = p6 + e7.len();
    let p8 = p7 + e8.len();
    let p9 = p8 + e9.len();
    let p10 = p9 + e10.len();
    let p11 = p10 + e11.len();
    assert(enc_move(m) =~= e1 + (e2 + (e3 + (e4 + (e5 + (e6 + (e7 + (e8 + (e9 + (e10
        + e11))))))))));
    lemma_split_at(s, p0, e1, e2 + (e3 + (e4 + (e5 + (e6 + (e7 + (e8 + (e9 + (e10 + e11)))))))));
    lemma_split_at(s, p1, e2, e3 + (e4 + (e5 + (e6 + (e7 + (e8 + (e9 + (e10 + e11))))))));
    lemma_split_at(s, p2, e3, e4 + (e5 + (e6 + (e7 + (e8 + (e9 + (e10 + e11)))))));
    lemma_split_at(s, p3, e4, e5 + (e6 + (e7 + (e8 + (e9 + (e10 + e11))))));
    lemma_split_at(s, p4, e5, e6 + (e7 + (e8 + (e9 + (e10 + e11)))));
    lemma_split_at(s, p5, e6, e7 + (e8 + (e9 + (e10 + e11))));
    lemma_split_at(s, p6, e7, e8 + (e9 + (e10 + e11)));
    lemma_split_at(s, p7, e8, e9 + (e10 + e11));
    lemma_split_at(s, p8, e9, e10 + e11);
    lemma_split_at(s, p9, e10, e11);
    lemma_lit_at(s, p0, e1);
    lemma_digit_at(s, p1, m.start_x);
    lemma_lit_at(s, p2, e3);
    lemma_digit_at(s, p3, m.start_y);
    lemma_lit_at(s, p4, e5);
    lemma_digit_at(s, p5, m.end_x);
    lemma_lit_at(s, p6, e7);
    lemma_digit_at(s, p7, m.end_y);
    lemma_lit_at(s, p8, e9);
    lemma_piece_at(s, p9, m.promotion);
    lemma_lit_at(s, p10, e11);
    assert(p11 == pos + enc_move(m).len());
}

/// The tail of an encoded list is at least one byte per item.
proof fn lemma_enc_list_rest_len<T>(v: Seq<T>, i: int, fenc: spec_fn(T) -> Seq<u8>)
    requires
        0 <= i <= v.len(),
        forall|j: int| 0 <= j < v.len() ==> (#[trigger] fenc(v[j])).len() >= 1,
    ensures
        enc_list_rest(v, i, fenc).len() >= 1 + (v.len() - i),
    decreases v.len() - i,
{
    if i < v.len() {
        lemma_enc_list_rest_len(v, i + 1, fenc);
    }
}

/// The tail of an encoded list in place decodes as the remaining items.
proof fn lemma_list_rest_at<T>(
    s: Seq<u8>,
    pos: int,
    v: Seq<T>,
    i: int,
    acc: Seq<T>,
    fuel: nat,
    fenc: spec_fn(T) -> Seq<u8>,
    fdec: spec_fn(Seq<u8>, int) -> SpecDec<T>,
)
    requires
        0 <= i <= v.len(),
        fuel >= v.len() - i,
        0 <= pos,
        pos + enc_list_rest(v, i, fenc).len() <= s.len(),
        s.subrange(pos, pos + enc_list_rest(v, i, fenc).len()) == enc_list_rest(v, i, fenc),
        forall|j: int| 0 <= j < v.len() ==> (#[trigger] fenc(v[j])).len() >= 1 && fenc(v[j])[0]
            != 93u8 && fenc(v[j])[0] != 44u8,
        forall|j: int, p: int|
            #![trigger s.subrange(p, p + fenc(v[j]).len())]
            0 <= j < v.len() && 0 <= p && p + fenc(v[j]).len() <= s.len() && s.subrange(
                p,
                p + fenc(v[j]).len(),
            ) == fenc(v[j]) ==> fdec(s, p) == SpecDec::Done(v[j], p + fenc(v[j]).len() as int),
    ensures
        sdec_list_rest(s, pos, fdec, acc, fuel) == SpecDec::Done(
            acc + v.subrange(i, v.len() as int),
            pos + enc_list_rest(v, i, fenc).len(),
        ),
    decreases v.len() - i,
{
    if i >= v.len() {
        assert(s[pos] == enc_list_rest(v, i, fenc)[0]);
        assert(s[pos] == 93u8);
        assert(acc + v.subrange(i, v.len() as int) =~= acc);
    } else {
        let e = fenc(v[i]);
        let rest = enc_list_rest(v, i + 1, fenc);
        assert(enc_list_rest(v, i, fenc) == seq![44u8] + e + rest);
        assert(enc_list_rest(v, i, fenc) =~= seq![44u8] + (e + rest));
        lemma_split_at(s, pos, seq![44u8], e + rest);
        lemma_split_at(s, pos + 1, e, rest);
        assert(s[pos] == s.subrange(pos, pos + 1)[0]);
        assert(s[pos] == 44u8);
        assert(fdec(s, pos + 1) == SpecDec::Done(v[i], pos + 1 + e.len() as int));
        lemma_list_rest_at(s, pos + 1 + e.len(), v, i + 1, acc.push(v[i]), (fuel - 1) as nat,
            fenc, fdec);
        assert(acc.push(v[i]) + v.subrange(i + 1, v.len() as int) =~= acc + v.subrange(
            i,
            v.len() as int,
        ));
    }
}

/// A whole encoded list in place decodes as its items.
proof fn lemma_list_at<T>(
    s: Seq<u8>,
    pos: int,
    v: Seq<T>,
    fenc: spec_fn(T) -> Seq<u8>,
    fdec: spec_fn(Seq<u8>, int) -> SpecDec<T>,
)
    requires
        0 <= pos,
        pos + enc_list(v, fenc).len() <= s.len(),
        s.subrange(pos, pos + enc_list(v, fenc).len()) == enc_list(v, fenc),
        forall|j: int| 0 <= j < v.len() ==> (#[trigger] fenc(v[j])).len() >= 1 && fenc(v[j])[0]
            != 93u8 && fenc(v[j])[0] != 44u8,
        forall|j: int, p: int|
            #![trigger s.subrange(p, p + fenc(v[j]).len())]
            0 <= j < v.len() && 0 <= p && p + fenc(v[j]).len() <= s.len() && s.subrange(
                p,
                p + fenc(v[j]).len(),
            ) == fenc(v[j]) ==> fdec(s, p) == SpecDec::Done(v[j], p + fenc(v[j]).len() as int),
    ensures
        sdec_list(s, pos, fdec) == SpecDec::Done(v, pos + enc_list(v, fenc).len()),
{
    if v.len() == 0 {
        assert(s[pos] == enc_list(v, fenc)[0]);
        assert(s[pos + 1] == enc_list(v, fenc)[1]);
        assert(sdec_list(s, pos, fdec) == SpecDec::Done(Seq::<T>::empty(), pos + 2));
        assert(Seq::<T>::empty() =~= v);
    } else {
        let e = fenc(v[0]);
        let rest = enc_list_rest(v, 1, fenc);
        assert(enc_list(v, fenc) =~= seq![91u8] + (e + rest));
        lemma_split_at(s, pos, seq![91u8], e + rest);
        lemma_split_at(s, pos + 1, e, rest);
        assert(s[pos] == s.subrange(pos, pos + 1)[0]);
        assert(s[pos] == 91u8);
        assert(s[pos + 1] == s.subrange(pos + 1, pos + 1 + e.len())[0]);
        assert(s[pos + 1] == e[0]);
        assert(s[pos + 1] != 93u8);
        assert(fdec(s, pos + 1) == SpecDec::Done(v[0], pos + 1 + e.len() as int));
        lemma_enc_list_rest_len(v, 1, fenc);
        assert(s.len() >= v.len());
        lemma_list_rest_at(s, pos + 1 + e.len(), v, 1, seq![v[0]], s.len() as nat, fenc, fdec);
        assert(seq![v[0]] + v.subrange(1, v.len() as int) =~= v);
    }
}

/// A board rank in place decodes as its pieces.
proof fn lemma_row_at(s: Seq<u8>, pos: int, r: Seq<Piece>)
    requires
        0 <= pos,
        pos + enc_row(r).len() <= s.len(),
        s.subrange(pos, pos + enc_row(r).len()) == enc_row(r),
    ensures
        sdec_row(s, pos) == SpecDec::Done(r, pos + enc_row(r).len()),
{
    assert forall|j: int| 0 <= j < r.len() implies (#[trigger] piece_enc()(r[j])).len() >= 1
        && piece_enc()(r[j])[0] != 93u8 && piece_enc()(r[j])[0] != 44u8 by {
        lemma_piece_name_facts(r[j]);
        assert(piece_enc()(r[j])[0] == 34u8);
    }
    assert forall|j: int, p: int|
        #![trigger s.subrange(p, p + piece_enc()(r[j]).len())]
        0 <= j < r.len() && 0 <= p && p + piece_enc()(r[j]).len() <= s.len() && s.subrange(
            p,
            p + piece_enc()(r[j]).len(),
        ) == piece_enc()(r[j]) implies piece_sdec()(s, p) == SpecDec::Done(
        r[j],
        p + piece_enc()(r[j]).len() as int,
    ) by {
        lemma_piece_at(s, p, r[j]);
    }
    lemma_list_at(s, pos, r, piece_enc(), piece_sdec());
}

/// A move list in place decodes as its moves.
proof fn lemma_moves_at(s: Seq<u8>, pos: int, ms: Seq<Move>)
    requires
        forall|i: int| 0 <= i < ms.len() ==> (#[trigger] ms[i]).wf(),
        0 <= pos,
        pos + enc_moves(ms).len() <= s.len(),
        s.subrange(pos, pos + enc_moves(ms).len()) == enc_moves(ms),
    ensures
        sdec_moves(s, pos) == SpecDec::Done(ms, pos + enc_moves(ms).len()),
{
    assert forall|j: int| 0 <= j < ms.len() implies (#[trigger] move_enc()(ms[j])).len() >= 1
        && move_enc()(ms[j])[0] != 93u8 && move_enc()(ms[j])[0] != 44u8 by {
        assert(move_enc()(ms[j])[0] == 123u8);
    }
    assert forall|j: int, p: int|
        #![trigger s.subrange(p, p + move_enc()(ms[j]).len())]
        0 <= j < ms.len() && 0 <= p && p + move_enc()(ms[j]).len() <= s.len() && s.subrange(
            p,
            p + move_enc()(ms[j]).len(),
        ) == move_enc()(ms[j]) implies move_sdec()(s, p) == SpecDec::Done(
        ms[j],
        p + move_enc()(ms[j]).len() as int,
    ) by {
        lemma_move_at(s, p, ms[j]);
    }
    lemma_list_at(s, pos, ms, move_enc(), move_sdec());
}

/// A full 8x8 board in place decodes as its grid.
proof fn lemma_board_at(s: Seq<u8>, pos: int, b: Seq<Seq<Piece>>)
    requires
        b.len() == 8,
        forall|y: int| 0 <= y < 8 ==> (#[trigger] b[y]).len() == 8,
        0 <= pos,
        pos + enc_board(b).len() <= s.len(),
        s.subrange(pos, pos + enc_board(b).len()) == enc_board(b),
    ensures
        sdec_board(s, pos) == SpecDec::Done(b, pos + enc_board(b).len()),
{
    assert forall|j: int| 0 <= j < b.len() implies (#[trigger] row_enc()(b[j])).len() >= 1
        && row_enc()(b[j])[0] != 93u8 && row_enc()(b[j])[0] != 44u8 by {
        assert(row_enc()(b[j])[0] == 91u8);
    }
    assert forall|j: int, p: int|
        #![trigger s.subrange(p, p + row_enc()(b[j]).len())]
        0 <= j < b.len() && 0 <= p && p + row_enc()(b[j]).len() <= s.len() && s.subrange(
            p,
            p + row_enc()(b[j]).len(),
        ) == row_enc()(b[j]) implies row_sdec()(s, p) == SpecDec::Done(
        b[j],
        p + row_enc()(b[j]).len() as int,
    ) by {
        lemma_row_at(s, p, b[j]);
    }
    lemma_list_at(s, pos, b, row_enc(), row_sdec());
}

/// Decoding a stream whose next bytes are an encoded client turn record
/// yields exactly that record and consumes exactly its bytes, whatever
/// came before and whatever follows.
#[verifier::rlimit(100)]
pub proof fn lemma_client_record_round_trip(r: ClientToServer, pre: Seq<u8>, rest: Seq<u8>)
    requires
        r.wf(),
    ensures
        sdec_c2s(pre + enc_c2s(r) + rest, pre.len() as int) == SpecDec::Done(
            r,
            pre.len() + enc_c2s(r).len() as int,
        ),
{
    let s = pre + enc_c2s(r) + rest;
    let pos = pre.len() as int;
    assert(s.subrange(pos, pos + enc_c2s(r).len()) =~= enc_c2s(r));
    match r {
        ClientToServer::Move(m) => {
            let e1 = lit_c2s_move_open();
            let e2 = enc_move(m);
            let e3 = lit_rbrace();
            assert(enc_c2s(r) =~= e1 + (e2 + e3));
            lemma_split_at(s, pos, e1, e2 + e3);
            lemma_split_at(s, pos + e1.len(), e2, e3);
            lemma_lit_at(s, pos, e1);
            lemma_move_at(s, pos + e1.len(), m);
            lemma_lit_at(s, pos + e1.len() + e2.len(), e3);
        },
    }
}

/// Decoding a stream whose next bytes are an encoded server turn record
/// yields exactly that record and consumes exactly its bytes.
#[verifier::rlimit(100)]
pub proof fn lemma_server_record_round_trip(r: ServerToClient, pre: Seq<u8>, rest: Seq<u8>)
    requires
        r.wf(),
    ensures
        sdec_server(pre + enc_server(r@) + rest, pre.len() as int) == SpecDec::Done(
            r@,
            pre.len() + enc_server(r@).len() as int,
        ),
{
    let s = pre + enc_server(r@) + rest;
    let pos = pre.len() as int;
    assert(s.subrange(pos, pos + enc_server(r@).len()) =~= enc_server(r@));
    match r {
        ServerToClient::Rejected => {
            lemma_lit_at(s, pos, lit_rejected());
        },
        ServerToClient::State { board, moves, joever, move_made } => {
            lemma_state_at(s, pos, r);
        },
    }
}

/// The state form of a server record in place decodes as itself.
#[verifier::rlimit(100)]
proof fn lemma_state_at(s: Seq<u8>, pos: int, r: ServerToClient)
    requires
        r.wf(),
        r is State,
        0 <= pos,
        pos + enc_server(r@).len() <= s.len(),
        s.subrange(pos, pos + enc_server(r@).len()) == enc_server(r@),
    ensures
        sdec_server(s, pos) == SpecDec::Done(r@, pos + enc_server(r@).len() as int),
{
    match r {
        ServerToClient::State { board, moves, joever, move_made } => {
            let e1 = lit_state_open();
            let e2 = enc_board(board@);
            let e3 = lit_key_moves();
            let e4 = enc_moves(moves@);
            let e5 = lit_key_joever();
            let e6 = enc_joever(joever);
            let e7 = lit_key_move_made();
            let e8 = enc_move(move_made);
            let e9 = lit_state_close();
            let p0 = pos;
            let p1 = p0 + e1.len();
            let p2 = p1 + e2.len();
            let p3 = p2 + e3.len();
            let p4 = p3 + e4.len();
            let p5 = p4 + e5.len();
            let p6 = p5 + e6.len();
            let p7 = p6 + e7.len();
            let p8 = p7 + e8.len();
            assert(enc_server(r@) =~= e1 + (e2 + (e3 + (e4 + (e5 + (e6 + (e7 + (e8 + e9))))))));
            lemma_split_at(s, p0, e1, e2 + (e3 + (e4 + (e5 + (e6 + (e7 + (e8 + e9)))))));
            lemma_split_at(s, p1, e2, e3 + (e4 + (e5 + (e6 + (e7 + (e8 + e9))))));
            lemma_split_at(s, p2, e3, e4 + (e5 + (e6 + (e7 + (e8 + e9)))));
            lemma_split_at(s, p3, e4, e5 + (e6 + (e7 + (e8 + e9))));
            lemma_split_at(s, p4, e5, e6 + (e7 + (e8 + e9)));
            lemma_split_at(s, p5, e6, e7 + (e8 + e9));
            lemma_split_at(s, p6, e7, e8 + e9);
            lemma_split_at(s, p7, e8, e9);
            // the rejection atom does not match: the first byte differs
            assert(s[pos] == s.subrange(p0, p1)[0]);
            assert(s[pos] == 123u8);
            assert(pos + lit_rejected().len() <= s.len());
            assert(s.subrange(pos, pos + lit_rejected().len())[0] != lit_rejected()[0]);
            assert(sdec_lit(s, pos, lit_rejected()) == SpecDec::<()>::Bad);
            lemma_lit_at(s, p0, e1);
            lemma_board_at(s, p1, board@);
            lemma_lit_at(s, p2, e3);
            lemma_moves_at(s, p3, moves@);
            lemma_lit_at(s, p4, e5);
            lemma_joever_at(s, p5, joever);
            lemma_lit_at(s, p6, e7);
            lemma_move_at(s, p7, move_made);
            lemma_lit_at(s, p8, e9);
        },
        ServerToClient::Rejected => {},
    }
}

/// Decoding a stream whose next bytes are an encoded handshake request
/// yields exactly that request and consumes exactly its bytes.
pub proof fn lemma_handshake_request_round_trip(
    h: ClientToServerHandshake,
    pre: Seq<u8>,
    rest: Seq<u8>,
)
    ensures
        sdec_hs_req(pre + enc_hs_req(h) + rest, pre.len() as int) == SpecDec::Done(
            h,
            pre.len() + enc_hs_req(h).len() as int,
        ),
{
    let s = pre + enc_hs_req(h) + rest;
    let pos = pre.len() as int;
    assert(s.subrange(pos, pos + enc_hs_req(h).len()) =~= enc_hs_req(h));
    let e1 = lit_hs_req_open();
    let e2 = enc_color(h.server_color);
    let e3 = lit_rbrace();
    assert(enc_hs_req(h) =~= e1 + (e2 + e3));
    lemma_split_at(s, pos, e1, e2 + e3);
    lemma_split_at(s, pos + e1.len(), e2, e3);
    lemma_lit_at(s, pos, e1);
    lemma_color_at(s, pos + e1.len(), h.server_color);
    lemma_lit_at(s, pos + e1.len() + e2.len(), e3);
    assert(ClientToServerHandshake { server_color: h.server_color } == h);
}

/// Decoding a stream whose next bytes are an encoded handshake reply
/// yields exactly that reply and consumes exactly its bytes.
pub proof fn lemma_handshake_response_round_trip(
    h: ServerToClientHandshake,
    pre: Seq<u8>,
    rest: Seq<u8>,
)
    requires
        h.wf(),
    ensures
        sdec_hs_resp(pre + enc_hs_resp(h@) + rest, pre.len() as int) == SpecDec::Done(
            h@,
            pre.len() + enc_hs_resp(h@).len() as int,
        ),
{
    let s = pre + enc_hs_resp(h@) + rest;
    let pos = pre.len() as int;
    assert(s.subrange(pos, pos + enc_hs_resp(h@).len()) =~= enc_hs_resp(h@));
    lemma_hs_resp_at(s, pos, h);
}

/// A handshake reply in place decodes as itself.
#[verifier::rlimit(100)]
proof fn lemma_hs_resp_at(s: Seq<u8>, pos: int, h: ServerToClientHandshake)
    requires
        h.wf(),
        0 <= pos,
        pos + enc_hs_resp(h@).len() <= s.len(),
        s.subrange(pos, pos + enc_hs_resp(h@).len()) == enc_hs_resp(h@),
    ensures
        sdec_hs_resp(s, pos) == SpecDec::Done(h@, pos + enc_hs_resp(h@).len() as int),
{
    let e1 = lit_hs_resp_open();
    let e2 = enc_color(h.color);
    let e3 = lit_key_board();
    let e4 = enc_board(h.board@);
    let e5 = lit_key_moves();
    let e6 = enc_moves(h.moves@);
    let e7 = lit_rbrace();
    let p0 = pos;
    let p1 = p0 + e1.len();
    let p2 = p1 + e2.len();
    let p3 = p2 + e3.len();
    let p4 = p3 + e4.len();
    let p5 = p4 + e5.len();
    let p6 = p5 + e6.len();
    assert(enc_hs_resp(h@) =~= e1 + (e2 + (e3 + (e4 + (e5 + (e6 + e7))))));
    lemma_split_at(s, p0, e1, e2 + (e3 + (e4 + (e5 + (e6 + e7)))));
    lemma_split_at(s, p1, e2, e3 + (e4 + (e5 + (e6 + e7))));
    lemma_split_at(s, p2, e3, e4 + (e5 + (e6 + e7)));
    lemma_split_at(s, p3, e4, e5 + (e6 + e7));
    lemma_split_at(s, p4, e5, e6 + e7);
    lemma_split_at(s, p5, e6, e7);
    lemma_lit_at(s, p0, e1);
    lemma_color_at(s, p1, h.color);
    lemma_lit_at(s, p2, e3);
    lemma_board_at(s, p3, h.board@);
    lemma_lit_at(s, p4, e5);
    lemma_moves_at(s, p5, h.moves@);
    lemma_lit_at(s, p6, e7);
}

} // verus!
