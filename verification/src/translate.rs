//! Translation between the wire's (file, rank) coordinates and the rules
//! engine's addressing: a linear index into a padded board 10 squares wide,
//! whose playable 8x8 sub-board starts at index 21. The padding rows and
//! columns are off-board sentinels that the engine uses for boundary checks;
//! the translator is a bijection over the playable sub-board.

use vstd::prelude::*;
use crate::protocol::{Board, Color, Move, Piece};

verus! {

/// One half-move in the engine's representation: origin and destination as
/// linear indices into the padded board.
#[derive(Clone, Copy, PartialEq, Eq, Structural, Debug)]
pub struct Ply {
    pub origin: usize,
    pub destination: usize,
}

/// The engine-side contents of one square: empty, or a piece with its color.
#[derive(Clone, Copy, PartialEq, Eq, Structural, Debug)]
pub enum Tile {
    Empty,
    Pawn(Color),
    Knight(Color),
    Bishop(Color),
    Rook(Color),
    Queen(Color),
    King(Color),
}

/// Whether linear index `i` addresses a square of the playable 8x8
/// sub-board: rows 2..=9 of the padded board, columns 1..=8 of each row.
pub open spec fn playable(i: int) -> bool {
    21 <= i <= 98 && 1 <= i % 10 <= 8
}

/// The wire rank (0..=7) addressed by playable index `i`.
pub open spec fn spec_rank_of(i: int) -> int {
    (i - 21) / 10
}

/// The wire file (0..=7) addressed by playable index `i`.
pub open spec fn spec_file_of(i: int) -> int {
    (i - 1) % 10
}

/// The playable linear index addressing wire file `x`, rank `y`.
pub open spec fn spec_index_of(x: int, y: int) -> int {
    21 + 10 * y + x
}

impl Ply {
    /// Well-formedness: both endpoints address playable squares.
    pub open spec fn wf(self) -> bool {
        playable(self.origin as int) && playable(self.destination as int)
    }
}

/// A playable index splits into its rank and file, both on the 8x8 board,
/// and reassembling them gives the index back.
pub proof fn lemma_playable_split(i: int)
    requires
        playable(i),
    ensures
        0 <= spec_rank_of(i) <= 7,
        0 <= spec_file_of(i) <= 7,
        spec_index_of(spec_file_of(i), spec_rank_of(i)) == i,
{
    assert(0 <= spec_rank_of(i) <= 7 && 0 <= spec_file_of(i) <= 7
        && spec_index_of(spec_file_of(i), spec_rank_of(i)) == i) by (nonlinear_arith)
        requires playable(i);
}

/// Assembling a board coordinate into a linear index lands on the playable
/// sub-board, and splitting it again gives the coordinate back.
pub proof fn lemma_index_of_playable(x: int, y: int)
    requires
        0 <= x <= 7,
        0 <= y <= 7,
    ensures
        playable(spec_index_of(x, y)),
        spec_file_of(spec_index_of(x, y)) == x,
        spec_rank_of(spec_index_of(x, y)) == y,
{
    assert(playable(spec_index_of(x, y)) && spec_file_of(spec_index_of(x, y)) == x
        && spec_rank_of(spec_index_of(x, y)) == y) by (nonlinear_arith)
        requires 0 <= x <= 7 && 0 <= y <= 7;
}

/// The rank and file of engine index `i`, in the engine's own order
/// (rank first, then file).
pub fn backend_i_to_xy(i: usize) -> (r: (i32, i32))
    requires
        21 <= i <= 98,
    ensures
        r.0 as int == spec_rank_of(i as int),
        r.1 as int == spec_file_of(i as int),
{
    (((i - 21) / 10) as i32, ((i - 1) % 10) as i32)
}

/// The wire move naming the same origin and destination as engine ply `p`.
pub open spec fn spec_to_wire(p: Ply) -> Move {
    Move {
        start_x: spec_file_of(p.origin as int) as usize,
        start_y: spec_rank_of(p.origin as int) as usize,
        end_x: spec_file_of(p.destination as int) as usize,
        end_y: spec_rank_of(p.destination as int) as usize,
        promotion: Piece::Empty,
    }
}

/// The engine ply naming the same origin and destination as wire move `m`.
pub open spec fn spec_to_engine(m: Move) -> Ply {
    Ply {
        origin: spec_index_of(m.start_x as int, m.start_y as int) as usize,
        destination: spec_index_of(m.end_x as int, m.end_y as int) as usize,
    }
}

/// Translates an engine ply to the wire move addressing the same squares.
/// The engine does not name a promotion piece, so the wire field is Empty.
pub fn backend_move_to_network_move(mv: Ply) -> (m: Move)
    requires
        mv.wf(),
    ensures
        m == spec_to_wire(mv),
        m.wf(),
{
    proof {
        lemma_playable_split(mv.origin as int);
        lemma_playable_split(mv.destination as int);
    }
    let (start_y, start_x) = backend_i_to_xy(mv.origin);
    let (end_y, end_x) = backend_i_to_xy(mv.destination);
    Move {
        start_x: start_x as usize,
        start_y: start_y as usize,
        end_x: end_x as usize,
        end_y: end_y as usize,
        promotion: Piece::Empty,
    }
}

/// Translates a wire move to the engine ply addressing the same squares.
pub fn network_move_to_backend_move(m: &Move) -> (p: Ply)
    requires
        m.wf(),
    ensures
        p == spec_to_engine(*m),
        p.wf(),
{
    proof {
        lemma_index_of_playable(m.start_x as int, m.start_y as int);
        lemma_index_of_playable(m.end_x as int, m.end_y as int);
    }
    Ply {
        origin: 21 + 10 * m.start_y + m.start_x,
        destination: 21 + 10 * m.end_y + m.end_x,
    }
}

/// Round trip from the wire: translating a move to engine addressing and
/// back is the identity, for every move on the 8x8 board whose promotion
/// field is Empty (the engine ply does not carry a promotion, so the
/// translation back always writes Empty there).
pub proof fn lemma_wire_round_trip(m: Move)
    requires
        m.wf(),
        m.promotion == Piece::Empty,
    ensures
        spec_to_wire(spec_to_engine(m)) == m,
{
    lemma_index_of_playable(m.start_x as int, m.start_y as int);
    lemma_index_of_playable(m.end_x as int, m.end_y as int);
}

/// Round trip from the engine: translating a playable ply to the wire and
/// back is the identity, for every reachable square pair.
pub proof fn lemma_engine_round_trip(p: Ply)
    requires
        p.wf(),
    ensures
        spec_to_engine(spec_to_wire(p)) == p,
{
    lemma_playable_split(p.origin as int);
    lemma_playable_split(p.destination as int);
}

/// The wire piece standing for engine tile `t`. Exhaustive over the closed
/// thirteen-value set: every tile kind has its wire piece, an empty square
/// maps to Empty, and no input can fall through to a failure arm.
pub open spec fn spec_tile_to_piece(t: Tile) -> Piece {
    match t {
        Tile::Empty => Piece::Empty,
        Tile::Pawn(Color::White) => Piece::WhitePawn,
        Tile::Knight(Color::White) => Piece::WhiteKnight,
        Tile::Bishop(Color::White) => Piece::WhiteBishop,
        Tile::Rook(Color::White) => Piece::WhiteRook,
        Tile::Queen(Color::White) => Piece::WhiteQueen,
        Tile::King(Color::White) => Piece::WhiteKing,
        Tile::Pawn(Color::Black) => Piece::BlackPawn,
        Tile::Knight(Color::Black) => Piece::BlackKnight,
        Tile::Bishop(Color::Black) => Piece::BlackBishop,
        Tile::Rook(Color::Black) => Piece::BlackRook,
        Tile::Queen(Color::Black) => Piece::BlackQueen,
        Tile::King(Color::Black) => Piece::BlackKing,
    }
}

pub fn tile_to_piece(t: Tile) -> (p: Piece)
    ensures
        p == spec_tile_to_piece(t),
{
    match t {
        Tile::Empty => Piece::Empty,
        Tile::Pawn(Color::White) => Piece::WhitePawn,
        Tile::Knight(Color::White) => Piece::WhiteKnight,
        Tile::Bishop(Color::White) => Piece::WhiteBishop,
        Tile::Rook(Color::White) => Piece::WhiteRook,
        Tile::Queen(Color::White) => Piece::WhiteQueen,
        Tile::King(Color::White) => Piece::WhiteKing,
        Tile::Pawn(Color::Black) => Piece::BlackPawn,
        Tile::Knight(Color::Black) => Piece::BlackKnight,
        Tile::Bishop(Color::Black) => Piece::BlackBishop,
        Tile::Rook(Color::Black) => Piece::BlackRook,
        Tile::Queen(Color::Black) => Piece::BlackQueen,
        Tile::King(Color::Black) => Piece::BlackKing,
    }
}

/// The engine tile standing for wire piece `p`.
pub open spec fn spec_piece_to_tile(p: Piece) -> Tile {
    match p {
        Piece::Empty => Tile::Empty,
        Piece::WhitePawn => Tile::Pawn(Color::White),
        Piece::WhiteKnight => Tile::Knight(Color::White),
        Piece::WhiteBishop => Tile::Bishop(Color::White),
        Piece::WhiteRook => Tile::Rook(Color::White),
        Piece::WhiteQueen => Tile::Queen(Color::White),
        Piece::WhiteKing => Tile::King(Color::White),
        Piece::BlackPawn => Tile::Pawn(Color::Black),
        Piece::BlackKnight => Tile::Knight(Color::Black),
        Piece::BlackBishop => Tile::Bishop(Color::Black),
        Piece::BlackRook => Tile::Rook(Color::Black),
        Piece::BlackQueen => Tile::Queen(Color::Black),
        Piece::BlackKing => Tile::King(Color::Black),
    }
}

pub fn piece_to_tile(p: Piece) -> (t: Tile)
    ensures
        t == spec_piece_to_tile(p),
{
    match p {
        Piece::Empty => Tile::Empty,
        Piece::WhitePawn => Tile::Pawn(Color::White),
        Piece::WhiteKnight => Tile::Knight(Color::White),
        Piece::WhiteBishop => Tile::Bishop(Color::White),
        Piece::WhiteRook => Tile::Rook(Color::White),
        Piece::WhiteQueen => Tile::Queen(Color::White),
        Piece::WhiteKing => Tile::King(Color::White),
        Piece::BlackPawn => Tile::Pawn(Color::Black),
        Piece::BlackKnight => Tile::Knight(Color::Black),
        Piece::BlackBishop => Tile::Bishop(Color::Black),
        Piece::BlackRook => Tile::Rook(Color::Black),
        Piece::BlackQueen => Tile::Queen(Color::Black),
        Piece::BlackKing => Tile::King(Color::Black),
    }
}

/// Round trip through the engine tile representation: every wire piece
/// comes back as itself.
pub proof fn lemma_piece_round_trip(p: Piece)
    ensures
        spec_tile_to_piece(spec_piece_to_tile(p)) == p,
{
}

/// Round trip through the wire piece representation: every engine tile
/// comes back as itself.
pub proof fn lemma_tile_round_trip(t: Tile)
    ensures
        spec_piece_to_tile(spec_tile_to_piece(t)) == t,
{
}

/// Whether `tiles` is a full 8x8 grid, indexed `[rank][file]` like the
/// wire board.
pub open spec fn tiles_wf(tiles: Seq<Vec<Tile>>) -> bool {
    tiles.len() == 8 && forall|y: int| 0 <= y < 8 ==> (#[trigger] tiles[y])@.len() == 8
}

/// Translates a full engine board snapshot to the wire board, cell by cell.
pub fn backend_board_to_network_board(tiles: &Vec<Vec<Tile>>) -> (b: Board)
    requires
        tiles_wf(tiles@),
    ensures
        b.wf(),
        forall|x: int, y: int|
            0 <= x < 8 && 0 <= y < 8 ==> b.spec_at(x, y) == spec_tile_to_piece(
                #[trigger] tiles@[y]@[x],
            ),
{
    let mut rows: Vec<Vec<Piece>> = Vec::new();
    for y in 0..8usize
        invariant
            tiles_wf(tiles@),
            rows@.len() == y,
            forall|r: int| 0 <= r < y ==> (#[trigger] rows@[r])@.len() == 8,
            forall|r: int, c: int|
                0 <= r < y && 0 <= c < 8 ==> rows@[r]@[c] == spec_tile_to_piece(
                    #[trigger] tiles@[r]@[c],
                ),
    {
        let mut row: Vec<Piece> = Vec::new();
        for x in 0..8usize
            invariant
                tiles_wf(tiles@),
                y < 8,
                row@.len() == x,
                forall|c: int|
                    0 <= c < x ==> row@[c] == spec_tile_to_piece(#[trigger] tiles@[y as int]@[c]),
        {
            row.push(tile_to_piece(tiles[y][x]));
        }
        rows.push(row);
    }
    let b = Board { rows };
    proof {
        assert(forall|y: int| 0 <= y < 8 ==> (#[trigger] b@[y]).len() == 8);
    }
    b
}

} // verus!
