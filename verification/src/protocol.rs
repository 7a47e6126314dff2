//! The wire-level data model: colors, pieces, moves, the board grid, the
//! game-outcome signal, and the records the two peers exchange.

use vstd::prelude::*;

verus! {

/// A side of the game.
#[derive(Clone, Copy, PartialEq, Eq, Structural, Debug)]
pub enum Color {
    White,
    Black,
}

impl Color {
    /// The opposing side.
    pub open spec fn spec_opposite(self) -> Color {
        match self {
            Color::White => Color::Black,
            Color::Black => Color::White,
        }
    }

    pub fn opposite(self) -> (r: Color)
        ensures
            r == self.spec_opposite(),
    {
        match self {
            Color::White => Color::Black,
            Color::Black => Color::White,
        }
    }
}

/// What one board square holds on the wire: nothing, or a colored piece.
/// A closed set of exactly thirteen values.
#[derive(Clone, Copy, PartialEq, Eq, Structural, Debug)]
pub enum Piece {
    Empty,
    WhitePawn,
    WhiteKnight,
    WhiteBishop,
    WhiteRook,
    WhiteQueen,
    WhiteKing,
    BlackPawn,
    BlackKnight,
    BlackBishop,
    BlackRook,
    BlackQueen,
    BlackKing,
}

/// The game-outcome signal: still running, a winner, or a draw.
/// Over a session it is monotonic: once terminal it never changes again.
#[derive(Clone, Copy, PartialEq, Eq, Structural, Debug)]
pub enum Joever {
    Ongoing,
    White,
    Black,
    Draw,
}

impl Joever {
    /// The terminal outcome in which `c` has won.
    pub open spec fn spec_win(c: Color) -> Joever {
        match c {
            Color::White => Joever::White,
            Color::Black => Joever::Black,
        }
    }

    pub fn win(c: Color) -> (r: Joever)
        ensures
            r == Joever::spec_win(c),
    {
        match c {
            Color::White => Joever::White,
            Color::Black => Joever::Black,
        }
    }
}

/// A move in wire coordinates: file (`x`) and rank (`y`), each in `0..=7`;
/// rank 0 is White's home row. `promotion` names the piece a pawn becomes
/// on reaching the last rank, or `Piece::Empty` when no promotion applies.
#[derive(Clone, Copy, PartialEq, Eq, Structural, Debug)]
pub struct Move {
    pub start_x: usize,
    pub start_y: usize,
    pub end_x: usize,
    pub end_y: usize,
    pub promotion: Piece,
}

impl Move {
    /// Wire invariant: all four coordinates lie on the 8x8 board.
    pub open spec fn wf(self) -> bool {
        self.start_x <= 7 && self.start_y <= 7 && self.end_x <= 7 && self.end_y <= 7
    }

    /// Whether every coordinate lies on the 8x8 board.
    pub fn in_bounds(&self) -> (r: bool)
        ensures
            r == self.wf(),
    {
        self.start_x <= 7 && self.start_y <= 7 && self.end_x <= 7 && self.end_y <= 7
    }
}

/// The full position: an 8x8 grid of `Piece`, indexed `[rank][file]`.
/// Every cell holds exactly one `Piece` value; a record always carries the
/// whole grid, never a patch.
pub struct Board {
    pub rows: Vec<Vec<Piece>>,
}

impl View for Board {
    type V = Seq<Seq<Piece>>;

    open spec fn view(&self) -> Seq<Seq<Piece>> {
        self.rows@.map_values(|r: Vec<Piece>| r@)
    }
}

impl Board {
    /// Well-formedness: eight ranks of eight files each.
    pub open spec fn wf(self) -> bool {
        &&& self@.len() == 8
        &&& forall|y: int| 0 <= y < 8 ==> (#[trigger] self@[y]).len() == 8
    }

    /// The piece at file `x`, rank `y`.
    pub open spec fn spec_at(self, x: int, y: int) -> Piece {
        self@[y][x]
    }

    pub fn at(&self, x: usize, y: usize) -> (p: Piece)
        requires
            self.wf(),
            x <= 7,
            y <= 7,
        ensures
            p == self.spec_at(x as int, y as int),
    {
        self.rows[y][x]
    }

    /// An owned copy of this board.
    pub fn snapshot(&self) -> (b: Board)
        requires
            self.wf(),
        ensures
            b.wf(),
            b@ == self@,
    {
        let mut rows: Vec<Vec<Piece>> = Vec::new();
        for y in 0..8usize
            invariant
                self.wf(),
                rows@.len() == y,
                forall|r: int| 0 <= r < y ==> (#[trigger] rows@[r])@ == self@[r],
        {
            let mut row: Vec<Piece> = Vec::new();
            for x in 0..8usize
                invariant
                    self.wf(),
                    y < 8,
                    row@.len() == x,
                    forall|c: int| 0 <= c < x ==> #[trigger] row@[c] == self@[y as int][c],
            {
                proof {
                    assert(self@[y as int].len() == 8);
                    assert(self@[y as int] == self.rows@[y as int]@);
                }
                row.push(self.rows[y][x]);
            }
            proof {
                assert(row@ =~= self@[y as int]);
            }
            rows.push(row);
        }
        let b = Board { rows };
        proof {
            assert(b@ =~= self@);
        }
        b
    }

    /// The standard starting position.
    pub fn starting() -> (b: Board)
        ensures
            b.wf(),
            forall|x: int, y: int|
                0 <= x < 8 && 0 <= y < 8 ==> b.spec_at(x, y) == spec_initial_piece(x, y),
    {
        let mut rows: Vec<Vec<Piece>> = Vec::new();
        for y in 0..8usize
            invariant
                rows@.len() == y,
                forall|r: int| 0 <= r < y ==> (#[trigger] rows@[r])@.len() == 8,
                forall|r: int, c: int|
                    0 <= r < y && 0 <= c < 8 ==> rows@[r]@[c] == spec_initial_piece(c, r),
        {
            let mut row: Vec<Piece> = Vec::new();
            for x in 0..8usize
                invariant
                    y < 8,
                    row@.len() == x,
                    forall|c: int| 0 <= c < x ==> #[trigger] row@[c] == spec_initial_piece(
                        c,
                        y as int,
                    ),
            {
                row.push(initial_piece(x, y));
            }
            rows.push(row);
        }
        Board { rows }
    }
}

/// The piece the standard starting position puts at file `x`, rank `y`:
/// White's pieces on ranks 0 and 1, Black's on 6 and 7, nothing between.
pub open spec fn spec_initial_piece(x: int, y: int) -> Piece {
    if y == 1 {
        Piece::WhitePawn
    } else if y == 6 {
        Piece::BlackPawn
    } else if y == 0 || y == 7 {
        let white = y == 0;
        if x == 0 || x == 7 {
            if white { Piece::WhiteRook } else { Piece::BlackRook }
        } else if x == 1 || x == 6 {
            if white { Piece::WhiteKnight } else { Piece::BlackKnight }
        } else if x == 2 || x == 5 {
            if white { Piece::WhiteBishop } else { Piece::BlackBishop }
        } else if x == 3 {
            if white { Piece::WhiteQueen } else { Piece::BlackQueen }
        } else {
            if white { Piece::WhiteKing } else { Piece::BlackKing }
        }
    } else {
        Piece::Empty
    }
}

/// The starting piece at file `x`, rank `y`.
pub fn initial_piece(x: usize, y: usize) -> (p: Piece)
    requires
        x <= 7,
        y <= 7,
    ensures
        p == spec_initial_piece(x as int, y as int),
{
    if y == 1 {
        Piece::WhitePawn
    } else if y == 6 {
        Piece::BlackPawn
    } else if y == 0 || y == 7 {
        let white = y == 0;
        if x == 0 || x == 7 {
            if white { Piece::WhiteRook } else { Piece::BlackRook }
        } else if x == 1 || x == 6 {
            if white { Piece::WhiteKnight } else { Piece::BlackKnight }
        } else if x == 2 || x == 5 {
            if white { Piece::WhiteBishop } else { Piece::BlackBishop }
        } else if x == 3 {
            if white { Piece::WhiteQueen } else { Piece::BlackQueen }
        } else {
            if white { Piece::WhiteKing } else { Piece::BlackKing }
        }
    } else {
        Piece::Empty
    }
}

/// A record the client sends to the server after the handshake.
/// The single variant proposes a move.
pub enum ClientToServer {
    Move(Move),
}

impl ClientToServer {
    /// Well-formedness: the proposed move lies on the board.
    pub open spec fn wf(self) -> bool {
        match self {
            ClientToServer::Move(m) => m.wf(),
        }
    }
}

/// A record the server sends to the client after the handshake: either the
/// authoritative state after an accepted move, or an explicit rejection.
/// Exactly one of these answers each proposal; a declined move is never met
/// with silence.
pub enum ServerToClient {
    State { board: Board, moves: Vec<Move>, joever: Joever, move_made: Move },
    Rejected,
}

impl ServerToClient {
    /// Well-formedness: a full board and in-bounds moves.
    pub open spec fn wf(self) -> bool {
        match self {
            ServerToClient::State { board, moves, joever, move_made } => {
                &&& board.wf()
                &&& forall|i: int| 0 <= i < moves@.len() ==> (#[trigger] moves@[i]).wf()
                &&& move_made.wf()
            },
            ServerToClient::Rejected => true,
        }
    }
}

/// The spec-level image of a [`ServerToClient`] record, with the board and
/// move list abstracted to sequences.
pub enum ServerToClientView {
    State { board: Seq<Seq<Piece>>, moves: Seq<Move>, joever: Joever, move_made: Move },
    Rejected,
}

impl View for ServerToClient {
    type V = ServerToClientView;

    open spec fn view(&self) -> ServerToClientView {
        match self {
            ServerToClient::State { board, moves, joever, move_made } => ServerToClientView::State {
                board: board@,
                moves: moves@,
                joever: *joever,
                move_made: *move_made,
            },
            ServerToClient::Rejected => ServerToClientView::Rejected,
        }
    }
}

/// The one-time opening record from the client, naming the color the client
/// assigns to the server peer.
#[derive(Clone, Copy, PartialEq, Eq, Structural, Debug)]
pub struct ClientToServerHandshake {
    pub server_color: Color,
}

/// The one-time opening reply from the server: the color assigned to the
/// client, the authoritative starting board, and the initial legal moves.
pub struct ServerToClientHandshake {
    pub color: Color,
    pub board: Board,
    pub moves: Vec<Move>,
}

impl ServerToClientHandshake {
    /// Well-formedness: a full board and in-bounds moves.
    pub open spec fn wf(self) -> bool {
        &&& self.board.wf()
        &&& forall|i: int| 0 <= i < self.moves@.len() ==> (#[trigger] self.moves@[i]).wf()
    }
}

/// The spec-level image of a [`ServerToClientHandshake`].
pub struct ServerToClientHandshakeView {
    pub color: Color,
    pub board: Seq<Seq<Piece>>,
    pub moves: Seq<Move>,
}

impl View for ServerToClientHandshake {
    type V = ServerToClientHandshakeView;

    open spec fn view(&self) -> ServerToClientHandshakeView {
        ServerToClientHandshakeView { color: self.color, board: self.board@, moves: self.moves@ }
    }
}

/// The fatal failure classes of a session. An illegal move is not here: it
/// is answered within its turn by `ServerToClient::Rejected` and never tears
/// the session down.
#[derive(Clone, Copy, PartialEq, Eq, Structural, Debug)]
pub enum SessionError {
    /// The first record received was not a valid handshake, or the stream
    /// ended before one arrived.
    HandshakeError,
    /// A malformed record, an unknown tag, or the stream ended mid-record.
    ProtocolError,
    /// A failure of the transport underneath the records.
    ConnectionError,
}

} // verus!
