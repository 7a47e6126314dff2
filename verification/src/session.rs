//! The per-connection game state and the two state machines around it: the
//! server-side move authority, which validates proposals against the rules
//! engine's verdict, applies them, and publishes the new state, and the
//! client-side submitter, which updates its cached copy only from `State`
//! records.
//!
//! The rules engine is an external oracle. Its answer to one proposal
//! enters as an [`EngineVerdict`]: either the move was illegal, or it was
//! applied, together with the engine's board snapshot, the legal moves for
//! the next player, and whether the new position is checkmate. Everything
//! the library decides from a verdict is verified for every possible
//! verdict value.

use vstd::prelude::*;
use crate::codec::{
    decode_client_record, decode_handshake_request, encode_handshake_response,
    encode_server_record, enc_hs_resp, enc_server, sdec_c2s, sdec_hs_req, DecodeOutcome, SpecDec,
};
use crate::protocol::{
    Board, ClientToServer, Color, Joever, Move, ServerToClient, ServerToClientHandshake,
    ServerToClientHandshakeView, ServerToClientView, SessionError,
};
use crate::translate::{backend_board_to_network_board, spec_tile_to_piece, tiles_wf, Tile};

verus! {

/// The rules engine's answer to one move proposal.
pub enum EngineVerdict {
    /// The engine refused the move; nothing changed.
    Illegal,
    /// The engine applied the move. `tiles` is its full board afterwards,
    /// indexed `[rank][file]`; `next_moves` are the legal moves of the side
    /// now to move; `checkmate` says whether that side is checkmated.
    Applied { tiles: Vec<Vec<Tile>>, next_moves: Vec<Move>, checkmate: bool },
}

impl EngineVerdict {
    /// Well-formedness: an applied verdict carries a full 8x8 grid and
    /// moves that lie on the board.
    pub open spec fn wf(self) -> bool {
        match self {
            EngineVerdict::Illegal => true,
            EngineVerdict::Applied { tiles, next_moves, checkmate } => {
                &&& tiles_wf(tiles@)
                &&& forall|i: int| 0 <= i < next_moves@.len() ==> (#[trigger] next_moves@[i]).wf()
            },
        }
    }
}

/// The game state one peer holds: the board, the side to move, the legal
/// moves of that side, and the outcome signal. On the server this is the
/// authoritative state; on the client it is the most recently received
/// copy.
pub struct Chess {
    pub board: Board,
    pub player: Color,
    pub moves: Vec<Move>,
    pub joever: Joever,
}

/// Copies a move list.
fn copy_moves(v: &Vec<Move>) -> (r: Vec<Move>)
    ensures
        r@ == v@,
{
    let mut r: Vec<Move> = Vec::new();
    let n = v.len();
    for i in 0..n
        invariant
            n == v@.len(),
            r@ =~= v@.subrange(0, i as int),
    {
        r.push(v[i]);
    }
    proof {
        assert(r@ =~= v@);
    }
    r
}

impl Chess {
    /// Well-formedness: a full board and in-bounds moves.
    pub open spec fn wf(self) -> bool {
        &&& self.board.wf()
        &&& forall|i: int| 0 <= i < self.moves@.len() ==> (#[trigger] self.moves@[i]).wf()
    }

    /// A fresh game: the standard starting position, White to move, no
    /// outcome yet, and no legal moves cached until the engine supplies
    /// them.
    pub fn new() -> (s: Chess)
        ensures
            s.wf(),
            s.board.wf(),
            forall|x: int, y: int|
                0 <= x < 8 && 0 <= y < 8 ==> s.board.spec_at(x, y)
                    == crate::protocol::spec_initial_piece(x, y),
            s.player == Color::White,
            s.joever == Joever::Ongoing,
            s.moves@.len() == 0,
    {
        Chess {
            board: Board::starting(),
            player: Color::White,
            moves: Vec::new(),
            joever: Joever::Ongoing,
        }
    }

    /// The side whose turn it is.
    pub fn player_to_move(&self) -> (c: Color)
        ensures
            c == self.player,
    {
        self.player
    }

    /// An owned copy of the board this peer currently holds.
    pub fn get_board(&self) -> (b: Board)
        requires
            self.wf(),
        ensures
            b.wf(),
            b@ == self.board@,
    {
        self.board.snapshot()
    }

    /// An owned copy of the cached legal-move list.
    pub fn get_moves(&self) -> (r: Vec<Move>)
        ensures
            r@ == self.moves@,
    {
        copy_moves(&self.moves)
    }

    /// Whether the game has ended; once true it stays true.
    pub fn game_over(&self) -> (r: bool)
        ensures
            r == (self.joever != Joever::Ongoing),
    {
        self.joever != Joever::Ongoing
    }

    /// The server move authority's whole turn: decide the answer to one
    /// proposal and advance the authoritative state.
    ///
    /// After the game has ended every proposal is rejected unconditionally
    /// and nothing changes. While it is running, the engine's verdict
    /// decides: an illegal move changes nothing and is answered with the
    /// explicit `Rejected` record — never with silence — and an applied
    /// move yields a `State` record carrying the republished board, the
    /// next player's moves, the outcome, and the proposal echoed back. The
    /// outcome stays `Ongoing` until the engine first reports checkmate;
    /// the winner is then the side that just moved, recorded for good.
    pub fn try_server_move(&mut self, mv: Move, verdict: EngineVerdict) -> (r: ServerToClient)
        requires
            old(self).wf(),
            mv.wf(),
            verdict.wf(),
        ensures
            final(self).wf(),
            old(self).joever != Joever::Ongoing ==> *final(self) == *old(self)
                && r == ServerToClient::Rejected,
            old(self).joever == Joever::Ongoing && verdict == EngineVerdict::Illegal
                ==> *final(self) == *old(self) && r == ServerToClient::Rejected,
            old(self).joever == Joever::Ongoing && verdict is Applied ==> {
                &&& final(self).player == old(self).player.spec_opposite()
                &&& final(self).moves@ == verdict->next_moves@
                &&& final(self).joever == (if verdict->checkmate {
                    Joever::spec_win(old(self).player)
                } else {
                    Joever::Ongoing
                })
                &&& forall|x: int, y: int|
                    0 <= x < 8 && 0 <= y < 8 ==> final(self).board.spec_at(x, y)
                        == spec_tile_to_piece(#[trigger] verdict->tiles@[y]@[x])
                &&& r is State
                &&& r->board@ == final(self).board@
                &&& r->moves@ == verdict->next_moves@
                &&& r->joever == final(self).joever
                &&& r->move_made == mv
            },
    {
        if self.joever != Joever::Ongoing {
            return ServerToClient::Rejected;
        }
        match verdict {
            EngineVerdict::Illegal => ServerToClient::Rejected,
            EngineVerdict::Applied { tiles, next_moves, checkmate } => {
                let board = backend_board_to_network_board(&tiles);
                let published = board.snapshot();
                let mover = self.player;
                self.board = board;
                self.player = mover.opposite();
                self.joever = if checkmate {
                    Joever::win(mover)
                } else {
                    Joever::Ongoing
                };
                self.moves = copy_moves(&next_moves);
                ServerToClient::State {
                    board: published,
                    moves: next_moves,
                    joever: self.joever,
                    move_made: mv,
                }
            },
        }
    }

    /// The client submitter's update for the one record that answers a
    /// proposal: a `State` record replaces the cached board, move list and
    /// outcome and passes the turn to the other side; a `Rejected` record
    /// changes nothing.
    pub fn try_client_move(&mut self, r: ServerToClient)
        requires
            old(self).wf(),
            (r matches ServerToClient::State { board, moves, joever, move_made } ==> board.wf()
                && (forall|i: int| 0 <= i < moves@.len() ==> (#[trigger] moves@[i]).wf())),
        ensures
            final(self).wf(),
            r == ServerToClient::Rejected ==> *final(self) == *old(self),
            (r matches ServerToClient::State { board, moves, joever, move_made } ==> {
                &&& final(self).board@ == board@
                &&& final(self).moves@ == moves@
                &&& final(self).joever == joever
                &&& final(self).player == old(self).player.spec_opposite()
            }),
    {
        match r {
            ServerToClient::Rejected => (),
            ServerToClient::State { board, moves, joever, move_made: _ } => {
                self.board = board;
                self.moves = moves;
                self.joever = joever;
                self.player = self.player.opposite();
            },
        }
    }

    /// The client's handshake update: adopt the server's authoritative
    /// starting board and initial move list. White is to move first.
    pub fn adopt_handshake(&mut self, h: ServerToClientHandshake)
        requires
            h.board.wf(),
            forall|i: int| 0 <= i < h.moves@.len() ==> (#[trigger] h.moves@[i]).wf(),
        ensures
            final(self).wf(),
            final(self).board@ == h.board@,
            final(self).moves@ == h.moves@,
            final(self).player == Color::White,
            final(self).joever == Joever::Ongoing,
    {
        self.board = h.board;
        self.moves = h.moves;
        self.player = Color::White;
        self.joever = Joever::Ongoing;
    }
}

/// Where a connection stands in its lifetime: before the one-time
/// handshake, exchanging turns, or closed for good after a fatal failure.
#[derive(Clone, Copy, PartialEq, Eq, Structural, Debug)]
pub enum Phase {
    AwaitingHandshake,
    InGame,
    Closed,
}

/// Progress on one inbound record: a result together with the cursor of the
/// next record, a need for more bytes from the stream, or a fatal failure.
pub enum Step<T> {
    Ready(T, usize),
    NeedMore,
    Failed(SessionError),
}

/// One server-side connection: the lifecycle phase and the authoritative
/// game it guards. Built once per connection; there is no ambient game
/// state anywhere else.
pub struct Session {
    pub phase: Phase,
    pub chess: Chess,
}

impl Session {
    /// A fresh connection, waiting for the opening handshake.
    pub fn new() -> (s: Session)
        ensures
            s.phase == Phase::AwaitingHandshake,
            s.chess.wf(),
            s.chess.player == Color::White,
            s.chess.joever == Joever::Ongoing,
            forall|x: int, y: int|
                0 <= x < 8 && 0 <= y < 8 ==> s.chess.board.spec_at(x, y)
                    == crate::protocol::spec_initial_piece(x, y),
    {
        Session { phase: Phase::AwaitingHandshake, chess: Chess::new() }
    }

    /// Handles the connection's first record, which must be a handshake
    /// request. A valid request moves the session into the game and yields
    /// the encoded reply: the client's assigned color (the opposite of the
    /// one it gave the server), the authoritative starting board, and the
    /// engine's initial legal moves, supplied by the caller. Anything else
    /// — a malformed record, a record of another kind, or a stream that
    /// ended before the record was whole — closes the session with
    /// `HandshakeError`, and no turn record is ever processed: every turn
    /// entry point requires the in-game phase, which only this acceptance
    /// can establish.
    pub fn accept_handshake(
        &mut self,
        buf: &Vec<u8>,
        pos: usize,
        eof: bool,
        initial_moves: Vec<Move>,
    ) -> (r: Step<Vec<u8>>)
        requires
            old(self).phase == Phase::AwaitingHandshake,
            old(self).chess.wf(),
            pos <= buf@.len(),
            forall|i: int| 0 <= i < initial_moves@.len() ==> (#[trigger] initial_moves@[i]).wf(),
        ensures
            final(self).chess == old(self).chess,
            (sdec_hs_req(buf@, pos as int) matches SpecDec::Done(req, n) ==> {
                &&& final(self).phase == Phase::InGame
                &&& r matches Step::Ready(out, consumed) && consumed == n && out@ == enc_hs_resp(
                    ServerToClientHandshakeView {
                        color: req.server_color.spec_opposite(),
                        board: old(self).chess.board@,
                        moves: initial_moves@,
                    },
                )
            }),
            sdec_hs_req(buf@, pos as int) is Short && !eof ==> *final(self) == *old(self) && r
                is NeedMore,
            sdec_hs_req(buf@, pos as int) is Short && eof ==> final(self).phase == Phase::Closed
                && r == Step::<Vec<u8>>::Failed(SessionError::HandshakeError),
            sdec_hs_req(buf@, pos as int) is Bad ==> final(self).phase == Phase::Closed && r
                == Step::<Vec<u8>>::Failed(SessionError::HandshakeError),
    {
        match decode_handshake_request(buf, pos) {
            DecodeOutcome::Done(req, n) => {
                let resp = ServerToClientHandshake {
                    color: req.server_color.opposite(),
                    board: self.chess.get_board(),
                    moves: initial_moves,
                };
                let out = encode_handshake_response(&resp);
                self.phase = Phase::InGame;
                Step::Ready(out, n)
            },
            DecodeOutcome::Incomplete => {
                if eof {
                    self.phase = Phase::Closed;
                    Step::Failed(SessionError::HandshakeError)
                } else {
                    Step::NeedMore
                }
            },
            DecodeOutcome::Malformed => {
                self.phase = Phase::Closed;
                Step::Failed(SessionError::HandshakeError)
            },
        }
    }

    /// Reads one turn record from the stream. A move proposal comes back
    /// for the caller to put before the rules engine; a malformed record,
    /// an unknown tag, or a stream that ended mid-record closes the
    /// session with `ProtocolError` — no resynchronization is attempted.
    pub fn parse_proposal(&mut self, buf: &Vec<u8>, pos: usize, eof: bool) -> (r: Step<Move>)
        requires
            old(self).phase == Phase::InGame,
            pos <= buf@.len(),
        ensures
            final(self).chess == old(self).chess,
            (sdec_c2s(buf@, pos as int) matches SpecDec::Done(rec, n) ==> {
                &&& *final(self) == *old(self)
                &&& rec matches ClientToServer::Move(m) && r == Step::<Move>::Ready(m, n as usize)
                    && m.wf()
            }),
            sdec_c2s(buf@, pos as int) is Short && !eof ==> *final(self) == *old(self) && r
                is NeedMore,
            sdec_c2s(buf@, pos as int) is Short && eof ==> final(self).phase == Phase::Closed && r
                == Step::<Move>::Failed(SessionError::ProtocolError),
            sdec_c2s(buf@, pos as int) is Bad ==> final(self).phase == Phase::Closed && r
                == Step::<Move>::Failed(SessionError::ProtocolError),
    {
        match decode_client_record(buf, pos) {
            DecodeOutcome::Done(rec, n) => {
                let ClientToServer::Move(m) = rec;
                Step::Ready(m, n)
            },
            DecodeOutcome::Incomplete => {
                if eof {
                    self.phase = Phase::Closed;
                    Step::Failed(SessionError::ProtocolError)
                } else {
                    Step::NeedMore
                }
            },
            DecodeOutcome::Malformed => {
                self.phase = Phase::Closed;
                Step::Failed(SessionError::ProtocolError)
            },
        }
    }

    /// Answers one proposal with the engine's verdict in hand: advances the
    /// authority exactly as [`Chess::try_server_move`] says and returns the
    /// one encoded record to flush to the peer — a `State` record for an
    /// applied move, the explicit `Rejected` record otherwise. Exactly one
    /// record answers each proposal.
    pub fn answer_proposal(&mut self, mv: Move, verdict: EngineVerdict) -> (out: Vec<u8>)
        requires
            old(self).phase == Phase::InGame,
            old(self).chess.wf(),
            mv.wf(),
            verdict.wf(),
        ensures
            final(self).phase == Phase::InGame,
            final(self).chess.wf(),
            old(self).chess.joever != Joever::Ongoing ==> final(self).chess == old(self).chess
                && out@ == enc_server(ServerToClientView::Rejected),
            old(self).chess.joever == Joever::Ongoing && verdict == EngineVerdict::Illegal
                ==> final(self).chess == old(self).chess && out@ == enc_server(
                ServerToClientView::Rejected,
            ),
            old(self).chess.joever == Joever::Ongoing && verdict is Applied ==> {
                &&& final(self).chess.player == old(self).chess.player.spec_opposite()
                &&& final(self).chess.moves@ == verdict->next_moves@
                &&& final(self).chess.joever == (if verdict->checkmate {
                    Joever::spec_win(old(self).chess.player)
                } else {
                    Joever::Ongoing
                })
                &&& forall|x: int, y: int|
                    0 <= x < 8 && 0 <= y < 8 ==> final(self).chess.board.spec_at(x, y)
                        == spec_tile_to_piece(#[trigger] verdict->tiles@[y]@[x])
                &&& out@ == enc_server(ServerToClientView::State {
                    board: final(self).chess.board@,
                    moves: verdict->next_moves@,
                    joever: final(self).chess.joever,
                    move_made: mv,
                })
            },
    {
        let rec = self.chess.try_server_move(mv, verdict);
        encode_server_record(&rec)
    }
}

} // verus!
