use chess_sync::codec::{
    decode_handshake_response, decode_server_record, encode_client_record,
    encode_handshake_request, DecodeOutcome,
};
use chess_sync::protocol::{
    ClientToServer, ClientToServerHandshake, Color, Joever, Move, Piece, ServerToClient,
    SessionError,
};
use chess_sync::session::{Chess, EngineVerdict, Phase, Session, Step};
use chess_sync::translate::Tile;

fn proposal(sx: usize, sy: usize, ex: usize, ey: usize) -> Move {
    Move { start_x: sx, start_y: sy, end_x: ex, end_y: ey, promotion: Piece::Empty }
}

fn opening_tiles() -> Vec<Vec<Tile>> {
    let mut g = vec![vec![Tile::Empty; 8]; 8];
    g[0] = vec![
        Tile::Rook(Color::White),
        Tile::Knight(Color::White),
        Tile::Bishop(Color::White),
        Tile::Queen(Color::White),
        Tile::King(Color::White),
        Tile::Bishop(Color::White),
        Tile::Knight(Color::White),
        Tile::Rook(Color::White),
    ];
    g[1] = vec![Tile::Pawn(Color::White); 8];
    g[6] = vec![Tile::Pawn(Color::Black); 8];
    g[7] = vec![
        Tile::Rook(Color::Black),
        Tile::Knight(Color::Black),
        Tile::Bishop(Color::Black),
        Tile::Queen(Color::Black),
        Tile::King(Color::Black),
        Tile::Bishop(Color::Black),
        Tile::Knight(Color::Black),
        Tile::Rook(Color::Black),
    ];
    let m = proposal(4, 1, 4, 3);
    let piece = g[m.start_y][m.start_x];
    g[m.start_y][m.start_x] = Tile::Empty;
    g[m.end_y][m.end_x] = piece;
    g
}

#[test]
fn handshake_exchange_assigns_opposite_colors() {
    let mut session = Session::new();
    let req = ClientToServerHandshake { server_color: Color::Black };
    let bytes = encode_handshake_request(&req);
    let step = session.accept_handshake(&bytes, 0, false, Vec::new());
    match step {
        Step::Ready(out, consumed) => {
            assert_eq!(consumed, bytes.len());
            match decode_handshake_response(&out, 0) {
                DecodeOutcome::Done(resp, n) => {
                    assert_eq!(n, out.len());
                    assert_eq!(resp.color, Color::White);
                    assert_eq!(resp.board.at(0, 0), Piece::WhiteRook);
                    assert_eq!(resp.board.at(4, 7), Piece::BlackKing);
                    assert_eq!(resp.moves.len(), 0);
                },
                _ => panic!("handshake reply did not decode"),
            }
        },
        _ => panic!("valid handshake was not accepted"),
    }
    assert_eq!(session.phase, Phase::InGame);
}

#[test]
fn garbage_first_record_is_a_handshake_error() {
    let mut session = Session::new();
    let bytes: Vec<u8> = b"not a handshake at all".to_vec();
    let step = session.accept_handshake(&bytes, 0, false, Vec::new());
    assert!(matches!(step, Step::Failed(SessionError::HandshakeError)));
    assert_eq!(session.phase, Phase::Closed);
}

#[test]
fn turn_record_first_is_a_handshake_error() {
    // a well-formed record of the wrong kind must not open the game
    let mut session = Session::new();
    let bytes = encode_client_record(&ClientToServer::Move(proposal(4, 1, 4, 3)));
    let step = session.accept_handshake(&bytes, 0, false, Vec::new());
    assert!(matches!(step, Step::Failed(SessionError::HandshakeError)));
    assert_eq!(session.phase, Phase::Closed);
}

#[test]
fn partial_handshake_waits_unless_the_stream_closed() {
    let req = ClientToServerHandshake { server_color: Color::Black };
    let bytes = encode_handshake_request(&req);
    let half: Vec<u8> = bytes[..bytes.len() / 2].to_vec();

    let mut patient = Session::new();
    assert!(matches!(patient.accept_handshake(&half, 0, false, Vec::new()), Step::NeedMore));
    assert_eq!(patient.phase, Phase::AwaitingHandshake);

    let mut cut = Session::new();
    let step = cut.accept_handshake(&half, 0, true, Vec::new());
    assert!(matches!(step, Step::Failed(SessionError::HandshakeError)));
    assert_eq!(cut.phase, Phase::Closed);
}

#[test]
fn one_turn_is_one_proposal_and_one_answer() {
    let mut session = Session::new();
    let hello = encode_handshake_request(&ClientToServerHandshake { server_color: Color::White });
    assert!(matches!(session.accept_handshake(&hello, 0, false, Vec::new()), Step::Ready(..)));

    let m = proposal(4, 1, 4, 3);
    let wire = encode_client_record(&ClientToServer::Move(m));
    let got = match session.parse_proposal(&wire, 0, false) {
        Step::Ready(mv, n) => {
            assert_eq!(n, wire.len());
            mv
        },
        _ => panic!("proposal did not parse"),
    };
    assert_eq!(got, m);

    let verdict = EngineVerdict::Applied {
        tiles: opening_tiles(),
        next_moves: vec![proposal(4, 6, 4, 4)],
        checkmate: false,
    };
    let answer = session.answer_proposal(got, verdict);
    match decode_server_record(&answer, 0) {
        DecodeOutcome::Done(ServerToClient::State { board, moves, joever, move_made }, n) => {
            assert_eq!(n, answer.len());
            assert_eq!(board.at(4, 3), Piece::WhitePawn);
            assert_eq!(board.at(4, 1), Piece::Empty);
            assert_eq!(moves.len(), 1);
            assert_eq!(joever, Joever::Ongoing);
            assert_eq!(move_made, m);
        },
        _ => panic!("answer was not a state record"),
    }
}

#[test]
fn rejection_is_an_explicit_record_not_silence() {
    let mut session = Session::new();
    let hello = encode_handshake_request(&ClientToServerHandshake { server_color: Color::White });
    assert!(matches!(session.accept_handshake(&hello, 0, false, Vec::new()), Step::Ready(..)));
    let answer = session.answer_proposal(proposal(0, 0, 0, 5), EngineVerdict::Illegal);
    match decode_server_record(&answer, 0) {
        DecodeOutcome::Done(ServerToClient::Rejected, n) => {
            assert_eq!(n, answer.len());
        },
        _ => panic!("rejection must arrive as one explicit record"),
    }
}

#[test]
fn malformed_turn_record_closes_with_protocol_error() {
    let mut session = Session::new();
    let hello = encode_handshake_request(&ClientToServerHandshake { server_color: Color::White });
    assert!(matches!(session.accept_handshake(&hello, 0, false, Vec::new()), Step::Ready(..)));
    let junk: Vec<u8> = b"{\"Resign\":true}".to_vec();
    let step = session.parse_proposal(&junk, 0, false);
    assert!(matches!(step, Step::Failed(SessionError::ProtocolError)));
    assert_eq!(session.phase, Phase::Closed);
}

#[test]
fn records_sit_back_to_back_on_the_stream() {
    let mut session = Session::new();
    let hello = encode_handshake_request(&ClientToServerHandshake { server_color: Color::White });
    assert!(matches!(session.accept_handshake(&hello, 0, false, Vec::new()), Step::Ready(..)));

    let m1 = proposal(4, 1, 4, 3);
    let m2 = proposal(4, 6, 4, 4);
    let mut wire = encode_client_record(&ClientToServer::Move(m1));
    let first_len = wire.len();
    wire.extend(encode_client_record(&ClientToServer::Move(m2)));

    match session.parse_proposal(&wire, 0, false) {
        Step::Ready(mv, n) => {
            assert_eq!(mv, m1);
            assert_eq!(n, first_len);
            match session.parse_proposal(&wire, n, false) {
                Step::Ready(mv2, n2) => {
                    assert_eq!(mv2, m2);
                    assert_eq!(n2, wire.len());
                },
                _ => panic!("second record did not parse"),
            }
        },
        _ => panic!("first record did not parse"),
    }
}

#[test]
fn game_over_rejects_every_later_proposal() {
    let mut session = Session::new();
    let hello = encode_handshake_request(&ClientToServerHandshake { server_color: Color::White });
    assert!(matches!(session.accept_handshake(&hello, 0, false, Vec::new()), Step::Ready(..)));
    let verdict = EngineVerdict::Applied {
        tiles: opening_tiles(),
        next_moves: Vec::new(),
        checkmate: true,
    };
    let answer = session.answer_proposal(proposal(4, 1, 4, 3), verdict);
    match decode_server_record(&answer, 0) {
        DecodeOutcome::Done(ServerToClient::State { joever, .. }, _) => {
            assert_eq!(joever, Joever::White);
        },
        _ => panic!("mating move was not accepted"),
    }
    assert!(session.chess.game_over());
    let later = session.answer_proposal(
        proposal(4, 6, 4, 4),
        EngineVerdict::Applied {
            tiles: opening_tiles(),
            next_moves: Vec::new(),
            checkmate: false,
        },
    );
    assert!(matches!(
        decode_server_record(&later, 0),
        DecodeOutcome::Done(ServerToClient::Rejected, _)
    ));
}

#[test]
fn client_adopts_handshake_board() {
    let mut session = Session::new();
    let hello = encode_handshake_request(&ClientToServerHandshake { server_color: Color::Black });
    let out = match session.accept_handshake(&hello, 0, false, Vec::new()) {
        Step::Ready(out, _) => out,
        _ => panic!("handshake failed"),
    };
    let resp = match decode_handshake_response(&out, 0) {
        DecodeOutcome::Done(resp, _) => resp,
        _ => panic!("reply did not decode"),
    };
    let mut client = Chess::new();
    client.adopt_handshake(resp);
    assert_eq!(client.player_to_move(), Color::White);
    assert_eq!(client.get_board().at(1, 0), Piece::WhiteKnight);
    assert!(!client.game_over());
}
