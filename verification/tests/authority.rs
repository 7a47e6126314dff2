use chess_sync::protocol::{Color, Joever, Move, Piece, ServerToClient};
use chess_sync::session::{Chess, EngineVerdict};
use chess_sync::translate::Tile;

fn wire_move(sx: usize, sy: usize, ex: usize, ey: usize) -> Move {
    Move { start_x: sx, start_y: sy, end_x: ex, end_y: ey, promotion: Piece::Empty }
}

fn home_tiles(c: Color) -> Vec<Tile> {
    vec![
        Tile::Rook(c),
        Tile::Knight(c),
        Tile::Bishop(c),
        Tile::Queen(c),
        Tile::King(c),
        Tile::Bishop(c),
        Tile::Knight(c),
        Tile::Rook(c),
    ]
}

fn start_tiles() -> Vec<Vec<Tile>> {
    let mut g = vec![vec![Tile::Empty; 8]; 8];
    g[0] = home_tiles(Color::White);
    g[1] = vec![Tile::Pawn(Color::White); 8];
    g[6] = vec![Tile::Pawn(Color::Black); 8];
    g[7] = home_tiles(Color::Black);
    g
}

fn apply_on(grid: &mut Vec<Vec<Tile>>, m: &Move) {
    let piece = grid[m.start_y][m.start_x];
    grid[m.start_y][m.start_x] = Tile::Empty;
    grid[m.end_y][m.end_x] = piece;
}

fn applied(grid: &Vec<Vec<Tile>>, checkmate: bool) -> EngineVerdict {
    EngineVerdict::Applied { tiles: grid.clone(), next_moves: Vec::new(), checkmate }
}

#[test]
fn new_game_has_standard_starting_position() {
    let c = Chess::new();
    let b = c.get_board();
    assert_eq!(b.at(0, 0), Piece::WhiteRook);
    assert_eq!(b.at(4, 0), Piece::WhiteKing);
    assert_eq!(b.at(3, 0), Piece::WhiteQueen);
    assert_eq!(b.at(6, 1), Piece::WhitePawn);
    assert_eq!(b.at(3, 7), Piece::BlackQueen);
    assert_eq!(b.at(2, 7), Piece::BlackBishop);
    assert_eq!(b.at(5, 6), Piece::BlackPawn);
    assert_eq!(b.at(4, 3), Piece::Empty);
    assert_eq!(c.player_to_move(), Color::White);
    assert!(!c.game_over());
}

#[test]
fn legal_opening_move_is_accepted_and_published() {
    let mut chess = Chess::new();
    let m = wire_move(4, 1, 4, 3);
    let mut grid = start_tiles();
    apply_on(&mut grid, &m);
    let r = chess.try_server_move(m, applied(&grid, false));
    match r {
        ServerToClient::State { board, moves, joever, move_made } => {
            assert_eq!(board.at(4, 1), Piece::Empty);
            assert_eq!(board.at(4, 3), Piece::WhitePawn);
            assert_eq!(board.at(4, 6), Piece::BlackPawn);
            assert_eq!(joever, Joever::Ongoing);
            assert_eq!(move_made, m);
            assert_eq!(moves.len(), 0);
        },
        ServerToClient::Rejected => panic!("legal move was rejected"),
    }
    assert_eq!(chess.player_to_move(), Color::Black);
    let b = chess.get_board();
    assert_eq!(b.at(4, 3), Piece::WhitePawn);
    assert!(!chess.game_over());
}

#[test]
fn illegal_move_is_rejected_and_changes_nothing() {
    let mut chess = Chess::new();
    // a rook sliding through its own pawn
    let m = wire_move(0, 0, 0, 5);
    let r = chess.try_server_move(m, EngineVerdict::Illegal);
    assert!(matches!(r, ServerToClient::Rejected));
    let fresh = Chess::new();
    let before = fresh.get_board();
    let after = chess.get_board();
    for y in 0..8 {
        for x in 0..8 {
            assert_eq!(after.at(x, y), before.at(x, y));
        }
    }
    assert_eq!(chess.player_to_move(), Color::White);
    assert!(!chess.game_over());
}

#[test]
fn fools_mate_fixes_the_outcome_for_good() {
    let mut chess = Chess::new();
    let mut grid = start_tiles();
    let script = [
        wire_move(5, 1, 5, 2),
        wire_move(4, 6, 4, 4),
        wire_move(6, 1, 6, 3),
        wire_move(3, 7, 7, 3),
    ];
    for (i, m) in script.iter().enumerate() {
        let last = i == script.len() - 1;
        apply_on(&mut grid, m);
        assert!(!chess.game_over());
        let r = chess.try_server_move(*m, applied(&grid, last));
        match r {
            ServerToClient::State { joever, .. } => {
                if last {
                    assert_eq!(joever, Joever::Black);
                } else {
                    assert_eq!(joever, Joever::Ongoing);
                }
            },
            ServerToClient::Rejected => panic!("scripted move was rejected"),
        }
    }
    assert!(chess.game_over());
    // after the mate every proposal is rejected unconditionally, and the
    // outcome never flips back
    let late = wire_move(0, 1, 0, 2);
    let r = chess.try_server_move(late, applied(&grid, false));
    assert!(matches!(r, ServerToClient::Rejected));
    assert!(chess.game_over());
    let b = chess.get_board();
    assert_eq!(b.at(7, 3), Piece::BlackQueen);
}

#[test]
fn client_updates_cache_only_on_state_records() {
    let mut server = Chess::new();
    let mut client = Chess::new();
    let m = wire_move(4, 1, 4, 3);
    let mut grid = start_tiles();
    apply_on(&mut grid, &m);
    let state = server.try_server_move(m, applied(&grid, false));
    client.try_client_move(state);
    assert_eq!(client.get_board().at(4, 3), Piece::WhitePawn);
    assert_eq!(client.player_to_move(), Color::Black);
    // a rejection leaves the cache alone
    let bad = server.try_server_move(wire_move(0, 0, 0, 5), EngineVerdict::Illegal);
    client.try_client_move(bad);
    assert_eq!(client.get_board().at(4, 3), Piece::WhitePawn);
    assert_eq!(client.player_to_move(), Color::Black);
}
