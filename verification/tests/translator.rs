use chess_sync::protocol::{Color, Move, Piece};
use chess_sync::translate::{
    backend_board_to_network_board, backend_i_to_xy, backend_move_to_network_move,
    network_move_to_backend_move, piece_to_tile, tile_to_piece, Ply, Tile,
};

fn mv(sx: usize, sy: usize, ex: usize, ey: usize) -> Move {
    Move { start_x: sx, start_y: sy, end_x: ex, end_y: ey, promotion: Piece::Empty }
}

fn all_pieces() -> Vec<Piece> {
    vec![
        Piece::Empty,
        Piece::WhitePawn,
        Piece::WhiteKnight,
        Piece::WhiteBishop,
        Piece::WhiteRook,
        Piece::WhiteQueen,
        Piece::WhiteKing,
        Piece::BlackPawn,
        Piece::BlackKnight,
        Piece::BlackBishop,
        Piece::BlackRook,
        Piece::BlackQueen,
        Piece::BlackKing,
    ]
}

#[test]
fn index_to_coords_corners() {
    assert_eq!(backend_i_to_xy(21), (0, 0));
    assert_eq!(backend_i_to_xy(98), (7, 7));
    assert_eq!(backend_i_to_xy(55), (3, 4));
    assert_eq!(backend_i_to_xy(28), (0, 7));
    assert_eq!(backend_i_to_xy(91), (7, 0));
}

#[test]
fn wire_engine_round_trip_every_square() {
    for sx in 0..8 {
        for sy in 0..8 {
            for (ex, ey) in [(0usize, 0usize), (7, 7), (3, 5)] {
                let m = mv(sx, sy, ex, ey);
                let p = network_move_to_backend_move(&m);
                let back = backend_move_to_network_move(p);
                assert_eq!(back, m);
            }
        }
    }
}

#[test]
fn engine_wire_round_trip_every_square() {
    for oy in 0..8usize {
        for ox in 0..8usize {
            let origin = 21 + 10 * oy + ox;
            let p = Ply { origin, destination: 55 };
            let m = backend_move_to_network_move(p);
            let back = network_move_to_backend_move(&m);
            assert_eq!(back, p);
            assert_eq!(m.start_x, ox);
            assert_eq!(m.start_y, oy);
        }
    }
}

#[test]
fn opening_move_translates_to_expected_indices() {
    let m = mv(4, 1, 4, 3);
    let p = network_move_to_backend_move(&m);
    assert_eq!(p.origin, 35);
    assert_eq!(p.destination, 55);
}

#[test]
fn piece_tile_round_trip_all_thirteen() {
    for p in all_pieces() {
        assert_eq!(tile_to_piece(piece_to_tile(p)), p);
    }
}

#[test]
fn tile_piece_round_trip_all_thirteen() {
    let tiles = vec![
        Tile::Empty,
        Tile::Pawn(Color::White),
        Tile::Knight(Color::White),
        Tile::Bishop(Color::White),
        Tile::Rook(Color::White),
        Tile::Queen(Color::White),
        Tile::King(Color::White),
        Tile::Pawn(Color::Black),
        Tile::Knight(Color::Black),
        Tile::Bishop(Color::Black),
        Tile::Rook(Color::Black),
        Tile::Queen(Color::Black),
        Tile::King(Color::Black),
    ];
    for t in tiles {
        assert_eq!(piece_to_tile(tile_to_piece(t)), t);
    }
}

#[test]
fn black_tiles_keep_their_color_on_the_wire() {
    assert_eq!(tile_to_piece(Tile::Queen(Color::Black)), Piece::BlackQueen);
    assert_eq!(tile_to_piece(Tile::Pawn(Color::Black)), Piece::BlackPawn);
    assert_eq!(tile_to_piece(Tile::King(Color::Black)), Piece::BlackKing);
}

#[test]
fn board_translation_maps_each_cell() {
    let mut tiles = vec![vec![Tile::Empty; 8]; 8];
    tiles[5][2] = Tile::Knight(Color::Black);
    tiles[0][4] = Tile::King(Color::White);
    let b = backend_board_to_network_board(&tiles);
    assert_eq!(b.at(2, 5), Piece::BlackKnight);
    assert_eq!(b.at(4, 0), Piece::WhiteKing);
    assert_eq!(b.at(0, 0), Piece::Empty);
    assert_eq!(b.at(7, 7), Piece::Empty);
}
