use chess_sync::codec::{
    decode_client_record, decode_handshake_request, decode_server_record, encode_client_record,
    encode_handshake_request, encode_server_record, DecodeOutcome,
};
use chess_sync::protocol::{
    ClientToServer, ClientToServerHandshake, Color, Joever, Move, Piece, ServerToClient,
};
use chess_sync::session::{Chess, EngineVerdict};
use chess_sync::translate::Tile;

fn sample_move() -> Move {
    Move { start_x: 4, start_y: 1, end_x: 4, end_y: 3, promotion: Piece::Empty }
}

fn sample_state() -> ServerToClient {
    let mut grid = vec![vec![Tile::Empty; 8]; 8];
    grid[0][4] = Tile::King(Color::White);
    grid[7][4] = Tile::King(Color::Black);
    grid[3][4] = Tile::Pawn(Color::White);
    let mut chess = Chess::new();
    let verdict = EngineVerdict::Applied {
        tiles: grid,
        next_moves: vec![sample_move(), Move {
            start_x: 6,
            start_y: 7,
            end_x: 5,
            end_y: 5,
            promotion: Piece::Empty,
        }],
        checkmate: false,
    };
    chess.try_server_move(sample_move(), verdict)
}

#[test]
fn client_record_bytes_are_the_canonical_text() {
    let bytes = encode_client_record(&ClientToServer::Move(sample_move()));
    let text = String::from_utf8(bytes).unwrap();
    assert_eq!(
        text,
        "{\"Move\":{\"start_x\":4,\"start_y\":1,\"end_x\":4,\"end_y\":3,\"promotion\":\"None\"}}"
    );
}

#[test]
fn rejection_record_bytes_are_the_canonical_text() {
    let bytes = encode_server_record(&ServerToClient::Rejected);
    assert_eq!(String::from_utf8(bytes).unwrap(), "\"Rejected\"");
}

#[test]
fn handshake_request_bytes_are_the_canonical_text() {
    let bytes = encode_handshake_request(&ClientToServerHandshake { server_color: Color::Black });
    assert_eq!(String::from_utf8(bytes).unwrap(), "{\"server_color\":\"Black\"}");
}

#[test]
fn client_record_round_trips_through_the_codec() {
    let rec = ClientToServer::Move(sample_move());
    let bytes = encode_client_record(&rec);
    match decode_client_record(&bytes, 0) {
        DecodeOutcome::Done(ClientToServer::Move(m), n) => {
            assert_eq!(m, sample_move());
            assert_eq!(n, bytes.len());
        },
        _ => panic!("record did not round trip"),
    }
}

#[test]
fn state_record_round_trips_through_the_codec() {
    let rec = sample_state();
    let bytes = encode_server_record(&rec);
    match decode_server_record(&bytes, 0) {
        DecodeOutcome::Done(ServerToClient::State { board, moves, joever, move_made }, n) => {
            assert_eq!(n, bytes.len());
            assert_eq!(board.at(4, 3), Piece::WhitePawn);
            assert_eq!(board.at(4, 0), Piece::WhiteKing);
            assert_eq!(board.at(4, 7), Piece::BlackKing);
            assert_eq!(moves.len(), 2);
            assert_eq!(moves[1].end_y, 5);
            assert_eq!(joever, Joever::Ongoing);
            assert_eq!(move_made, sample_move());
        },
        _ => panic!("state record did not round trip"),
    }
}

#[test]
fn decoders_tell_truncation_from_garbage() {
    let bytes = encode_client_record(&ClientToServer::Move(sample_move()));
    let half: Vec<u8> = bytes[..bytes.len() - 3].to_vec();
    assert!(matches!(decode_client_record(&half, 0), DecodeOutcome::Incomplete));
    let junk: Vec<u8> = b"[1,2,3,4,5,6,7,8,9,10,11,12]".to_vec();
    assert!(matches!(decode_client_record(&junk, 0), DecodeOutcome::Malformed));
    assert!(matches!(decode_server_record(&junk, 0), DecodeOutcome::Malformed));
    assert!(matches!(decode_handshake_request(&junk, 0), DecodeOutcome::Malformed));
}

#[test]
fn unknown_variant_tags_are_malformed() {
    let junk: Vec<u8> = b"{\"Chat\":\"hi\"}".to_vec();
    assert!(matches!(decode_client_record(&junk, 0), DecodeOutcome::Malformed));
}

#[test]
fn coordinates_outside_the_board_do_not_decode() {
    let junk: Vec<u8> =
        b"{\"Move\":{\"start_x\":8,\"start_y\":1,\"end_x\":4,\"end_y\":3,\"promotion\":\"None\"}}"
            .to_vec();
    assert!(matches!(decode_client_record(&junk, 0), DecodeOutcome::Malformed));
}

#[test]
fn encoded_records_are_plain_json_to_serde() {
    let bytes = encode_server_record(&sample_state());
    let text = String::from_utf8(bytes).unwrap();
    let v: serde_json::Value = serde_json::from_str(&text).unwrap();
    assert_eq!(v["State"]["move_made"]["start_x"], 4);
    assert_eq!(v["State"]["move_made"]["promotion"], "None");
    assert_eq!(v["State"]["joever"], "Ongoing");
    assert_eq!(v["State"]["board"].as_array().unwrap().len(), 8);
    assert_eq!(v["State"]["board"][3][4], "WhitePawn");
    assert_eq!(v["State"]["moves"].as_array().unwrap().len(), 2);

    let hello = encode_handshake_request(&ClientToServerHandshake { server_color: Color::White });
    let hv: serde_json::Value =
        serde_json::from_str(&String::from_utf8(hello).unwrap()).unwrap();
    assert_eq!(hv["server_color"], "White");
}
