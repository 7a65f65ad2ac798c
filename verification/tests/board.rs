use chess_board::board::{Board, Entry, PieceId};
use chess_board::layout::{initial_layout, parse_layout};
use chess_board::piece::{Piece, PieceType, Side};

fn piece(ty: PieceType, side: Side, index: u8) -> Piece {
    Piece { ty, side, index }
}

fn starting_board() -> Board {
    Board::new(initial_layout())
}

#[test]
fn a_new_board_names_the_pieces_in_order() {
    let pieces = initial_layout();
    let board = Board::new(pieces.clone());
    assert_eq!(board.len(), 32);
    let rows = board.entries();
    assert_eq!(rows.len(), 32);
    for (k, row) in rows.iter().enumerate() {
        assert_eq!(*row, Entry { id: PieceId(k), piece: pieces[k] });
    }
}

#[test]
fn an_empty_board_has_nothing_on_it() {
    let board = Board::new(vec![]);
    assert_eq!(board.len(), 0);
    assert_eq!(board.entries(), vec![]);
    for index in 0..=255u8 {
        assert_eq!(board.piece_at(index), None);
    }
    assert_eq!(board.get(PieceId(0)), None);
}

#[test]
fn piece_at_finds_the_piece_on_a_square() {
    let board = starting_board();
    assert_eq!(
        board.piece_at(4),
        Some(Entry { id: PieceId(4), piece: piece(PieceType::King, Side::Light, 4) })
    );
    assert_eq!(
        board.piece_at(60),
        Some(Entry { id: PieceId(28), piece: piece(PieceType::King, Side::Dark, 60) })
    );
    assert_eq!(
        board.piece_at(48),
        Some(Entry { id: PieceId(16), piece: piece(PieceType::Pawn, Side::Dark, 48) })
    );
}

#[test]
fn piece_at_finds_nothing_on_an_empty_square() {
    let board = starting_board();
    for index in 16..48u8 {
        assert_eq!(board.piece_at(index), None);
    }
    for index in 64..=255u8 {
        assert_eq!(board.piece_at(index), None);
    }
}

#[test]
fn piece_at_takes_the_first_row_on_a_shared_square() {
    let pieces = vec![
        piece(PieceType::Pawn, Side::Light, 3),
        piece(PieceType::Rook, Side::Dark, 5),
        piece(PieceType::Queen, Side::Light, 5),
    ];
    let board = Board::new(pieces);
    assert_eq!(
        board.piece_at(5),
        Some(Entry { id: PieceId(1), piece: piece(PieceType::Rook, Side::Dark, 5) })
    );
}

#[test]
fn get_finds_a_piece_by_its_identifier() {
    let board = starting_board();
    assert_eq!(
        board.get(PieceId(0)),
        Some(Entry { id: PieceId(0), piece: piece(PieceType::Rook, Side::Light, 0) })
    );
    assert_eq!(
        board.get(PieceId(31)),
        Some(Entry { id: PieceId(31), piece: piece(PieceType::Rook, Side::Dark, 63) })
    );
    assert_eq!(board.get(PieceId(32)), None);
    assert_eq!(board.get(PieceId(usize::MAX)), None);
}

#[test]
fn move_piece_changes_only_the_square_of_that_piece() {
    let mut board = starting_board();
    let before = board.entries();
    assert!(board.move_piece(PieceId(12), 28));
    let after = board.entries();
    assert_eq!(after.len(), before.len());
    for k in 0..before.len() {
        if k == 12 {
            assert_eq!(
                after[k],
                Entry { id: PieceId(12), piece: piece(PieceType::Pawn, Side::Light, 28) }
            );
        } else {
            assert_eq!(after[k], before[k]);
        }
    }
    assert_eq!(board.piece_at(12), None);
    assert_eq!(board.piece_at(28).map(|e| e.id), Some(PieceId(12)));
}

#[test]
fn move_piece_onto_an_occupied_square_overwrites_nothing() {
    let mut board = starting_board();
    assert!(board.move_piece(PieceId(12), 52));
    assert_eq!(board.len(), 32);
    // Both pieces now stand on square 52; the scan finds the earlier row.
    assert_eq!(board.piece_at(52).map(|e| e.id), Some(PieceId(12)));
    assert_eq!(board.get(PieceId(20)).map(|e| e.piece.index), Some(52));
}

#[test]
fn move_piece_without_the_piece_changes_nothing() {
    let mut board = starting_board();
    let before = board.entries();
    assert!(!board.move_piece(PieceId(99), 30));
    assert_eq!(board.entries(), before);
}

#[test]
fn remove_piece_takes_one_row_away() {
    let mut board = starting_board();
    let before = board.entries();
    assert!(board.remove_piece(PieceId(5)));
    let after = board.entries();
    assert_eq!(after.len(), 31);
    let mut expected = before.clone();
    expected.remove(5);
    assert_eq!(after, expected);
    assert_eq!(board.get(PieceId(5)), None);
    assert_eq!(board.piece_at(5), None);
    assert_eq!(board.get(PieceId(6)).map(|e| e.piece.index), Some(6));
}

#[test]
fn remove_piece_without_the_piece_changes_nothing() {
    let mut board = starting_board();
    assert!(board.remove_piece(PieceId(5)));
    let before = board.entries();
    assert!(!board.remove_piece(PieceId(5)));
    assert!(!board.remove_piece(PieceId(1000)));
    assert_eq!(board.entries(), before);
}

#[test]
fn identifiers_stay_with_their_pieces() {
    let mut board = Board::new(parse_layout("rnbq").unwrap());
    assert!(board.remove_piece(PieceId(1)));
    assert!(board.move_piece(PieceId(3), 40));
    assert_eq!(
        board.entries(),
        vec![
            Entry { id: PieceId(0), piece: piece(PieceType::Rook, Side::Light, 0) },
            Entry { id: PieceId(2), piece: piece(PieceType::Bishop, Side::Light, 2) },
            Entry { id: PieceId(3), piece: piece(PieceType::Queen, Side::Light, 40) },
        ]
    );
}
