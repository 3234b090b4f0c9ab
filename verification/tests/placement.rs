use goban::goban::Goban;
use goban::stones::{Color, Coord, GobanError, Stone};
use goban::zobrist::ZobristTable;

fn stone(row: usize, column: usize, color: Color) -> Stone {
    Stone { coordinates: (row, column), color }
}

/// The hash of the grid, from the stones that the board reports and a table
/// of the board's size.
fn hash_from_stones(g: &Goban) -> u64 {
    let table = ZobristTable::new(*g.size());
    let mut hash = 0u64;
    for s in g.get_stones() {
        hash ^= table.key(s.coordinates, s.color);
    }
    hash
}

fn assert_bits_follow_grid(g: &Goban) {
    let cells = *g.size() * *g.size();
    assert_eq!(g.tab().len(), cells);
    assert_eq!(g.b_stones().len(), cells);
    assert_eq!(g.w_stones().len(), cells);
    for i in 0..cells {
        let empty = g.tab()[i] == Color::Empty;
        let black = g.b_stones()[i];
        let white = g.w_stones()[i];
        let holding = [empty, black, white].iter().filter(|b| **b).count();
        assert_eq!(holding, 1, "intersection {}", i);
        assert_eq!(black, g.tab()[i] == Color::Black);
        assert_eq!(white, g.tab()[i] == Color::White);
    }
}

#[test]
fn new_board_is_empty_with_hash_zero() {
    for size in [0usize, 1, 2, 5, 9, 19] {
        let g = Goban::new(size);
        assert_eq!(*g.size(), size);
        assert_eq!(*g.hash(), 0);
        assert_eq!(g.compute_hash(), 0);
        assert_eq!(g.get_stones().len(), 0);
        assert_eq!(g.tab().len(), size * size);
        assert!(g.tab().iter().all(|c| *c == Color::Empty));
        assert!(g.b_stones().iter().all(|b| !*b));
        assert!(g.w_stones().iter().all(|b| !*b));
        assert_eq!(g.get_stones_by_color(Color::Empty).len(), size * size);
        assert_eq!(g.get_stones_by_color(Color::Black).len(), 0);
        assert_eq!(g.get_stones_by_color(Color::White).len(), 0);
    }
}

#[test]
fn default_board_has_nineteen_rows() {
    let g = Goban::default();
    assert_eq!(*g.size(), 19);
    assert_eq!(*g.hash(), 0);
    assert_eq!(g.tab().len(), 361);
}

#[test]
fn push_writes_grid_bits_and_hash() {
    let mut g = Goban::new(5);
    let table = ZobristTable::new(5);
    g.push((2, 2), Color::Black).unwrap();
    assert_eq!(g.color_at((2, 2)), Color::Black);
    assert_eq!(g.tab()[12], Color::Black);
    assert!(g.b_stones()[12]);
    assert!(!g.w_stones()[12]);
    assert_eq!(*g.hash(), table.key((2, 2), Color::Black));
    g.push((2, 3), Color::White).unwrap();
    assert_eq!(g.tab()[13], Color::White);
    assert!(g.w_stones()[13]);
    assert!(!g.b_stones()[13]);
    assert_eq!(
        *g.hash(),
        table.key((2, 2), Color::Black) ^ table.key((2, 3), Color::White)
    );
    assert_bits_follow_grid(&g);
}

#[test]
fn push_returns_the_board_for_chaining() {
    let mut g = Goban::new(5);
    g.push((0, 0), Color::Black)
        .unwrap()
        .push((0, 1), Color::White)
        .unwrap()
        .push((4, 4), Color::Black)
        .unwrap();
    assert_eq!(
        g.get_stones(),
        vec![
            stone(0, 0, Color::Black),
            stone(0, 1, Color::White),
            stone(4, 4, Color::Black)
        ]
    );
}

#[test]
fn hash_follows_the_grid_after_each_push() {
    let mut g = Goban::new(9);
    let moves: Vec<(Coord, Color)> = vec![
        ((0, 0), Color::Black),
        ((8, 8), Color::White),
        ((4, 4), Color::Black),
        ((4, 5), Color::White),
        ((4, 4), Color::Empty),
        ((4, 4), Color::White),
        ((0, 0), Color::Empty),
        ((0, 0), Color::Empty),
        ((3, 7), Color::Empty),
        ((7, 3), Color::Black),
        ((8, 8), Color::Empty),
        ((8, 8), Color::Black),
    ];
    for (coord, color) in moves {
        g.push(coord, color).unwrap();
        assert_eq!(*g.hash(), g.compute_hash());
        assert_eq!(*g.hash(), hash_from_stones(&g));
        assert_bits_follow_grid(&g);
    }
    assert_ne!(*g.hash(), 0);
}

#[test]
fn overwriting_a_stone_lets_the_hash_drift() {
    let table = ZobristTable::new(5);
    let black = table.key((1, 1), Color::Black);
    let white = table.key((1, 1), Color::White);

    let mut g = Goban::new(5);
    g.push((1, 1), Color::Black).unwrap();
    g.push((1, 1), Color::White).unwrap();
    assert_eq!(g.color_at((1, 1)), Color::White);
    assert_eq!(*g.hash(), black ^ white);
    assert_eq!(g.compute_hash(), white);
    assert_ne!(*g.hash(), g.compute_hash());
    assert_eq!(*g.hash(), g.compute_hash() ^ black);
    assert_bits_follow_grid(&g);

    let mut twice = Goban::new(5);
    twice.push((1, 1), Color::Black).unwrap();
    twice.push((1, 1), Color::Black).unwrap();
    assert_eq!(*twice.hash(), 0);
    assert_eq!(twice.compute_hash(), black);
    assert_bits_follow_grid(&twice);
}

#[test]
fn clearing_an_empty_intersection_changes_nothing() {
    let mut g = Goban::new(5);
    g.push((3, 3), Color::White).unwrap();
    let hash = *g.hash();
    let grid = g.tab().clone();
    g.push((0, 4), Color::Empty).unwrap();
    assert_eq!(*g.hash(), hash);
    assert_eq!(*g.tab(), grid);
    assert_bits_follow_grid(&g);
}

#[test]
fn push_out_of_bounds_is_refused_and_changes_nothing() {
    let mut g = Goban::new(5);
    g.push((2, 2), Color::Black).unwrap();
    g.push((0, 4), Color::White).unwrap();
    let grid = g.tab().clone();
    let black = g.b_stones().clone();
    let white = g.w_stones().clone();
    let hash = *g.hash();
    for coord in [(5usize, 0usize), (0, 5), (5, 5), (usize::MAX, 0), (0, usize::MAX), (7, 2)] {
        for color in [Color::Black, Color::White, Color::Empty] {
            let result = g.push(coord, color);
            assert!(matches!(result, Err(GobanError::OutOfBounds(c)) if c == coord));
            assert_eq!(*g.tab(), grid);
            assert_eq!(*g.b_stones(), black);
            assert_eq!(*g.w_stones(), white);
            assert_eq!(*g.hash(), hash);
            assert_eq!(*g.size(), 5);
        }
    }
    let refused = g.push_stone(stone(9, 9, Color::Black)).err();
    assert_eq!(refused, Some(GobanError::OutOfBounds((9, 9))));
}

#[test]
fn push_on_the_last_intersection_is_accepted() {
    let mut g = Goban::new(5);
    assert!(g.push((4, 4), Color::Black).is_ok());
    assert_eq!(g.tab()[24], Color::Black);
    assert!(g.push((4, 5), Color::Black).is_err());
}

#[test]
fn placing_then_clearing_restores_the_board() {
    for color in [Color::Black, Color::White] {
        let mut g = Goban::new(5);
        g.push((1, 3), Color::White).unwrap();
        g.push((3, 1), Color::Black).unwrap();
        let grid = g.tab().clone();
        let black = g.b_stones().clone();
        let white = g.w_stones().clone();
        let hash = *g.hash();
        g.push((2, 2), color).unwrap();
        assert_ne!(*g.hash(), hash);
        g.push((2, 2), Color::Empty).unwrap();
        assert_eq!(*g.tab(), grid);
        assert_eq!(*g.b_stones(), black);
        assert_eq!(*g.w_stones(), white);
        assert_eq!(*g.hash(), hash);
    }
}

#[test]
fn push_stone_places_like_push() {
    let mut a = Goban::new(5);
    let mut b = Goban::new(5);
    a.push((1, 2), Color::White).unwrap();
    b.push_stone(stone(1, 2, Color::White)).unwrap();
    assert_eq!(a.tab(), b.tab());
    assert_eq!(a.hash(), b.hash());
    assert_eq!(a.w_stones(), b.w_stones());
}

#[test]
fn push_many_places_each_in_order() {
    let mut g = Goban::new(5);
    g.push_many(&[(0, 0), (1, 1), (2, 2), (4, 0)], Color::Black);
    assert_eq!(
        g.get_stones(),
        vec![
            stone(0, 0, Color::Black),
            stone(1, 1, Color::Black),
            stone(2, 2, Color::Black),
            stone(4, 0, Color::Black)
        ]
    );
    assert_eq!(*g.hash(), g.compute_hash());
    let mut one_by_one = Goban::new(5);
    for c in [(0usize, 0usize), (1, 1), (2, 2), (4, 0)] {
        one_by_one.push(c, Color::Black).unwrap();
    }
    assert_eq!(g.hash(), one_by_one.hash());
    g.push_many(&[(1, 1), (4, 0)], Color::Empty);
    assert_eq!(
        g.get_stones(),
        vec![stone(0, 0, Color::Black), stone(2, 2, Color::Black)]
    );
    assert_eq!(*g.hash(), g.compute_hash());
    g.push_many(&[], Color::White);
    assert_eq!(g.get_stones().len(), 2);
}

#[test]
fn boards_compare_by_hash() {
    let mut a = Goban::new(5);
    let mut b = Goban::new(5);
    assert!(a == b);
    a.push((1, 1), Color::Black).unwrap();
    assert!(a != b);
    b.push((1, 1), Color::Black).unwrap();
    assert!(a == b);
    b.push((1, 1), Color::Empty).unwrap();
    b.push((1, 1), Color::White).unwrap();
    assert!(a != b);
    let empty_small = Goban::new(3);
    let empty_large = Goban::new(9);
    assert!(empty_small == empty_large);
}

#[test]
fn clone_is_a_board_of_its_own() {
    let mut g = Goban::new(5);
    g.push((2, 2), Color::Black).unwrap();
    let kept = g.clone();
    g.push((0, 0), Color::White).unwrap();
    assert_eq!(kept.get_stones(), vec![stone(2, 2, Color::Black)]);
    assert_eq!(*kept.size(), 5);
    assert_eq!(*kept.hash(), ZobristTable::new(5).key((2, 2), Color::Black));
    assert_eq!(g.get_stones().len(), 2);
    let mut again = kept.clone();
    again.push((2, 2), Color::Empty).unwrap();
    assert_eq!(*again.hash(), 0);
}

#[test]
fn board_with_given_keys_hashes_with_them() {
    let keys: Vec<u64> = vec![1, 2, 4, 8, 16, 32, 64, 128];
    let table = ZobristTable::from_keys(2, keys).unwrap();
    let mut g = Goban::with_zobrist(table);
    assert_eq!(*g.size(), 2);
    g.push((1, 0), Color::White).unwrap();
    assert_eq!(*g.hash(), 32);
    g.push((0, 1), Color::Black).unwrap();
    assert_eq!(*g.hash(), 32 ^ 4);
    g.push((1, 1), Color::Black).unwrap();
    assert_eq!(*g.hash(), 32 ^ 4 ^ 64);
    assert_eq!(g.compute_hash(), 100);
    g.push((1, 0), Color::Empty).unwrap();
    assert_eq!(*g.hash(), 68);
    g.push((1, 1), Color::White).unwrap();
    assert_eq!(*g.hash(), 68 ^ 128);
    assert_eq!(g.compute_hash(), 4 ^ 128);
}
