use diagram_editor::canvas::cursor::{step, Cursor};
use diagram_editor::util::coord::{saturate_i16, Coord};
use diagram_editor::util::{Direction, Size};

#[test]
fn opposite_turns_around() {
    assert_eq!(Direction::Up.opposite(), Direction::Down);
    assert_eq!(Direction::Down.opposite(), Direction::Up);
    assert_eq!(Direction::Left.opposite(), Direction::Right);
    assert_eq!(Direction::Right.opposite(), Direction::Left);
    for d in [Direction::Up, Direction::Down, Direction::Left, Direction::Right] {
        assert_eq!(d.opposite().opposite(), d);
    }
}

#[test]
fn adjacency_moves_one_cell() {
    let c = Coord::new(3, 5);
    assert_eq!(c.adjacency(Direction::Up), Coord::new(3, 4));
    assert_eq!(c.adjacency(Direction::Down), Coord::new(3, 6));
    assert_eq!(c.adjacency(Direction::Left), Coord::new(2, 5));
    assert_eq!(c.adjacency(Direction::Right), Coord::new(4, 5));
    assert_eq!(Coord::new(0, 0).adjacency(Direction::Up), Coord::new(0, -1));
}

#[test]
fn coordinates_saturate_at_the_bounds() {
    let low = Coord::new(i16::MIN, i16::MIN);
    let high = Coord::new(i16::MAX, i16::MAX);
    assert_eq!(low.adjacency(Direction::Up), low);
    assert_eq!(low.adjacency(Direction::Left), low);
    assert_eq!(high.adjacency(Direction::Down), high);
    assert_eq!(high.adjacency(Direction::Right), high);
    assert_eq!(high.offset(low), high);
    assert_eq!(low.offset(high), low);
    assert_eq!(high.plus(high), high);
    assert_eq!(low.negated(), high);
    assert_eq!(saturate_i16(40000), i16::MAX);
    assert_eq!(saturate_i16(-40000), i16::MIN);
    assert_eq!(saturate_i16(-7), -7);
}

#[test]
fn offset_plus_and_minus() {
    let a = Coord::new(10, -4);
    let b = Coord::new(3, 6);
    assert_eq!(a.offset(b), Coord::new(7, -10));
    assert_eq!(a.minus(b), Coord::new(7, -10));
    assert_eq!(a.plus(b), Coord::new(13, 2));
    assert_eq!(a.negated(), Coord::new(-10, 4));
    assert_eq!(Coord::default(), Coord::new(0, 0));
    assert_eq!(Size::default(), Size::new(0, 0));
}

#[test]
fn cursor_stops_at_the_origin() {
    let mut cursor = Cursor::default();
    assert_eq!(cursor.coord(), Coord::new(0, 0));
    cursor.move_next(Direction::Up);
    cursor.move_next(Direction::Left);
    assert_eq!(cursor.coord(), Coord::new(0, 0));
    cursor.move_next(Direction::Right);
    cursor.move_next(Direction::Down);
    cursor.move_next(Direction::Down);
    assert_eq!((cursor.x(), cursor.y()), (1, 2));
    cursor.move_next(Direction::Left);
    cursor.move_next(Direction::Left);
    cursor.move_next(Direction::Up);
    assert_eq!(cursor.coord(), Coord::new(0, 1));
}

#[test]
fn cursor_never_goes_negative() {
    // a fixed, long walk that leans up and left
    let moves = [Direction::Up, Direction::Left, Direction::Left, Direction::Down, Direction::Up,
        Direction::Up, Direction::Right, Direction::Left, Direction::Left, Direction::Up];
    let mut cursor = Cursor::new(2, 1);
    for round in 0..50 {
        for (i, d) in moves.iter().enumerate() {
            if (round + i) % 7 != 0 {
                cursor.move_next(*d);
            }
            assert!(cursor.x() >= 0 && cursor.y() >= 0);
        }
    }
}

#[test]
fn cursor_stops_at_the_largest_coordinate() {
    let mut cursor = Cursor::new(i16::MAX, i16::MAX);
    cursor.move_next(Direction::Right);
    cursor.move_next(Direction::Down);
    assert_eq!(cursor.coord(), Coord::new(i16::MAX, i16::MAX));
    cursor.move_to(Coord::new(7, 9));
    assert_eq!(cursor.coord(), Coord::new(7, 9));
    assert_eq!(step(Coord::new(-3, -3), Direction::Up), Coord::new(-3, -3));
    assert_eq!(step(Coord::new(-3, -3), Direction::Down), Coord::new(-3, -2));
}
