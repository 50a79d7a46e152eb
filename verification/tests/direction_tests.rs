use snake_core::direction::Direction;

const ALL: [Direction; 4] = [Direction::Up, Direction::Right, Direction::Down, Direction::Left];

#[test]
fn cw_walks_the_compass() {
    assert_eq!(Direction::Up.cw(), Direction::Right);
    assert_eq!(Direction::Right.cw(), Direction::Down);
    assert_eq!(Direction::Down.cw(), Direction::Left);
    assert_eq!(Direction::Left.cw(), Direction::Up);
}

#[test]
fn ccw_walks_the_compass_backwards() {
    assert_eq!(Direction::Up.ccw(), Direction::Left);
    assert_eq!(Direction::Left.ccw(), Direction::Down);
    assert_eq!(Direction::Down.ccw(), Direction::Right);
    assert_eq!(Direction::Right.ccw(), Direction::Up);
}

#[test]
fn cw_then_ccw_is_identity() {
    for d in ALL {
        assert_eq!(d.cw().ccw(), d);
        assert_eq!(d.ccw().cw(), d);
    }
}

#[test]
fn two_quarter_turns_give_the_opposite() {
    for d in ALL {
        assert!(d.is_opposite(d.cw().cw()));
        assert!(d.cw().cw().is_opposite(d));
    }
}

#[test]
fn is_opposite_table() {
    for (i, a) in ALL.iter().enumerate() {
        for (j, b) in ALL.iter().enumerate() {
            let expected = (i + 4 - j) % 4 == 2;
            assert_eq!(a.is_opposite(*b), expected, "{:?} vs {:?}", a, b);
        }
    }
    assert!(Direction::Up.is_opposite(Direction::Down));
    assert!(Direction::Left.is_opposite(Direction::Right));
    assert!(!Direction::Up.is_opposite(Direction::Up));
    assert!(!Direction::Up.is_opposite(Direction::Left));
}

#[test]
fn numbers_wrap_modulo_four() {
    assert_eq!(Direction::from(0u32), Direction::Up);
    assert_eq!(Direction::from(1u32), Direction::Right);
    assert_eq!(Direction::from(2u32), Direction::Down);
    assert_eq!(Direction::from(3u32), Direction::Left);
    assert_eq!(Direction::from(7u32), Direction::Left);
    assert_eq!(Direction::from(u32::MAX), Direction::Left);
    for (i, d) in ALL.iter().enumerate() {
        assert_eq!(u32::from(*d), i as u32);
        assert_eq!(Direction::from(u32::from(*d)), *d);
    }
}
