use snake_core::latch::{Input, Latch};

#[test]
fn new_latch_is_up() {
    let l = Latch::new();
    assert!(!l.prev);
    assert!(!l.curr);
    assert!(!l.front_edge());
}

#[test]
fn front_edge_only_on_the_tick_of_the_press() {
    let samples = [false, true, true, true, false, false, true, false, true, true];
    let expected = [false, true, false, false, false, false, true, false, true, false];
    let mut l = Latch::new();
    for (s, e) in samples.iter().zip(expected.iter()) {
        l.set(*s);
        assert_eq!(l.front_edge(), *e);
        assert_eq!(l.front_edge(), *e);
        l.tick();
    }
}

#[test]
fn last_set_within_a_tick_wins() {
    let mut l = Latch::new();
    l.set(true);
    l.set(false);
    assert!(!l.front_edge());
    l.set(false);
    l.set(true);
    assert!(l.front_edge());
    l.tick();
    assert_eq!(l, Latch { prev: true, curr: true });
    assert!(!l.front_edge());
}

#[test]
fn held_button_gives_one_edge() {
    let mut l = Latch::new();
    let mut edges: u32 = 0;
    for _ in 0..100 {
        l.set(true);
        if l.front_edge() {
            edges += 1;
        }
        l.tick();
    }
    assert_eq!(edges, 1);
}

#[test]
fn input_ticks_every_latch() {
    let mut input = Input::new();
    assert_eq!(input.key_escape, Latch { prev: false, curr: false });
    input.key_escape.set(true);
    input.key_enter.set(true);
    input.key_up.set(true);
    input.key_left.set(true);
    input.key_down.set(true);
    input.key_right.set(true);
    assert!(input.key_escape.front_edge());
    assert!(input.key_right.front_edge());
    input.tick();
    let held = Latch { prev: true, curr: true };
    assert_eq!(input.key_escape, held);
    assert_eq!(input.key_enter, held);
    assert_eq!(input.key_up, held);
    assert_eq!(input.key_left, held);
    assert_eq!(input.key_down, held);
    assert_eq!(input.key_right, held);
}
