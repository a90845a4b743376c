use hwl::tape::Tape;

#[test]
fn new_tape_is_blank() {
    let tape = Tape::new(10);
    assert_eq!(tape.len(), 10);
    assert_eq!(tape.pointer(), 0);
    assert_eq!(tape.read(), 0);
    for index in 0..10 {
        assert_eq!(tape.cell(index), Some(0));
    }
    assert_eq!(tape.cell(10), None);
}

#[test]
fn increment_wraps_from_255_to_0() {
    let mut tape = Tape::new(1);
    for expected in 1..=255u8 {
        tape.increment();
        assert_eq!(tape.read(), expected);
    }
    tape.increment();
    assert_eq!(tape.read(), 0);
}

#[test]
fn decrement_wraps_from_0_to_255() {
    let mut tape = Tape::new(1);
    tape.decrement();
    assert_eq!(tape.read(), 255);
    tape.decrement();
    assert_eq!(tape.read(), 254);
}

#[test]
fn decrement_undoes_increment() {
    let mut tape = Tape::new(2);
    tape.decrement();
    tape.increment();
    assert_eq!(tape.read(), 0);
    tape.increment();
    tape.decrement();
    assert_eq!(tape.read(), 0);
}

#[test]
fn reset_clears_the_selected_cell_only() {
    let mut tape = Tape::new(3);
    tape.increment();
    tape.move_right();
    tape.increment();
    tape.increment();
    tape.reset();
    assert_eq!(tape.cell(0), Some(1));
    assert_eq!(tape.cell(1), Some(0));
    assert_eq!(tape.cell(2), Some(0));
    assert_eq!(tape.pointer(), 1);
}

#[test]
fn move_right_wraps_from_the_last_cell() {
    let mut tape = Tape::new(10);
    for expected in 1..10 {
        tape.move_right();
        assert_eq!(tape.pointer(), expected);
    }
    tape.move_right();
    assert_eq!(tape.pointer(), 0);
}

#[test]
fn move_left_wraps_from_the_first_cell() {
    let mut tape = Tape::new(10);
    tape.move_left();
    assert_eq!(tape.pointer(), 9);
    tape.move_left();
    assert_eq!(tape.pointer(), 8);
    let mut tape = Tape::new(1000);
    tape.move_left();
    assert_eq!(tape.pointer(), 999);
}

#[test]
fn a_full_circle_returns_the_pointer() {
    for len in [1usize, 2, 10, 1000] {
        for start in [0, len / 2, len - 1] {
            let mut tape = Tape::new(len);
            for _ in 0..start {
                tape.move_right();
            }
            assert_eq!(tape.pointer(), start);
            for _ in 0..len {
                tape.move_right();
                assert!(tape.pointer() < len);
            }
            assert_eq!(tape.pointer(), start);
            for _ in 0..len {
                tape.move_left();
                assert!(tape.pointer() < len);
            }
            assert_eq!(tape.pointer(), start);
        }
    }
}

#[test]
fn one_cell_tape_keeps_its_pointer() {
    let mut tape = Tape::new(1);
    tape.move_right();
    assert_eq!(tape.pointer(), 0);
    tape.move_left();
    assert_eq!(tape.pointer(), 0);
}

#[test]
fn moves_do_not_touch_the_cells() {
    let mut tape = Tape::new(3);
    tape.increment();
    tape.move_left();
    tape.decrement();
    tape.move_right();
    tape.move_right();
    assert_eq!(tape.pointer(), 1);
    assert_eq!(tape.cell(0), Some(1));
    assert_eq!(tape.cell(1), Some(0));
    assert_eq!(tape.cell(2), Some(255));
}
