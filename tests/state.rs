use ble::state::State;

fn read_all(s: &mut State) -> Vec<bool> {
    (0..16).map(|_| s.next()).collect()
}

#[test]
fn default_state_reads_released_buttons() {
    let mut s = State::default();
    assert_eq!(s.cycle(), 0);
    assert_eq!(read_all(&mut s), vec![true; 16]);
    assert_eq!(s.cycle(), 0);
}

#[test]
fn pressed_buttons_read_low_in_order() {
    let mut s = State::default();
    s.set_b(false);
    s.set_start(false);
    s.set_r(false);
    let mut expected = vec![true; 16];
    expected[0] = false;
    expected[3] = false;
    expected[11] = false;
    assert_eq!(read_all(&mut s), expected);
    s.set_start(true);
    expected[3] = true;
    assert_eq!(read_all(&mut s), expected);
}

#[test]
fn every_button_has_its_bit() {
    let setters: Vec<fn(&mut State, bool)> = vec![
        State::set_b,
        State::set_y,
        State::set_select,
        State::set_start,
        State::set_up,
        State::set_down,
        State::set_left,
        State::set_right,
        State::set_a,
        State::set_x,
        State::set_l,
        State::set_r,
    ];
    for (i, set) in setters.iter().enumerate() {
        let mut s = State::default();
        set(&mut s, false);
        let bits = read_all(&mut s);
        for (j, b) in bits.iter().enumerate() {
            assert_eq!(*b, j != i, "button {} bit {}", i, j);
        }
    }
}

#[test]
fn cycle_advances_and_resets() {
    let mut s = State::default();
    s.next();
    s.next();
    s.next();
    assert_eq!(s.cycle(), 3);
    s.set_a(false);
    assert_eq!(s.cycle(), 3);
    s.reset_cycle();
    assert_eq!(s.cycle(), 0);
    let bits = read_all(&mut s);
    assert!(!bits[8]);
}
