use rabbit::motion::{Position, NANOCELLS};

#[test]
fn nanocells_per_cell() {
    assert_eq!(NANOCELLS, 1_000_000_000);
}

#[test]
fn position_starts_in_its_cell() {
    for cell in [(0, 0), (3, -4), (i16::MAX, i16::MIN), (i16::MIN, i16::MAX)] {
        assert_eq!(Position::at_cell(cell).cell(), cell);
    }
}

#[test]
fn position_moves_by_velocity_times_time() {
    let start = Position::at_cell((10, 10));
    assert_eq!(start.moved((2, -3), 1_000_000_000).cell(), (12, 7));
    assert_eq!(start.moved((2, -3), 250_000_000).cell(), (10, 9));
    assert_eq!(start.moved((2, -3), 500_000_000).cell(), (11, 8));
}

#[test]
fn position_does_not_move_in_no_time_or_at_no_velocity() {
    let start = Position::at_cell((5, -5)).moved((1, 1), 123_456_789);
    assert_eq!(start.moved((7, -7), 0), start);
    assert_eq!(start.moved((0, 0), u128::MAX), start);
}

#[test]
fn position_adds_up_small_steps_without_drift() {
    let mut stepwise = Position::at_cell((0, 0));
    for _ in 0..3_000 {
        stepwise = stepwise.moved((1, -1), 333_333);
    }
    let at_once = Position::at_cell((0, 0)).moved((1, -1), 3_000 * 333_333);
    assert_eq!(stepwise, at_once);
    assert_eq!(stepwise.cell(), (0, 0));
    let next = stepwise.moved((1, -1), 1_000);
    assert_eq!(next.cell(), (1, -1));
}

#[test]
fn position_cell_rounds_towards_zero() {
    let start = Position::at_cell((0, 0));
    assert_eq!(start.moved((1, -1), 999_999_999).cell(), (0, 0));
    assert_eq!(start.moved((1, -1), 1_000_000_000).cell(), (1, -1));
    assert_eq!(start.moved((1, -1), 1_999_999_999).cell(), (1, -1));
}

#[test]
fn position_cell_stops_at_the_last_cell() {
    let start = Position::at_cell((0, 0));
    assert_eq!(start.moved((1, -1), 32_767_000_000_000).cell(), (32_767, -32_767));
    assert_eq!(start.moved((1, -1), 32_768_000_000_000).cell(), (32_767, -32_768));
    assert_eq!(start.moved((1, -1), 32_769_000_000_000).cell(), (32_767, -32_768));
}

#[test]
fn position_stops_at_the_last_nanocell() {
    let start = Position::at_cell((0, 0));
    let far = start.moved((i16::MAX, i16::MIN), u128::MAX);
    assert_eq!(far.cell(), (i16::MAX, i16::MIN));
    assert_eq!(far.moved((1, -1), u128::MAX), far);
    let last = start.moved((1, 0), i128::MAX as u128);
    assert_eq!(last.moved((1, 0), 1), last);
    assert_eq!(start.moved((1, 0), i128::MAX as u128 + 1), last);
    assert_eq!(last.moved((-1, 0), i128::MAX as u128), start);
    assert_ne!(start.moved((1, 0), i128::MAX as u128 - 1), last);
}

#[test]
fn position_moves_back_from_the_first_nanocell() {
    let start = Position::at_cell((0, 0));
    let first = start.moved((-2, 0), u128::MAX);
    let step = first.moved((1, 0), 5_000_000_000);
    assert_ne!(step, first);
    assert_eq!(step.moved((-1, 0), 5_000_000_000), first);
    assert_eq!(step.cell(), (i16::MIN, 0));
}
