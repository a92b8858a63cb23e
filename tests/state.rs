use eight_puzzle::state::{immediate_neighbours, State, BLANK};

#[test]
fn states_allow_no_duplicates() {
    let state = State::new([
        [1, 2, 3],
        [1, 4, 5],
        [BLANK, 6, 7],
    ]);
    assert!(state.is_none());
}

#[test]
fn states_validate_the_values() {
    let state = State::new([
        [1, 2, 10],
        [1, 4, 5],
        [BLANK, 6, 7],
    ]);
    assert!(state.is_none());
}

#[test]
fn valid_state_is_some() {
    let state = State::new([
        [1, 2, 3],
        [4, 8, 5],
        [BLANK, 6, 7],
    ]);
    assert!(state.is_some());
}

#[test]
fn state_move_up_and_right_valid() {
    let state = State::new([
        [1, 2, 3],
        [4, 8, 5],
        [BLANK, 6, 7],
    ])
    .unwrap();

    assert_eq!(
        state.move_up().unwrap(),
        State::new([
            [1, 2, 3],
            [BLANK, 8, 5],
            [4, 6, 7],
        ])
        .unwrap()
    );

    assert_eq!(
        state.move_right().unwrap(),
        State::new([
            [1, 2, 3],
            [4, 8, 5],
            [6, BLANK, 7],
        ])
        .unwrap()
    );
}

#[test]
fn state_move_up_and_right_invalid() {
    let state = State::new([
        [1, 2, BLANK],
        [4, 8, 5],
        [3, 6, 7],
    ])
    .unwrap();

    assert!(state.move_up().is_none());
    assert!(state.move_right().is_none());
}

#[test]
fn state_move_down_and_left_invalid() {
    let state = State::new([
        [1, 2, 3],
        [4, 8, 5],
        [BLANK, 6, 7],
    ])
    .unwrap();

    assert!(state.move_down().is_none());
    assert!(state.move_left().is_none());
}

#[test]
fn state_move_down_and_left_valid() {
    let state = State::new([
        [1, 2, BLANK],
        [4, 8, 5],
        [3, 6, 7],
    ])
    .unwrap();

    assert_eq!(
        state.move_down().unwrap(),
        State::new([
            [1, 2, 5],
            [4, 8, BLANK],
            [3, 6, 7],
        ])
        .unwrap()
    );
    assert_eq!(
        state.move_left().unwrap(),
        State::new([
            [1, BLANK, 2],
            [4, 8, 5],
            [3, 6, 7],
        ])
        .unwrap()
    );
}

#[test]
fn immediate_neighbours_with_blank_at_the_center() {
    let state = State::new([
        [1, 2, 8],
        [4, BLANK, 5],
        [3, 6, 7],
    ])
    .unwrap();

    let neighbours = immediate_neighbours(&state);

    assert_eq!(
        neighbours,
        vec![
            state.move_up().unwrap(),
            state.move_down().unwrap(),
            state.move_left().unwrap(),
            state.move_right().unwrap(),
        ]
    );
}

#[test]
fn iterating_states() {
    let state = State::new([
        [1, 2, 8],
        [4, BLANK, 5],
        [3, 6, 7],
    ])
    .unwrap();

    let mut it = state.iter();
    let mut tiles: Vec<u8> = Vec::new();
    while let Some(t) = it.next() {
        tiles.push(t);
    }

    assert_eq!(tiles, vec![1, 2, 8, 4, BLANK, 5, 3, 6, 7]);
}

#[test]
fn iterator_is_exhausted_after_nine_values() {
    let state = State::new([
        [1, 2, 3],
        [4, 5, 6],
        [7, 8, BLANK],
    ])
    .unwrap();
    let mut it = state.iter();
    for _ in 0..9 {
        assert!(it.next().is_some());
    }
    assert!(it.next().is_none());
    assert!(it.next().is_none());
}

#[test]
fn construction_rejects_a_zero_label() {
    let state = State::new([
        [0, 1, 2],
        [3, 4, 5],
        [6, 7, 8],
    ]);
    assert!(state.is_none());
}

#[test]
fn construction_rejects_a_grid_without_blank() {
    let state = State::new([
        [1, 2, 3],
        [4, 5, 6],
        [7, 8, 8],
    ]);
    assert!(state.is_none());
}

#[test]
fn construction_rejects_two_blanks() {
    let state = State::new([
        [1, 2, 3],
        [4, BLANK, 6],
        [7, 8, BLANK],
    ]);
    assert!(state.is_none());
}

#[test]
fn corner_blank_has_two_neighbours() {
    let state = State::new([
        [BLANK, 1, 2],
        [3, 4, 5],
        [6, 7, 8],
    ])
    .unwrap();
    let neighbours = immediate_neighbours(&state);
    assert_eq!(
        neighbours,
        vec![state.move_down().unwrap(), state.move_right().unwrap()]
    );
}

#[test]
fn edge_blank_has_three_neighbours() {
    let state = State::new([
        [1, BLANK, 2],
        [3, 4, 5],
        [6, 7, 8],
    ])
    .unwrap();
    let neighbours = immediate_neighbours(&state);
    assert_eq!(
        neighbours,
        vec![
            state.move_down().unwrap(),
            state.move_left().unwrap(),
            state.move_right().unwrap(),
        ]
    );
}

#[test]
fn a_move_and_its_inverse_cancel() {
    let state = State::new([
        [1, 2, 8],
        [4, BLANK, 5],
        [3, 6, 7],
    ])
    .unwrap();
    assert_eq!(state.move_up().unwrap().move_down().unwrap(), state);
    assert_eq!(state.move_down().unwrap().move_up().unwrap(), state);
    assert_eq!(state.move_left().unwrap().move_right().unwrap(), state);
    assert_eq!(state.move_right().unwrap().move_left().unwrap(), state);
}

#[test]
fn keys_follow_the_cells() {
    let a = State::new([
        [1, 2, 3],
        [4, 5, 6],
        [7, 8, BLANK],
    ])
    .unwrap();
    assert_eq!(a.key(), 987654321);
    let b = a.move_left().unwrap();
    assert_ne!(a.key(), b.key());
}

#[test]
fn states_with_equal_grids_are_equal() {
    let a = State::new([
        [1, 2, 3],
        [4, 5, 6],
        [7, 8, BLANK],
    ])
    .unwrap();
    let b = a.move_up().unwrap().move_down().unwrap();
    assert!(a == b);
    assert!(a != a.move_up().unwrap());
}
