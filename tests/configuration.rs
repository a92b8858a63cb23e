use eight_puzzle::configuration::Configuration;
use eight_puzzle::state::BLANK;

#[test]
fn configs_allow_no_duplicates() {
    let config = Configuration::new([
        [1, 2, 3],
        [1, 4, 5],
        [BLANK, 6, 7],
    ]);
    assert!(config.is_none());
}

#[test]
fn configs_validate_the_values() {
    let config = Configuration::new([
        [1, 2, 10],
        [1, 4, 5],
        [BLANK, 6, 7],
    ]);
    assert!(config.is_none());
}

#[test]
fn valid_config_is_some() {
    let config = Configuration::new([
        [1, 2, 3],
        [4, 8, 5],
        [BLANK, 6, 7],
    ]);
    assert!(config.is_some());
}

#[test]
fn configuration_move_up_and_right_valid() {
    let config = Configuration::new([
        [1, 2, 3],
        [4, 8, 5],
        [BLANK, 6, 7],
    ])
    .unwrap();

    assert_eq!(
        config.move_up().unwrap(),
        Configuration::new([
            [1, 2, 3],
            [BLANK, 8, 5],
            [4, 6, 7],
        ])
        .unwrap()
    );

    assert_eq!(
        config.move_right().unwrap(),
        Configuration::new([
            [1, 2, 3],
            [4, 8, 5],
            [6, BLANK, 7],
        ])
        .unwrap()
    );
}

#[test]
fn configuration_move_up_and_right_invalid() {
    let config = Configuration::new([
        [1, 2, BLANK],
        [4, 8, 5],
        [3, 6, 7],
    ])
    .unwrap();

    assert!(config.move_up().is_none());
    assert!(config.move_right().is_none());
}

#[test]
fn configuration_move_down_and_left_invalid() {
    let config = Configuration::new([
        [1, 2, 3],
        [4, 8, 5],
        [BLANK, 6, 7],
    ])
    .unwrap();

    assert!(config.move_down().is_none());
    assert!(config.move_left().is_none());
}

#[test]
fn configuration_move_down_and_left_valid() {
    let config = Configuration::new([
        [1, 2, BLANK],
        [4, 8, 5],
        [3, 6, 7],
    ])
    .unwrap();

    assert_eq!(
        config.move_down().unwrap(),
        Configuration::new([
            [1, 2, 5],
            [4, 8, BLANK],
            [3, 6, 7],
        ])
        .unwrap()
    );
    assert_eq!(
        config.move_left().unwrap(),
        Configuration::new([
            [1, BLANK, 2],
            [4, 8, 5],
            [3, 6, 7],
        ])
        .unwrap()
    );
}

#[test]
fn configuration_moves_cancel() {
    let config = Configuration::new([
        [1, 2, 8],
        [4, BLANK, 5],
        [3, 6, 7],
    ])
    .unwrap();
    assert_eq!(config.move_up().unwrap().move_down().unwrap(), config);
    assert_eq!(config.move_left().unwrap().move_right().unwrap(), config);
}
