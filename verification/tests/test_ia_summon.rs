// The choice of cards in the summon pass.

use back::ia::summon::maximize_mana_spend;

#[test]
fn simple_max() {
    let options = vec![(5, 1), (3, 2), (6, 3)];

    let result = maximize_mana_spend(options, 5, 1);

    assert_eq!(result, vec![1]);
}

#[test]
fn simple_max_more_option() {
    let options = vec![(2, 1), (3, 2), (5, 3)];

    let result = maximize_mana_spend(options, 5, 2);

    assert_eq!(result, vec![1, 2]);
}

#[test]
fn simple_max_less_option() {
    let options = vec![(5, 1), (3, 2), (2, 3)];

    let result = maximize_mana_spend(options, 5, 2);

    assert_eq!(result, vec![1]);
}

#[test]
fn complexe_max_multiple() {
    let options = vec![(1, 1), (1, 2), (2, 3), (5, 4)];

    let result = maximize_mana_spend(options, 3, 7);

    assert_eq!(result, vec![1, 3]);
}
