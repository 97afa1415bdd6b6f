use backend::game::card::{is_valid_set, new_standard_deck, troops_for_set_index, Card, CardType};

#[test]
fn progression_first_ten() {
    assert_eq!(troops_for_set_index(0), 4);
    assert_eq!(troops_for_set_index(1), 6);
    assert_eq!(troops_for_set_index(9), 35);
}

#[test]
fn progression_after_ten() {
    assert_eq!(troops_for_set_index(10), 40);
    assert_eq!(troops_for_set_index(11), 45);
}

#[test]
fn standard_deck_42() {
    let territories: Vec<u32> = (0..42).collect();
    let deck = new_standard_deck(&territories);
    assert_eq!(deck.len(), 42);
    // 14 Infantry (0..14), 14 Cavalry (14..28), 14 Artillery (28..42)
    let inf: usize = deck
        .iter()
        .filter(|c| c.card_type == CardType::Infantry)
        .count();
    let cav: usize = deck
        .iter()
        .filter(|c| c.card_type == CardType::Cavalry)
        .count();
    let art: usize = deck
        .iter()
        .filter(|c| c.card_type == CardType::Artillery)
        .count();
    assert_eq!(inf, 14);
    assert_eq!(cav, 14);
    assert_eq!(art, 14);
}

#[test]
fn valid_set_same_type() {
    let cards = [
        Card { card_type: CardType::Infantry, territory: 0, id: 0 },
        Card { card_type: CardType::Infantry, territory: 1, id: 1 },
        Card { card_type: CardType::Infantry, territory: 2, id: 2 },
    ];
    assert!(is_valid_set(&cards));
}

#[test]
fn valid_set_mixed() {
    let cards = [
        Card { card_type: CardType::Infantry, territory: 0, id: 0 },
        Card { card_type: CardType::Cavalry, territory: 1, id: 1 },
        Card { card_type: CardType::Artillery, territory: 2, id: 2 },
    ];
    assert!(is_valid_set(&cards));
}

#[test]
fn invalid_set_two_and_one() {
    let cards = [
        Card { card_type: CardType::Infantry, territory: 0, id: 0 },
        Card { card_type: CardType::Infantry, territory: 1, id: 1 },
        Card { card_type: CardType::Cavalry, territory: 2, id: 2 },
    ];
    assert!(!is_valid_set(&cards));
}

#[test]
fn progression_keeps_growing_by_five() {
    assert_eq!(troops_for_set_index(4), 12);
    assert_eq!(troops_for_set_index(5), 15);
    assert_eq!(troops_for_set_index(20), 90);
    let mut previous = troops_for_set_index(0);
    for i in 1..50 {
        let next = troops_for_set_index(i);
        assert!(next > previous);
        previous = next;
    }
}

#[test]
fn standard_deck_assigns_ids_and_territories_in_order() {
    let deck = new_standard_deck(&[7, 3, 9, 1, 0]);
    assert_eq!(deck.len(), 5);
    // a third of five is one: one Infantry, one Cavalry, three Artillery
    assert_eq!(deck[0], Card { card_type: CardType::Infantry, territory: 7, id: 0 });
    assert_eq!(deck[1], Card { card_type: CardType::Cavalry, territory: 3, id: 1 });
    assert_eq!(deck[2], Card { card_type: CardType::Artillery, territory: 9, id: 2 });
    assert_eq!(deck[4], Card { card_type: CardType::Artillery, territory: 0, id: 4 });
    assert!(new_standard_deck(&[]).is_empty());
}

#[test]
fn set_validity_ignores_order() {
    let a = Card { card_type: CardType::Cavalry, territory: 0, id: 0 };
    let b = Card { card_type: CardType::Cavalry, territory: 1, id: 1 };
    let c = Card { card_type: CardType::Artillery, territory: 2, id: 2 };
    let orders = [[a, b, c], [b, a, c], [c, b, a], [a, c, b]];
    for cards in orders.iter() {
        assert!(!is_valid_set(cards));
    }
    let d = Card { card_type: CardType::Infantry, territory: 3, id: 3 };
    assert!(is_valid_set(&[d, a, c]));
    assert!(is_valid_set(&[c, d, a]));
}
