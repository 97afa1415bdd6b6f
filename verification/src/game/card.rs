//! Risk-style territory cards: types, card struct, set turn-in progression, and standard deck.
use vstd::prelude::*;

verus! {

/// Card type (Infantry, Cavalry, Artillery). Used for set validation and bonus troops.
#[derive(Debug, Clone, Copy, PartialEq, Eq, Structural)]
pub enum CardType {
    Infantry,
    Cavalry,
    Artillery,
}

/// Unique identifier for a card instance (e.g. index in the initial deck).
pub type CardId = u32;

/// A single territory card: type, which territory it depicts, and unique id.
#[derive(Debug, Clone, Copy, PartialEq, Eq, Structural)]
pub struct Card {
    pub card_type: CardType,
    /// Index of the territory pictured on this card (into GameMap / territories).
    pub territory: u32,
    pub id: CardId,
}

/// Troops granted for the n-th set (0-based): 4, 6, 8, 10, 12, then 15, 20, 25, ...
/// growing by 5 per set from the sixth set on.
pub open spec fn set_bonus(set_index: int) -> int {
    if set_index < 5 {
        4 + 2 * set_index
    } else {
        5 * set_index - 10
    }
}

/// Number of troops granted for turning in the n-th set of three cards (0-based index).
/// Classic Risk progression: 4, 6, 8, 10, 12, 15, 20, 25, 30, then +5 per set (35, 40, 45, ...).
pub fn troops_for_set_index(set_index: u32) -> (troops: u32)
    requires
        set_bonus(set_index as int) <= u32::MAX,
    ensures
        troops == set_bonus(set_index as int),
{
    let first: [u32; 10] = [4, 6, 8, 10, 12, 15, 20, 25, 30, 35];
    let i = set_index as usize;
    if i < 10 {
        assert(first@ == seq![4u32, 6, 8, 10, 12, 15, 20, 25, 30, 35]);
        first[i]
    } else {
        35 + (set_index - 9) * 5
    }
}

/// Each later set is worth strictly more troops than every earlier one.
pub proof fn lemma_set_bonus_strictly_increasing(i: int, j: int)
    requires
        0 <= i < j,
    ensures
        set_bonus(i) < set_bonus(j),
{
}

/// The type of the card at position `i` of a standard deck of `n` cards:
/// the first third Infantry, the second third Cavalry, the rest Artillery.
pub open spec fn standard_card_type(i: int, n: int) -> CardType {
    if i < n / 3 {
        CardType::Infantry
    } else if i < 2 * (n / 3) {
        CardType::Cavalry
    } else {
        CardType::Artillery
    }
}

/// Standard Risk deck: one card per territory, 14 Infantry, 14 Cavalry, 14 Artillery.
/// `territory_indices` must have length 42 for classic Risk (or any length for custom maps).
/// Cards are assigned types in order: first third Infantry, second third Cavalry, last third Artillery.
pub fn new_standard_deck(territory_indices: &[u32]) -> (deck: Vec<Card>)
    ensures
        deck@.len() == territory_indices@.len(),
        forall|i: int|
            0 <= i < deck@.len() ==> #[trigger] deck@[i] == (Card {
                card_type: standard_card_type(i, territory_indices@.len() as int),
                territory: territory_indices@[i],
                id: i as u32,
            }),
{
    let n = territory_indices.len();
    let third = n / 3;
    let mut deck: Vec<Card> = Vec::new();
    let mut i: usize = 0;
    while i < n
        invariant
            n == territory_indices@.len(),
            third == n / 3,
            i <= n,
            deck@.len() == i,
            forall|k: int|
                0 <= k < i ==> #[trigger] deck@[k] == (Card {
                    card_type: standard_card_type(k, n as int),
                    territory: territory_indices@[k],
                    id: k as u32,
                }),
        decreases n - i,
    {
        let card_type = if i < third {
            CardType::Infantry
        } else if i < 2 * third {
            CardType::Cavalry
        } else {
            CardType::Artillery
        };
        deck.push(Card { card_type, territory: territory_indices[i], id: i as CardId });
        i = i + 1;
    }
    deck
}

/// Three cards of one type, or three cards of three different types.
pub open spec fn forms_set(a: CardType, b: CardType, c: CardType) -> bool {
    (a == b && b == c) || (a != b && b != c && a != c)
}

/// Check if three cards form a valid set: either all same type or one of each type.
pub fn is_valid_set(cards: &[Card; 3]) -> (valid: bool)
    ensures
        valid == forms_set(cards@[0].card_type, cards@[1].card_type, cards@[2].card_type),
{
    let a = cards[0].card_type;
    let b = cards[1].card_type;
    let c = cards[2].card_type;
    (a == b && b == c) || (a != b && b != c && a != c)
}

/// Whether three cards form a set does not depend on the order in which they are given.
pub proof fn lemma_set_validity_ignores_order(a: CardType, b: CardType, c: CardType)
    ensures
        forms_set(a, b, c) == forms_set(b, a, c),
        forms_set(a, b, c) == forms_set(a, c, b),
        forms_set(a, b, c) == forms_set(c, b, a),
{
}

/// Three cards of any one type form a set.
pub proof fn lemma_three_of_a_kind_is_a_set(t: CardType)
    ensures
        forms_set(t, t, t),
{
}

/// One card of each type forms a set, in any order.
pub proof fn lemma_one_of_each_is_a_set(a: CardType, b: CardType, c: CardType)
    requires
        a != b,
        b != c,
        a != c,
    ensures
        forms_set(a, b, c),
{
}

/// Two cards of one type and a third of another type never form a set.
pub proof fn lemma_pair_and_odd_card_is_no_set(a: CardType, b: CardType)
    requires
        a != b,
    ensures
        !forms_set(a, a, b),
        !forms_set(a, b, a),
        !forms_set(b, a, a),
{
}

} // verus!
