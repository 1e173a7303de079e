use scoundrel::card::{Card, Deck, Rank, Suit};
use scoundrel::gamestate::{FightMode, Gamestate, PlayerAction};

fn card(suit: Suit, rank: Rank) -> Card {
    Card::new(suit, rank)
}

/// Deck listed bottom-to-top: the last card is the first one dealt.
fn game_from(cards: Vec<Card>) -> Gamestate {
    Gamestate::new(Deck { cards })
}

fn five_card_start() -> Gamestate {
    game_from(vec![
        card(Suit::Clubs, Rank::Two),
        card(Suit::Diamonds, Rank::Three),
        card(Suit::Hearts, Rank::Four),
        card(Suit::Spades, Rank::Five),
        card(Suit::Clubs, Rank::Six),
    ])
}

#[test]
fn construction_fills_the_room_from_the_top() {
    let game = five_card_start();
    let view = game.view();
    assert_eq!(
        view.room,
        &[
            card(Suit::Diamonds, Rank::Three),
            card(Suit::Hearts, Rank::Four),
            card(Suit::Spades, Rank::Five),
            card(Suit::Clubs, Rank::Six),
        ]
    );
    assert_eq!(view.deck_remaining, 1);
    assert_eq!(view.player_health, 20);
    assert_eq!(view.weapon, None);
    assert!(view.weapon_slain.is_empty());
    assert!(game.is_ongoing());
}

#[test]
fn legal_actions_in_room_order_with_flee_last() {
    let game = five_card_start();
    let actions = game.legal_actions();
    assert_eq!(
        actions,
        vec![
            PlayerAction::Weapon(0),
            PlayerAction::Potion(1),
            PlayerAction::Fight { index: 2, mode: FightMode::Barehanded },
            PlayerAction::Fight { index: 3, mode: FightMode::Barehanded },
            PlayerAction::Flee,
        ]
    );
}

#[test]
fn legal_actions_list_both_fight_modes_for_a_fresh_weapon() {
    let mut game = five_card_start();
    game.resolve_action(PlayerAction::Weapon(0));
    // room: [Hearts-Four, Spades-Five, Clubs-Six], weapon fresh, no flee
    let actions = game.legal_actions();
    assert_eq!(
        actions,
        vec![
            PlayerAction::Potion(0),
            PlayerAction::Fight { index: 1, mode: FightMode::Barehanded },
            PlayerAction::Fight { index: 1, mode: FightMode::WithWeapon },
            PlayerAction::Fight { index: 2, mode: FightMode::Barehanded },
            PlayerAction::Fight { index: 2, mode: FightMode::WithWeapon },
        ]
    );
}

#[test]
fn weapon_equip_then_weaker_kill_chain() {
    let mut game = five_card_start();
    game.resolve_action(PlayerAction::Weapon(0));
    assert_eq!(game.weapon, Some(card(Suit::Diamonds, Rank::Three)));
    assert_eq!(
        game.room,
        vec![
            card(Suit::Hearts, Rank::Four),
            card(Suit::Spades, Rank::Five),
            card(Suit::Clubs, Rank::Six),
        ]
    );
    assert_eq!(game.player_health, 20);
    // a fresh weapon may fight anything; Spades-Five costs 5 - 3 = 2 health
    let actions = game.legal_actions();
    assert!(actions.contains(&PlayerAction::Fight { index: 1, mode: FightMode::WithWeapon }));
    game.resolve_action(PlayerAction::Fight { index: 1, mode: FightMode::WithWeapon });
    assert_eq!(game.player_health, 18);
    assert_eq!(game.weapon_slain, vec![card(Suit::Spades, Rank::Five)]);
    assert_eq!(game.room, vec![card(Suit::Hearts, Rank::Four), card(Suit::Clubs, Rank::Six)]);
}

#[test]
fn durability_cutoff_blocks_stronger_monsters() {
    let mut game = five_card_start();
    game.resolve_action(PlayerAction::Weapon(0));
    game.resolve_action(PlayerAction::Fight { index: 1, mode: FightMode::WithWeapon });
    // last kill has strength 5; Clubs-Six (6) is too strong for the weapon
    let actions = game.legal_actions();
    assert!(actions.contains(&PlayerAction::Fight { index: 1, mode: FightMode::Barehanded }));
    assert!(!actions.contains(&PlayerAction::Fight { index: 1, mode: FightMode::WithWeapon }));
}

#[test]
fn stale_weapon_fight_falls_back_to_barehanded() {
    let mut game = five_card_start();
    game.resolve_action(PlayerAction::Weapon(0));
    game.resolve_action(PlayerAction::Fight { index: 1, mode: FightMode::WithWeapon });
    // weapon strength 3, kill history [Spades-Five], health 4, fighting
    // Clubs-Six: 6 <= 5 fails, so the blow lands barehanded
    game.player_health = 4;
    game.resolve_action(PlayerAction::Fight { index: 1, mode: FightMode::WithWeapon });
    assert_eq!(game.player_health, 0);
    // the weapon and its kill history survive a barehanded loss
    assert_eq!(game.weapon, Some(card(Suit::Diamonds, Rank::Three)));
    assert_eq!(game.weapon_slain, vec![card(Suit::Spades, Rank::Five)]);
    // the singleton room was refilled from the one-card deck
    assert_eq!(game.room, vec![card(Suit::Hearts, Rank::Four), card(Suit::Clubs, Rank::Two)]);
    assert!(!game.is_ongoing());
    // dead: minus the strengths of the monsters left (Clubs-Two in the room)
    assert_eq!(game.compute_score(), -2);
}

#[test]
fn fatal_weapon_blow_destroys_the_weapon() {
    let mut game = game_from(vec![
        card(Suit::Clubs, Rank::Two),
        card(Suit::Diamonds, Rank::Three),
        card(Suit::Hearts, Rank::Four),
        card(Suit::Spades, Rank::Five),
        card(Suit::Clubs, Rank::Four),
    ]);
    game.resolve_action(PlayerAction::Weapon(0));
    game.resolve_action(PlayerAction::Fight { index: 1, mode: FightMode::WithWeapon });
    assert_eq!(game.weapon_slain, vec![card(Suit::Spades, Rank::Five)]);
    game.player_health = 1;
    // Clubs-Four: 4 <= 5 keeps the weapon legal; damage 4 - 3 = 1 >= health
    game.resolve_action(PlayerAction::Fight { index: 1, mode: FightMode::WithWeapon });
    assert_eq!(game.player_health, 0);
    assert_eq!(game.weapon, None);
    assert!(game.weapon_slain.is_empty());
}

#[test]
fn barehanded_fight_costs_full_strength() {
    let mut game = five_card_start();
    game.resolve_action(PlayerAction::Fight { index: 2, mode: FightMode::Barehanded });
    assert_eq!(game.player_health, 15);
    assert_eq!(
        game.room,
        vec![
            card(Suit::Diamonds, Rank::Three),
            card(Suit::Hearts, Rank::Four),
            card(Suit::Clubs, Rank::Six),
        ]
    );
}

#[test]
fn potion_heals_capped_at_max_health() {
    let mut game = five_card_start();
    // at full health the potion heals nothing: 20 + 4 caps at 20
    game.resolve_action(PlayerAction::Potion(1));
    assert_eq!(game.player_health, 20);
    assert_eq!(
        game.room,
        vec![
            card(Suit::Diamonds, Rank::Three),
            card(Suit::Spades, Rank::Five),
            card(Suit::Clubs, Rank::Six),
        ]
    );
}

#[test]
fn potion_arithmetic_and_once_per_room() {
    let mut game = game_from(vec![
        card(Suit::Clubs, Rank::Two),
        card(Suit::Clubs, Rank::Five),
        card(Suit::Hearts, Rank::Four),
        card(Suit::Hearts, Rank::Nine),
        card(Suit::Clubs, Rank::Six),
    ]);
    // room: [Clubs-Five, Hearts-Four, Hearts-Nine, Clubs-Six]
    game.resolve_action(PlayerAction::Fight { index: 0, mode: FightMode::Barehanded });
    assert_eq!(game.player_health, 15);
    game.resolve_action(PlayerAction::Potion(0));
    assert_eq!(game.player_health, 19);
    // one potion per refill cycle in a mixed room: Hearts-Nine is not legal
    let actions = game.legal_actions();
    assert!(!actions.iter().any(|a| matches!(a, PlayerAction::Potion(_))));
}

#[test]
fn all_hearts_room_allows_another_potion() {
    let mut game = game_from(vec![
        card(Suit::Hearts, Rank::Two),
        card(Suit::Hearts, Rank::Three),
        card(Suit::Hearts, Rank::Four),
        card(Suit::Hearts, Rank::Five),
        card(Suit::Hearts, Rank::Six),
    ]);
    game.player_health = 1;
    game.resolve_action(PlayerAction::Potion(0));
    assert_eq!(game.player_health, 4);
    // the room is entirely Hearts, so the once-per-room rule is waived
    let actions = game.legal_actions();
    assert!(actions.iter().any(|a| matches!(a, PlayerAction::Potion(_))));
    game.resolve_action(PlayerAction::Potion(0));
    assert_eq!(game.player_health, 8);
}

#[test]
fn equipping_again_clears_the_kill_history() {
    let mut game = game_from(vec![
        card(Suit::Clubs, Rank::Two),
        card(Suit::Diamonds, Rank::Three),
        card(Suit::Spades, Rank::Five),
        card(Suit::Diamonds, Rank::Seven),
        card(Suit::Hearts, Rank::Four),
    ]);
    // room: [Diamonds-Three, Spades-Five, Diamonds-Seven, Hearts-Four]
    game.resolve_action(PlayerAction::Weapon(0));
    game.resolve_action(PlayerAction::Fight { index: 0, mode: FightMode::WithWeapon });
    assert_eq!(game.player_health, 18);
    assert_eq!(game.weapon_slain, vec![card(Suit::Spades, Rank::Five)]);
    game.resolve_action(PlayerAction::Weapon(0));
    assert_eq!(game.weapon, Some(card(Suit::Diamonds, Rank::Seven)));
    assert!(game.weapon_slain.is_empty());
    assert_eq!(game.player_health, 18);
}

#[test]
fn flee_returns_the_room_to_the_bottom_then_redraws() {
    let mut game = game_from(vec![
        card(Suit::Clubs, Rank::Two),
        card(Suit::Clubs, Rank::Three),
        card(Suit::Clubs, Rank::Four),
        card(Suit::Clubs, Rank::Five),
        card(Suit::Clubs, Rank::Six),
        card(Suit::Clubs, Rank::Seven),
        card(Suit::Clubs, Rank::Eight),
        card(Suit::Clubs, Rank::Nine),
    ]);
    // room: [Six, Seven, Eight, Nine], deck: [Two, Three, Four, Five]
    assert!(game.legal_actions().contains(&PlayerAction::Flee));
    game.resolve_action(PlayerAction::Flee);
    // the fled cards went to the bottom; the refill drew the old deck's top
    assert_eq!(
        game.room,
        vec![
            card(Suit::Clubs, Rank::Two),
            card(Suit::Clubs, Rank::Three),
            card(Suit::Clubs, Rank::Four),
            card(Suit::Clubs, Rank::Five),
        ]
    );
    assert_eq!(game.view().deck_remaining, 4);
    // no flee twice in a row, even from a full room
    assert!(!game.legal_actions().contains(&PlayerAction::Flee));
    assert_eq!(game.player_health, 20);
}

#[test]
fn flee_needs_an_untouched_room() {
    let mut game = five_card_start();
    game.resolve_action(PlayerAction::Weapon(0));
    // three cards left in the room: flee is off the table
    assert!(!game.legal_actions().contains(&PlayerAction::Flee));
}

#[test]
fn refill_triggers_at_one_card_and_death_scores_the_monsters() {
    let mut game = game_from(vec![
        card(Suit::Clubs, Rank::Two),
        card(Suit::Clubs, Rank::Three),
        card(Suit::Clubs, Rank::Four),
        card(Suit::Clubs, Rank::Five),
        card(Suit::Clubs, Rank::Six),
        card(Suit::Clubs, Rank::Seven),
        card(Suit::Clubs, Rank::Eight),
        card(Suit::Clubs, Rank::Nine),
    ]);
    // room: [Six, Seven, Eight, Nine]
    game.resolve_action(PlayerAction::Fight { index: 0, mode: FightMode::Barehanded });
    assert_eq!(game.player_health, 14);
    assert_eq!(game.room.len(), 3);
    game.resolve_action(PlayerAction::Fight { index: 0, mode: FightMode::Barehanded });
    assert_eq!(game.player_health, 7);
    assert_eq!(game.room.len(), 2);
    game.resolve_action(PlayerAction::Fight { index: 0, mode: FightMode::Barehanded });
    assert_eq!(game.player_health, 0);
    // the room had dropped to [Nine]: topped back up to four from the deck
    assert_eq!(
        game.room,
        vec![
            card(Suit::Clubs, Rank::Nine),
            card(Suit::Clubs, Rank::Three),
            card(Suit::Clubs, Rank::Four),
            card(Suit::Clubs, Rank::Five),
        ]
    );
    assert_eq!(game.view().deck_remaining, 1);
    assert!(!game.is_ongoing());
    // -(9 + 3 + 4 + 5) in the room, -2 left in the deck
    assert_eq!(game.compute_score(), -23);
}

#[test]
fn surviving_the_deck_scores_the_remaining_health() {
    let game = game_from(vec![
        card(Suit::Hearts, Rank::Two),
        card(Suit::Hearts, Rank::Three),
        card(Suit::Hearts, Rank::Four),
        card(Suit::Hearts, Rank::Five),
    ]);
    // the whole deck went into the room: the run is over, alive
    assert!(!game.is_ongoing());
    assert_eq!(game.compute_score(), 20);
}

#[test]
fn full_game_with_the_real_deck_stays_consistent() {
    let mut deck = Deck::new();
    deck.shuffle();
    let mut game = Gamestate::new(deck);
    let mut turns = 0usize;
    while game.is_ongoing() {
        let actions = game.legal_actions();
        assert!(!actions.is_empty());
        // play the first listed action, whatever it is
        game.resolve_action(actions[0]);
        assert!(game.player_health <= 20);
        assert!(game.room.len() <= 4);
        if !game.weapon_slain.is_empty() {
            assert!(game.weapon.is_some());
        }
        turns += 1;
        assert!(turns < 1000);
    }
    let _ = game.compute_score();
}
