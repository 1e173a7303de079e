//! The rules of the game as theorems: the state invariants hold after every
//! resolution, each action has exactly its specified effect, and the legal
//! action list contains exactly the justified actions.

use vstd::prelude::*;
use vstd::multiset::Multiset;
use crate::card::{Card, min_int};
use crate::gamestate::{
    FightMode, GsModel, PlayerAction, MAX_HEALTH, ROOM_SIZE, max_int, monster_sum,
    opt_card_multiset,
};

verus! {

broadcast use
    vstd::seq_lib::group_to_multiset_ensures,
    vstd::multiset::group_multiset_axioms,
    vstd::seq_lib::group_seq_properties;

/// Removing the card at room position `i` and re-adding it restores the
/// room's cards as a multiset.
proof fn lemma_room_remove_insert(m: GsModel, i: int)
    requires
        0 <= i < m.room.len(),
    ensures
        m.room.remove(i).to_multiset().insert(m.room[i]) == m.room.to_multiset(),
{
    let c = m.room[i];
    assert(m.room.contains(c));
    assert(m.room.to_multiset().count(c) > 0);
    assert(m.room.remove(i).to_multiset().insert(c) =~= m.room.to_multiset());
}

/// No action creates or destroys a card: the effect of any in-bounds action
/// leaves the state's cards unchanged as a multiset.
pub proof fn lemma_apply_preserves_cards(m: GsModel, a: PlayerAction)
    requires
        m.action_in_bounds(a),
    ensures
        m.apply_action(a).all_cards() == m.all_cards(),
{
    match a {
        PlayerAction::Potion(i) => {
            lemma_room_remove_insert(m, i as int);
            assert(m.apply_action(a).all_cards() =~= m.all_cards());
        },
        PlayerAction::Weapon(i) => {
            lemma_room_remove_insert(m, i as int);
            assert(m.apply_action(a).all_cards() =~= m.all_cards());
        },
        PlayerAction::Fight { index, mode: FightMode::Barehanded } => {
            lemma_room_remove_insert(m, index as int);
            assert(m.apply_action(a).all_cards() =~= m.all_cards());
        },
        PlayerAction::Fight { index, mode: FightMode::WithWeapon } => {
            lemma_room_remove_insert(m, index as int);
            assert(m.apply_action(a).all_cards() =~= m.all_cards());
        },
        PlayerAction::Flee => {
            vstd::seq_lib::lemma_multiset_commutative(m.room, m.deck);
            assert(Seq::<Card>::empty().to_multiset() =~= Multiset::<Card>::empty());
            assert(m.apply_action(a).all_cards() =~= m.all_cards());
        },
    }
}

/// The state invariants hold after every resolution: health stays within
/// its bounds, the room never exceeds four cards, a kill history implies an
/// equipped weapon, the turn window never outgrows the history, and the
/// cards are conserved as a multiset.
pub proof fn lemma_step_preserves_invariants(m: GsModel, a: PlayerAction)
    requires
        m.wf(),
        m.action_in_bounds(a),
    ensures
        m.step(a).wf(),
        m.step(a).all_cards() == m.all_cards(),
        m.step(a).history == m.history.push(a),
{
    lemma_apply_preserves_cards(m, a);
    let e = m.apply_action(a);
    let h = GsModel { history: e.history.push(a), turns_since_reset: e.turns_since_reset + 1, ..e };
    assert(h.all_cards() == e.all_cards());
    if h.room.len() <= 1 {
        crate::gamestate::lemma_refill_preserves_cards(h);
        assert(m.step(a).all_cards() == h.all_cards());
    }
}

/// The turn window tracks exactly the actions taken since the room was last
/// refilled: every resolution appends its action to the history; one that
/// refills the room empties the window, and one that does not extends the
/// window by exactly that action.
pub proof fn lemma_window_tracks_the_room_cycle(m: GsModel, a: PlayerAction)
    requires
        m.wf(),
        m.action_in_bounds(a),
    ensures
        ({
            let s = m.step(a);
            &&& s.history == m.history.push(a)
            &&& (s.turns_since_reset == 0 || s.turns_since_reset == m.turns_since_reset + 1)
            &&& (s.turns_since_reset > 0 ==> s.history.skip(s.window_start())
                == m.history.skip(m.window_start()).push(a))
        }),
{
    let s = m.step(a);
    if s.turns_since_reset > 0 {
        assert(s.history.skip(s.window_start()) =~= m.history.skip(m.window_start()).push(a));
    }
}

/// Which actions the state justifies: a potion action on a Hearts card when
/// the potion rule allows it, a weapon action on a Diamonds card, a
/// barehanded fight on any monster, a weapon fight on a monster the
/// durability rule admits, and a flee when the room is untouched and the
/// previous action was not a flee.
pub open spec fn action_legal(m: GsModel, a: PlayerAction) -> bool {
    match a {
        PlayerAction::Potion(i) => i < m.room.len() && m.room[i as int].is_potion()
            && m.can_use_potion(),
        PlayerAction::Weapon(i) => i < m.room.len() && m.room[i as int].is_weapon(),
        PlayerAction::Fight { index, mode: FightMode::Barehanded } => index < m.room.len()
            && m.room[index as int].is_monster(),
        PlayerAction::Fight { index, mode: FightMode::WithWeapon } => index < m.room.len()
            && m.room[index as int].is_monster() && m.can_fight_with_weapon(m.room[index as int]),
        PlayerAction::Flee => m.flee_legal(),
    }
}

/// Membership in the per-card part of the action list: an action appears
/// among the first `n` cards' actions iff some position below `n` justifies
/// it.
proof fn lemma_room_actions_membership(m: GsModel, n: int, a: PlayerAction)
    requires
        0 <= n <= m.room.len(),
        m.room.len() <= usize::MAX,
    ensures
        m.room_actions_up_to(n).contains(a) <==> exists|i: int|
            0 <= i < n && #[trigger] m.card_actions(i).contains(a),
    decreases n,
{
    if n > 0 {
        lemma_room_actions_membership(m, n - 1, a);
        assert(m.room_actions_up_to(n) == m.room_actions_up_to(n - 1) + m.card_actions(n - 1));
        if m.room_actions_up_to(n).contains(a) {
            if m.card_actions(n - 1).contains(a) {
                assert(exists|i: int| 0 <= i < n && #[trigger] m.card_actions(i).contains(a));
            }
        }
        if exists|i: int| 0 <= i < n && #[trigger] m.card_actions(i).contains(a) {
            let i: int = choose|i: int| 0 <= i < n && #[trigger] m.card_actions(i).contains(a);
            if i == n - 1 {
                assert(m.room_actions_up_to(n).contains(a));
            }
        }
    }
}

/// What one card's actions are, element by element.
proof fn lemma_card_actions_exact(m: GsModel, i: int, a: PlayerAction)
    requires
        0 <= i < m.room.len(),
        m.room.len() <= usize::MAX,
    ensures
        m.card_actions(i).contains(a) <==> ({
            let c = m.room[i];
            match a {
                PlayerAction::Potion(j) => j == i && c.is_potion() && m.can_use_potion(),
                PlayerAction::Weapon(j) => j == i && c.is_weapon(),
                PlayerAction::Fight { index, mode: FightMode::Barehanded } => index == i
                    && c.is_monster(),
                PlayerAction::Fight { index, mode: FightMode::WithWeapon } => index == i
                    && c.is_monster() && m.can_fight_with_weapon(c),
                PlayerAction::Flee => false,
            }
        }),
{
    let s = m.card_actions(i);
    if s.contains(a) {
        let k: int = choose|k: int| 0 <= k < s.len() && s[k] == a;
        assert(s[k] == a);
    }
    let c = m.room[i];
    if c.is_monster() {
        assert(s[0] == PlayerAction::Fight { index: i as usize, mode: FightMode::Barehanded });
        if m.can_fight_with_weapon(c) {
            assert(s[1] == PlayerAction::Fight { index: i as usize, mode: FightMode::WithWeapon });
        }
    } else if c.is_potion() {
        if m.can_use_potion() {
            assert(s[0] == PlayerAction::Potion(i as usize));
        }
    } else {
        assert(s[0] == PlayerAction::Weapon(i as usize));
    }
}

/// The legal-action list contains exactly the actions the state justifies.
pub proof fn lemma_legal_actions_iff(m: GsModel, a: PlayerAction)
    requires
        m.room.len() <= usize::MAX,
    ensures
        m.legal_actions_spec().contains(a) <==> action_legal(m, a),
{
    let n: int = m.room.len() as int;
    lemma_room_actions_membership(m, n, a);
    assert forall|i: int| 0 <= i < n implies (#[trigger] m.card_actions(i).contains(a) <==> ({
        let c = m.room[i];
        match a {
            PlayerAction::Potion(j) => j == i && c.is_potion() && m.can_use_potion(),
            PlayerAction::Weapon(j) => j == i && c.is_weapon(),
            PlayerAction::Fight { index, mode: FightMode::Barehanded } => index == i
                && c.is_monster(),
            PlayerAction::Fight { index, mode: FightMode::WithWeapon } => index == i
                && c.is_monster() && m.can_fight_with_weapon(c),
            PlayerAction::Flee => false,
        }
    })) by {
        lemma_card_actions_exact(m, i, a);
    }
    if m.flee_legal() {
        assert(seq![PlayerAction::Flee][0] == PlayerAction::Flee);
        assert(seq![PlayerAction::Flee].contains(a) <==> a == PlayerAction::Flee);
    } else {
        assert(!Seq::<PlayerAction>::empty().contains(a));
    }
    if action_legal(m, a) && !(a is Flee) {
        match a {
            PlayerAction::Potion(i) => {
                assert(m.card_actions(i as int).contains(a));
            },
            PlayerAction::Weapon(i) => {
                assert(m.card_actions(i as int).contains(a));
            },
            PlayerAction::Fight { index, .. } => {
                assert(m.card_actions(index as int).contains(a));
            },
            PlayerAction::Flee => {},
        }
    }
}

/// A barehanded fight against the monster at room position `i`: health
/// drops by the monster's full strength, floored at zero; the room loses
/// the card; the graveyard gains it.
pub proof fn lemma_barehanded_fight(m: GsModel, i: usize)
    requires
        i < m.room.len(),
    ensures
        ({
            let a = PlayerAction::Fight { index: i, mode: FightMode::Barehanded };
            let c = m.room[i as int];
            &&& m.step(a).player_health == max_int(0, m.player_health - c.strength())
            &&& m.apply_action(a).room == m.room.remove(i as int)
            &&& m.step(a).graveyard == m.graveyard.insert(c)
        }),
{
}

/// A potion at room position `i`: health rises by the card's strength,
/// capped at `MAX_HEALTH`; the room loses the card; the graveyard gains it.
pub proof fn lemma_potion(m: GsModel, i: usize)
    requires
        i < m.room.len(),
    ensures
        ({
            let a = PlayerAction::Potion(i);
            let c = m.room[i as int];
            &&& m.step(a).player_health == min_int(MAX_HEALTH as int, m.player_health + c.strength())
            &&& m.apply_action(a).room == m.room.remove(i as int)
            &&& m.step(a).graveyard == m.graveyard.insert(c)
        }),
{
}

/// At most one potion is consumable per room refill cycle unless the room
/// is entirely Hearts: once a potion has been drunk this cycle in a mixed
/// room, no potion action is legal at any position.
pub proof fn lemma_potion_once_per_room(m: GsModel, i: usize)
    requires
        m.room.len() <= usize::MAX,
        !m.all_hearts(),
        m.potion_used_this_room(),
    ensures
        !m.legal_actions_spec().contains(PlayerAction::Potion(i)),
{
    lemma_legal_actions_iff(m, PlayerAction::Potion(i));
}

/// Equipping the weapon at room position `i` always flushes the previous
/// weapon, if any, and its entire kill history to the graveyard; the new
/// weapon starts with an empty kill history.
pub proof fn lemma_equip_weapon(m: GsModel, i: usize)
    requires
        i < m.room.len(),
    ensures
        ({
            let a = PlayerAction::Weapon(i);
            let c = m.room[i as int];
            &&& m.step(a).weapon == Some(c)
            &&& m.step(a).weapon_slain == Seq::<Card>::empty()
            &&& m.apply_action(a).room == m.room.remove(i as int)
            &&& m.step(a).graveyard == m.graveyard.add(m.weapon_slain.to_multiset()).add(
                opt_card_multiset(m.weapon),
            )
        }),
{
}

/// A weapon fight when the durability rule holds: damage is the monster's
/// strength less the weapon's, floored at zero. A fatal blow (damage at
/// least the current health) zeroes health and sends the monster, the
/// weapon and its whole kill history to the graveyard, emptying the weapon
/// slot; a survivable one subtracts the damage and appends the monster to
/// the kill history, keeping it out of the graveyard.
pub proof fn lemma_weapon_fight(m: GsModel, i: usize)
    requires
        i < m.room.len(),
        m.can_fight_with_weapon(m.room[i as int]),
    ensures
        ({
            let a = PlayerAction::Fight { index: i, mode: FightMode::WithWeapon };
            let c = m.room[i as int];
            let w = m.weapon.unwrap();
            let damage = max_int(0, c.strength() - w.strength());
            &&& m.apply_action(a).room == m.room.remove(i as int)
            &&& (damage >= m.player_health ==> m.step(a).player_health == 0 && m.step(a).weapon
                is None && m.step(a).weapon_slain == Seq::<Card>::empty() && m.step(a).graveyard
                == m.graveyard.insert(c).add(m.weapon_slain.to_multiset()).insert(w))
            &&& (damage < m.player_health ==> m.step(a).player_health == m.player_health - damage
                && m.step(a).weapon == m.weapon && m.step(a).weapon_slain
                == m.weapon_slain.push(c) && m.step(a).graveyard == m.graveyard)
        }),
{
}

/// The durability cutoff: once the weapon has a kill history, a weapon
/// fight is legal only against monsters no stronger than the most recent
/// kill.
pub proof fn lemma_weapon_fight_durability(m: GsModel, i: usize)
    requires
        m.room.len() <= usize::MAX,
        m.weapon_slain.len() > 0,
        m.legal_actions_spec().contains(
            PlayerAction::Fight { index: i, mode: FightMode::WithWeapon },
        ),
    ensures
        i < m.room.len(),
        m.room[i as int].strength() <= m.weapon_slain.last().strength(),
{
    lemma_legal_actions_iff(m, PlayerAction::Fight { index: i, mode: FightMode::WithWeapon });
}

/// Flee is legal exactly when the room is untouched (four cards) and the
/// previous action was not itself a flee.
pub proof fn lemma_flee_legal_iff(m: GsModel)
    requires
        m.room.len() <= usize::MAX,
    ensures
        m.legal_actions_spec().contains(PlayerAction::Flee) <==> (m.room.len() == ROOM_SIZE as int
            && !(m.history.len() > 0 && m.history.last() is Flee)),
{
    lemma_legal_actions_iff(m, PlayerAction::Flee);
}

/// After a flee the room is empty and the deck has grown by exactly the
/// fled cards, in room order, at the reinsertion end (the bottom, i.e. the
/// front); the immediate refill then deals from the deck's top end.
pub proof fn lemma_flee_effect(m: GsModel)
    ensures
        m.apply_action(PlayerAction::Flee).room == Seq::<Card>::empty(),
        m.apply_action(PlayerAction::Flee).deck == m.room + m.deck,
        m.step(PlayerAction::Flee).turns_since_reset == 0,
{
}

/// The room is refilled exactly when the post-action room has one card or
/// fewer: it is topped up to four cards or to all the deck still holds,
/// whichever is smaller, from the deck's top end, and the turn counter
/// resets to zero; otherwise room, deck and counter simply carry over.
pub proof fn lemma_refill_exactly_when_low(m: GsModel, a: PlayerAction)
    requires
        m.wf(),
        m.action_in_bounds(a),
    ensures
        ({
            let e = m.apply_action(a);
            let k: int = min_int(ROOM_SIZE as int - e.room.len(), e.deck.len() as int);
            &&& (e.room.len() <= 1 ==> m.step(a).turns_since_reset == 0 && m.step(a).room
                == e.room + e.deck.skip(e.deck.len() - k) && m.step(a).room.len() == min_int(
                ROOM_SIZE as int,
                e.room.len() + e.deck.len() as int,
            ) && m.step(a).deck == e.deck.take(e.deck.len() - k))
            &&& (e.room.len() > 1 ==> m.step(a).turns_since_reset == m.turns_since_reset + 1
                && m.step(a).room == e.room && m.step(a).deck == e.deck)
        }),
{
}

/// Every monster strength is positive, so the sum over a sequence is never
/// negative.
pub proof fn lemma_monster_sum_nonneg(s: Seq<Card>)
    ensures
        monster_sum(s) >= 0,
    decreases s.len(),
{
    if s.len() > 0 {
        lemma_monster_sum_nonneg(s.drop_last());
    }
}

/// A sequence that still holds a monster has a positive monster sum.
pub proof fn lemma_monster_sum_positive(s: Seq<Card>, i: int)
    requires
        0 <= i < s.len(),
        s[i].is_monster(),
    ensures
        monster_sum(s) > 0,
    decreases s.len(),
{
    lemma_monster_sum_nonneg(s.drop_last());
    if i < s.len() - 1 {
        lemma_monster_sum_positive(s.drop_last(), i);
    }
}

/// The terminal score is the health, hence positive, while the player is
/// alive; once the player is dead it is minus the summed strengths of the
/// monsters left in room and deck, hence never positive, and strictly
/// negative while any monster remains.
pub proof fn lemma_score_sign(m: GsModel)
    requires
        m.wf(),
    ensures
        m.player_health > 0 ==> m.score_spec() == m.player_health && m.score_spec() > 0,
        m.player_health == 0 ==> m.score_spec() == -monster_sum(m.room) - monster_sum(m.deck)
            && m.score_spec() <= 0,
        m.player_health == 0 && (exists|i: int|
            0 <= i < m.room.len() && (#[trigger] m.room[i]).is_monster()) ==> m.score_spec() < 0,
        m.player_health == 0 && (exists|i: int|
            0 <= i < m.deck.len() && (#[trigger] m.deck[i]).is_monster()) ==> m.score_spec() < 0,
{
    lemma_monster_sum_nonneg(m.room);
    lemma_monster_sum_nonneg(m.deck);
    if m.player_health == 0 {
        if exists|i: int| 0 <= i < m.room.len() && (#[trigger] m.room[i]).is_monster() {
            let i: int = choose|i: int| 0 <= i < m.room.len() && (#[trigger] m.room[i]).is_monster();
            lemma_monster_sum_positive(m.room, i);
        }
        if exists|i: int| 0 <= i < m.deck.len() && (#[trigger] m.deck[i]).is_monster() {
            let i: int = choose|i: int| 0 <= i < m.deck.len() && (#[trigger] m.deck[i]).is_monster();
            lemma_monster_sum_positive(m.deck, i);
        }
    }
}

} // verus!
