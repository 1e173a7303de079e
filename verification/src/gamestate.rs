//! The rule engine: legal-action enumeration, action resolution and terminal
//! scoring, specified against a mathematical model (`GsModel`) of the whole
//! game state.

use vstd::prelude::*;
use vstd::multiset::Multiset;
use crate::card::{Card, Deck, Suit, min_int};

verus! {

broadcast use vstd::seq_lib::group_to_multiset_ensures, vstd::multiset::group_multiset_axioms;

/// The number of cards a freshly refilled room holds.
pub const ROOM_SIZE: usize = 4;

/// The player's starting and maximum health.
pub const MAX_HEALTH: u8 = 20;

/// The number of cards in the starting deck.
pub const DECK_SIZE: usize = 44;

#[derive(Debug, Copy, Clone, Eq, PartialEq, Structural)]
pub enum FightMode {
    Barehanded,
    WithWeapon,
}

#[derive(Debug, Copy, Clone, Eq, PartialEq, Structural)]
pub enum PlayerAction {
    Potion(usize),
    Weapon(usize),
    Fight { index: usize, mode: FightMode },
    Flee,
}

/// The larger of two integers.
pub open spec fn max_int(a: int, b: int) -> int {
    if a >= b {
        a
    } else {
        b
    }
}

/// The cards an equipped weapon contributes to the card count: one if a
/// weapon is present, none otherwise.
pub open spec fn opt_card_multiset(w: Option<Card>) -> Multiset<Card> {
    match w {
        Some(c) => Multiset::singleton(c),
        None => Multiset::empty(),
    }
}

/// Sum of the strengths of the monster (Clubs/Spades) cards in a sequence.
pub open spec fn monster_sum(s: Seq<Card>) -> int
    decreases s.len(),
{
    if s.len() == 0 {
        0
    } else {
        monster_sum(s.drop_last()) + if s.last().is_monster() {
            s.last().strength()
        } else {
            0
        }
    }
}

/// The mathematical model of a full game state. The deck and room are
/// ordered; the graveyard is an unordered sink, so it is a multiset.
#[verifier::ext_equal]
pub ghost struct GsModel {
    pub deck: Seq<Card>,
    pub graveyard: Multiset<Card>,
    pub room: Seq<Card>,
    pub weapon: Option<Card>,
    pub weapon_slain: Seq<Card>,
    pub player_health: int,
    pub history: Seq<PlayerAction>,
    pub turns_since_reset: int,
}

impl GsModel {
    /// Every card the state holds, across all five piles.
    pub open spec fn all_cards(self) -> Multiset<Card> {
        self.deck.to_multiset().add(self.room.to_multiset()).add(self.graveyard).add(
            opt_card_multiset(self.weapon),
        ).add(self.weapon_slain.to_multiset())
    }

    /// The state invariants: health within bounds, the room no larger than a
    /// refill leaves it, a kill history only under an equipped weapon, the
    /// turn window no longer than the history, and no more cards than the
    /// starting deck held.
    pub open spec fn wf(self) -> bool {
        &&& 0 <= self.player_health <= MAX_HEALTH as int
        &&& self.room.len() <= ROOM_SIZE as int
        &&& (self.weapon_slain.len() > 0 ==> self.weapon is Some)
        &&& 0 <= self.turns_since_reset <= self.history.len()
        &&& self.all_cards().len() <= DECK_SIZE as nat
    }

    /// Weapon durability: a weapon may fight a monster iff one is equipped
    /// and it has either drawn no blood yet or its last kill was at least as
    /// strong as the monster.
    pub open spec fn can_fight_with_weapon(self, monster: Card) -> bool {
        self.weapon is Some && (self.weapon_slain.len() == 0 || self.weapon_slain.last().strength()
            >= monster.strength())
    }

    pub open spec fn all_hearts(self) -> bool {
        forall|i: int| 0 <= i < self.room.len() ==> (#[trigger] self.room[i]).is_potion()
    }

    /// Where in the history the current room's actions begin.
    pub open spec fn window_start(self) -> int {
        if self.turns_since_reset <= self.history.len() {
            self.history.len() - self.turns_since_reset
        } else {
            0
        }
    }

    pub open spec fn potion_used_this_room(self) -> bool {
        exists|i: int|
            self.window_start() <= i < self.history.len() && (#[trigger] self.history[i]) is Potion
    }

    /// A potion is legal iff the room is entirely Hearts or no potion has
    /// been drunk since the room was last refilled.
    pub open spec fn can_use_potion(self) -> bool {
        self.all_hearts() || !self.potion_used_this_room()
    }

    /// Fleeing is legal iff the room is untouched (four cards) and the
    /// previous action was not itself a flee.
    pub open spec fn flee_legal(self) -> bool {
        self.room.len() == ROOM_SIZE as int && !(self.history.len() > 0
            && self.history.last() is Flee)
    }

    /// The legal actions a single room card contributes, by its position.
    pub open spec fn card_actions(self, i: int) -> Seq<PlayerAction> {
        let c = self.room[i];
        if c.is_monster() {
            seq![PlayerAction::Fight { index: i as usize, mode: FightMode::Barehanded }] + (
            if self.can_fight_with_weapon(c) {
                seq![PlayerAction::Fight { index: i as usize, mode: FightMode::WithWeapon }]
            } else {
                Seq::empty()
            })
        } else if c.is_potion() {
            if self.can_use_potion() {
                seq![PlayerAction::Potion(i as usize)]
            } else {
                Seq::empty()
            }
        } else {
            seq![PlayerAction::Weapon(i as usize)]
        }
    }

    /// The legal actions of the first `n` room cards, in room order.
    pub open spec fn room_actions_up_to(self, n: int) -> Seq<PlayerAction>
        decreases n,
    {
        if n <= 0 {
            Seq::empty()
        } else {
            self.room_actions_up_to(n - 1) + self.card_actions(n - 1)
        }
    }

    /// The full ordered legal-action list: each room card's actions in room
    /// order, then the flee action when it is legal.
    pub open spec fn legal_actions_spec(self) -> Seq<PlayerAction> {
        self.room_actions_up_to(self.room.len() as int) + (
        if self.flee_legal() {
            seq![PlayerAction::Flee]
        } else {
            Seq::empty()
        })
    }

    /// The structural precondition of resolution: any room position the
    /// action names lies within the current room.
    pub open spec fn action_in_bounds(self, a: PlayerAction) -> bool {
        match a {
            PlayerAction::Potion(i) => i < self.room.len(),
            PlayerAction::Weapon(i) => i < self.room.len(),
            PlayerAction::Fight { index, .. } => index < self.room.len(),
            PlayerAction::Flee => true,
        }
    }

    /// Drink the potion at room position `i`: health rises by its strength,
    /// capped at `MAX_HEALTH`, and the card goes to the graveyard.
    pub open spec fn after_potion(self, i: int) -> GsModel {
        let c = self.room[i];
        GsModel {
            room: self.room.remove(i),
            player_health: min_int(MAX_HEALTH as int, self.player_health + c.strength()),
            graveyard: self.graveyard.insert(c),
            ..self
        }
    }

    /// Equip the weapon at room position `i`: the previous weapon and its
    /// whole kill history go to the graveyard; the new weapon starts with an
    /// empty kill history.
    pub open spec fn after_weapon(self, i: int) -> GsModel {
        let c = self.room[i];
        GsModel {
            room: self.room.remove(i),
            graveyard: self.graveyard.add(self.weapon_slain.to_multiset()).add(
                opt_card_multiset(self.weapon),
            ),
            weapon: Some(c),
            weapon_slain: Seq::empty(),
            ..self
        }
    }

    /// Fight the monster at room position `i` barehanded: health drops by
    /// its full strength, floored at zero, and the card goes to the
    /// graveyard.
    pub open spec fn after_fight_barehanded(self, i: int) -> GsModel {
        let c = self.room[i];
        GsModel {
            room: self.room.remove(i),
            player_health: max_int(0, self.player_health - c.strength()),
            graveyard: self.graveyard.insert(c),
            ..self
        }
    }

    /// Fight the monster at room position `i` with the equipped weapon. If
    /// the durability condition no longer holds, the fight is barehanded.
    /// Otherwise damage is the monster's strength less the weapon's, floored
    /// at zero; a fatal blow zeroes health and sends monster, weapon and
    /// kill history to the graveyard, while a survivable one appends the
    /// monster to the kill history.
    pub open spec fn after_fight_with_weapon(self, i: int) -> GsModel {
        let c = self.room[i];
        if !self.can_fight_with_weapon(c) {
            self.after_fight_barehanded(i)
        } else {
            let w = self.weapon.unwrap();
            let damage = max_int(0, c.strength() - w.strength());
            if damage >= self.player_health {
                GsModel {
                    room: self.room.remove(i),
                    player_health: 0,
                    graveyard: self.graveyard.insert(c).add(self.weapon_slain.to_multiset()).insert(
                        w,
                    ),
                    weapon: None,
                    weapon_slain: Seq::empty(),
                    ..self
                }
            } else {
                GsModel {
                    room: self.room.remove(i),
                    player_health: self.player_health - damage,
                    weapon_slain: self.weapon_slain.push(c),
                    ..self
                }
            }
        }
    }

    /// Flee: the whole room re-enters the deck as one block at the bottom
    /// (the front), in room order, and the room empties.
    pub open spec fn after_flee(self) -> GsModel {
        GsModel { deck: self.room + self.deck, room: Seq::empty(), ..self }
    }

    /// The effect of one action on the piles, before the bookkeeping that
    /// every resolution shares (history, turn counter, refill).
    pub open spec fn apply_action(self, a: PlayerAction) -> GsModel {
        match a {
            PlayerAction::Potion(i) => self.after_potion(i as int),
            PlayerAction::Weapon(i) => self.after_weapon(i as int),
            PlayerAction::Fight { index, mode: FightMode::Barehanded } => {
                self.after_fight_barehanded(index as int)
            },
            PlayerAction::Fight { index, mode: FightMode::WithWeapon } => {
                self.after_fight_with_weapon(index as int)
            },
            PlayerAction::Flee => self.after_flee(),
        }
    }

    /// Top the room up to four cards, or to all the deck still holds,
    /// dealing from the deck's top end (the back).
    pub open spec fn after_refill(self) -> GsModel {
        let k: int = min_int(ROOM_SIZE as int - self.room.len(), self.deck.len() as int);
        GsModel {
            room: self.room + self.deck.skip(self.deck.len() - k),
            deck: self.deck.take(self.deck.len() - k),
            ..self
        }
    }

    /// One full resolution step: the action's effect, the history append and
    /// turn-counter increment, and — exactly when the room has dropped to
    /// one card or fewer — a refill with the counter reset to zero.
    pub open spec fn step(self, a: PlayerAction) -> GsModel {
        let e = self.apply_action(a);
        let h = GsModel {
            history: e.history.push(a),
            turns_since_reset: e.turns_since_reset + 1,
            ..e
        };
        if h.room.len() <= 1 {
            GsModel { turns_since_reset: 0, ..h.after_refill() }
        } else {
            h
        }
    }

    /// The state a run starts in: full health, everything empty but the
    /// given deck, and the room filled once.
    pub open spec fn initial(deck: Seq<Card>) -> GsModel {
        (GsModel {
            deck: deck,
            graveyard: Multiset::empty(),
            room: Seq::empty(),
            weapon: None,
            weapon_slain: Seq::empty(),
            player_health: MAX_HEALTH as int,
            history: Seq::empty(),
            turns_since_reset: 0,
        }).after_refill()
    }

    /// The run goes on iff the player is alive and both deck and room still
    /// hold cards.
    pub open spec fn is_ongoing_spec(self) -> bool {
        self.player_health > 0 && self.deck.len() > 0 && self.room.len() > 0
    }

    /// Terminal score: the remaining health while alive, else the negated
    /// summed strengths of every monster left in room and deck.
    pub open spec fn score_spec(self) -> int {
        if self.player_health > 0 {
            self.player_health
        } else {
            -monster_sum(self.room) - monster_sum(self.deck)
        }
    }
}

/// The engine owning one run's full state.
pub struct Gamestate {
    deck: Deck,
    graveyard: Vec<Card>,
    pub room: Vec<Card>,
    pub weapon: Option<Card>,
    pub weapon_slain: Vec<Card>,
    pub player_health: u8,
    pub history: Vec<PlayerAction>,
    turns_since_reset: usize,
}

/// Read-only snapshot of the state a renderer may see.
pub struct GameView<'a> {
    pub room: &'a [Card],
    pub weapon: Option<Card>,
    pub weapon_slain: &'a [Card],
    pub player_health: u8,
    pub deck_remaining: usize,
}

impl Gamestate {
    /// The mathematical model this engine currently represents.
    pub closed spec fn model(&self) -> GsModel {
        GsModel {
            deck: self.deck.cards@,
            graveyard: self.graveyard@.to_multiset(),
            room: self.room@,
            weapon: self.weapon,
            weapon_slain: self.weapon_slain@,
            player_health: self.player_health as int,
            history: self.history@,
            turns_since_reset: self.turns_since_reset as int,
        }
    }

    /// Build the engine from an already-shuffled deck and fill the room.
    pub fn new(deck: Deck) -> (g: Gamestate)
        requires
            deck.cards@.len() <= DECK_SIZE,
        ensures
            g.model() == GsModel::initial(deck.cards@),
            g.model().wf(),
    {
        let ghost deck0 = deck.cards@;
        let mut init = Gamestate {
            deck,
            graveyard: Vec::new(),
            room: Vec::new(),
            weapon: None,
            weapon_slain: Vec::new(),
            player_health: MAX_HEALTH,
            history: Vec::new(),
            turns_since_reset: 0,
        };
        proof {
            assert(init.model() =~= (GsModel {
                deck: deck0,
                graveyard: Multiset::empty(),
                room: Seq::empty(),
                weapon: None,
                weapon_slain: Seq::empty(),
                player_health: MAX_HEALTH as int,
                history: Seq::empty(),
                turns_since_reset: 0,
            }));
        }
        init.fill_room();
        proof {
            assert(init.model() =~= GsModel::initial(deck0));
            lemma_refill_preserves_cards(
                GsModel {
                    deck: deck0,
                    graveyard: Multiset::empty(),
                    room: Seq::empty(),
                    weapon: None,
                    weapon_slain: Seq::empty(),
                    player_health: MAX_HEALTH as int,
                    history: Seq::empty(),
                    turns_since_reset: 0,
                },
            );
        }
        init
    }

    /// A read-only snapshot for rendering.
    pub fn view<'a>(&'a self) -> (v: GameView<'a>)
        ensures
            v.room@ == self.model().room,
            v.weapon == self.model().weapon,
            v.weapon_slain@ == self.model().weapon_slain,
            v.player_health as int == self.model().player_health,
            v.deck_remaining == self.model().deck.len(),
    {
        GameView {
            room: self.room.as_slice(),
            weapon: self.weapon,
            weapon_slain: self.weapon_slain.as_slice(),
            player_health: self.player_health,
            deck_remaining: self.deck.len(),
        }
    }

    pub fn is_ongoing(&self) -> (b: bool)
        ensures
            b == self.model().is_ongoing_spec(),
    {
        self.is_alive() && !self.deck.is_empty() && !self.room.is_empty()
    }

    /// Enumerate the currently legal actions, in room order, flee last.
    pub fn legal_actions(&self) -> (actions: Vec<PlayerAction>)
        ensures
            actions@ == self.model().legal_actions_spec(),
    {
        let mut actions: Vec<PlayerAction> = Vec::new();
        let n: usize = self.room.len();
        let mut i: usize = 0;
        while i < n
            invariant
                i <= n,
                n == self.room@.len(),
                actions@ == self.model().room_actions_up_to(i as int),
            decreases n - i,
        {
            let card = self.room[i];
            match card.suit {
                Suit::Clubs | Suit::Spades => {
                    actions.push(PlayerAction::Fight { index: i, mode: FightMode::Barehanded });
                    if self.can_fight_with_weapon(&card) {
                        actions.push(PlayerAction::Fight { index: i, mode: FightMode::WithWeapon });
                    }
                },
                Suit::Hearts => {
                    if self.can_use_potion() {
                        actions.push(PlayerAction::Potion(i));
                    }
                },
                Suit::Diamonds => {
                    actions.push(PlayerAction::Weapon(i));
                },
            }
            proof {
                assert(actions@ =~= self.model().room_actions_up_to(i + 1));
            }
            i = i + 1;
        }
        let flee_ok = if self.history.len() > 0 {
            !matches!(self.history[self.history.len() - 1], PlayerAction::Flee)
        } else {
            true
        };
        if flee_ok && self.room.len() == ROOM_SIZE {
            actions.push(PlayerAction::Flee);
        }
        proof {
            assert(actions@ =~= self.model().legal_actions_spec());
        }
        actions
    }

    /// Resolve one action: apply its effect, log it, and refill the room
    /// when it has dropped to one card or fewer.
    pub fn resolve_action(&mut self, action: PlayerAction)
        requires
            old(self).model().wf(),
            old(self).model().action_in_bounds(action),
        ensures
            final(self).model() == old(self).model().step(action),
            final(self).model().wf(),
            final(self).model().all_cards() == old(self).model().all_cards(),
            final(self).model().history == old(self).model().history.push(action),
    {
        proof {
            crate::laws::lemma_step_preserves_invariants(old(self).model(), action);
        }
        match action {
            PlayerAction::Potion(index) => self.resolve_potion(index),
            PlayerAction::Weapon(index) => self.resolve_weapon(index),
            PlayerAction::Fight { index, mode } => match mode {
                FightMode::Barehanded => self.resolve_fight_barehanded(index),
                FightMode::WithWeapon => self.resolve_fight_with_weapon(index),
            },
            PlayerAction::Flee => self.resolve_flee(),
        }
        let ghost mid = self.model();
        proof {
            assert(mid =~= old(self).model().apply_action(action));
        }
        self.history.push(action);
        let hn: usize = self.history.len();
        proof {
            assert(self.turns_since_reset < hn);
        }
        self.turns_since_reset = self.turns_since_reset + 1;
        if self.room.len() <= 1 {
            self.fill_room();
            self.turns_since_reset = 0;
        }
        proof {
            assert(self.model() =~= old(self).model().step(action));
        }
    }

    /// Terminal score, per the rules: health while alive, else minus the
    /// summed strengths of the monsters left in room and deck.
    pub fn compute_score(&self) -> (score: isize)
        requires
            self.model().wf(),
        ensures
            score as int == self.model().score_spec(),
    {
        if self.is_alive() {
            return self.player_health as isize;
        }
        proof {
            lemma_all_cards_bounds(self.model());
        }
        let room_score = monster_strength_sum(&self.room);
        let deck_score = monster_strength_sum(&self.deck.cards);
        -deck_score - room_score
    }

    // Private helpers

    fn fill_room(&mut self)
        requires
            old(self).room@.len() <= ROOM_SIZE,
        ensures
            final(self).model() == old(self).model().after_refill(),
    {
        let space: usize = if self.room.len() >= ROOM_SIZE {
            0
        } else {
            ROOM_SIZE - self.room.len()
        };
        if space == 0 {
            proof {
                assert(self.model() =~= old(self).model().after_refill());
            }
            return;
        }
        let mut new_cards = self.deck.deal(space);
        self.room.append(&mut new_cards);
        proof {
            assert(self.model() =~= old(self).model().after_refill());
        }
    }

    fn take_damage(&mut self, amount: u8)
        ensures
            final(self).model() == (GsModel {
                player_health: max_int(0, old(self).model().player_health - amount as int),
                ..old(self).model()
            }),
    {
        self.player_health = if self.player_health <= amount {
            0
        } else {
            self.player_health - amount
        };
        proof {
            assert(self.model() =~= (GsModel {
                player_health: max_int(0, old(self).model().player_health - amount as int),
                ..old(self).model()
            }));
        }
    }

    fn is_alive(&self) -> (b: bool)
        ensures
            b == (self.model().player_health > 0),
    {
        self.player_health > 0
    }

    fn use_potion(&mut self, potion: Card)
        requires
            old(self).player_health <= MAX_HEALTH,
        ensures
            final(self).model() == (GsModel {
                player_health: min_int(
                    MAX_HEALTH as int,
                    old(self).model().player_health + potion.strength(),
                ),
                graveyard: old(self).model().graveyard.insert(potion),
                ..old(self).model()
            }),
    {
        let healed: u8 = self.player_health + potion.rank.value();
        self.player_health = if healed > MAX_HEALTH {
            MAX_HEALTH
        } else {
            healed
        };
        self.graveyard.push(potion);
        proof {
            assert(self.model() =~= (GsModel {
                player_health: min_int(
                    MAX_HEALTH as int,
                    old(self).model().player_health + potion.strength(),
                ),
                graveyard: old(self).model().graveyard.insert(potion),
                ..old(self).model()
            }));
        }
    }

    fn equip_weapon(&mut self, weapon: Card)
        ensures
            final(self).model() == (GsModel {
                graveyard: old(self).model().graveyard.add(
                    old(self).model().weapon_slain.to_multiset(),
                ).add(opt_card_multiset(old(self).model().weapon)),
                weapon: Some(weapon),
                weapon_slain: Seq::empty(),
                ..old(self).model()
            }),
    {
        let ghost pre = self.model();
        self.graveyard.append(&mut self.weapon_slain);
        if let Some(old_weapon) = self.weapon {
            self.graveyard.push(old_weapon);
        }
        self.weapon = Some(weapon);
        proof {
            vstd::seq_lib::lemma_multiset_commutative(
                old(self).graveyard@,
                old(self).weapon_slain@,
            );
            assert(self.model() =~= (GsModel {
                graveyard: pre.graveyard.add(pre.weapon_slain.to_multiset()).add(
                    opt_card_multiset(pre.weapon),
                ),
                weapon: Some(weapon),
                weapon_slain: Seq::empty(),
                ..pre
            }));
        }
    }

    fn can_fight_with_weapon(&self, monster: &Card) -> (b: bool)
        ensures
            b == self.model().can_fight_with_weapon(*monster),
    {
        if self.weapon.is_some() {
            if self.weapon_slain.len() > 0 {
                let slain = self.weapon_slain[self.weapon_slain.len() - 1];
                return slain.rank.value() >= monster.rank.value();
            }
            return true;
        }
        false
    }

    fn can_use_potion(&self) -> (b: bool)
        ensures
            b == self.model().can_use_potion(),
    {
        let n: usize = self.room.len();
        let mut all_hearts = true;
        let mut i: usize = 0;
        while i < n
            invariant
                i <= n,
                n == self.room@.len(),
                all_hearts == (forall|j: int|
                    0 <= j < i ==> (#[trigger] self.room@[j]).is_potion()),
            decreases n - i,
        {
            let hearts = matches!(self.room[i].suit, Suit::Hearts);
            all_hearts = all_hearts && hearts;
            i = i + 1;
        }
        if all_hearts {
            return true;
        }
        let hlen: usize = self.history.len();
        let start: usize = if self.turns_since_reset >= hlen {
            0
        } else {
            hlen - self.turns_since_reset
        };
        proof {
            assert(start as int == self.model().window_start());
        }
        let mut used = false;
        let mut j: usize = start;
        while j < hlen
            invariant
                start <= j <= hlen,
                hlen == self.history@.len(),
                used == (exists|k: int|
                    start <= k < j && (#[trigger] self.history@[k]) is Potion),
            decreases hlen - j,
        {
            if matches!(self.history[j], PlayerAction::Potion(_)) {
                used = true;
            }
            j = j + 1;
        }
        proof {
            assert(exists|j: int|
                0 <= j < self.room@.len() && !(#[trigger] self.room@[j]).is_potion());
            let j0: int = choose|j: int|
                0 <= j < self.room@.len() && !(#[trigger] self.room@[j]).is_potion();
            assert(!self.model().room[j0].is_potion());
            assert(!self.model().all_hearts());
        }
        !used
    }

    // Resolution helpers

    fn resolve_potion(&mut self, index: usize)
        requires
            index < old(self).room@.len(),
            old(self).player_health <= MAX_HEALTH,
        ensures
            final(self).model() == old(self).model().after_potion(index as int),
    {
        let card = self.room.remove(index);
        self.use_potion(card);
        proof {
            assert(self.model() =~= old(self).model().after_potion(index as int));
        }
    }

    fn resolve_weapon(&mut self, index: usize)
        requires
            index < old(self).room@.len(),
        ensures
            final(self).model() == old(self).model().after_weapon(index as int),
    {
        let card = self.room.remove(index);
        self.equip_weapon(card);
        proof {
            assert(self.model() =~= old(self).model().after_weapon(index as int));
        }
    }

    fn resolve_fight_barehanded(&mut self, index: usize)
        requires
            index < old(self).room@.len(),
        ensures
            final(self).model() == old(self).model().after_fight_barehanded(index as int),
    {
        let card = self.room.remove(index);
        self.take_damage(card.rank.value());
        self.graveyard.push(card);
        proof {
            assert(self.model() =~= old(self).model().after_fight_barehanded(index as int));
        }
    }

    fn resolve_fight_with_weapon(&mut self, index: usize)
        requires
            index < old(self).room@.len(),
        ensures
            final(self).model() == old(self).model().after_fight_with_weapon(index as int),
    {
        let card = self.room.remove(index);
        // The durability condition is re-checked at resolution time; when it
        // fails, the fight falls back to barehanded.
        if !self.can_fight_with_weapon(&card) {
            self.take_damage(card.rank.value());
            self.graveyard.push(card);
            proof {
                assert(self.model() =~= old(self).model().after_fight_barehanded(index as int));
            }
            return;
        }
        let weapon = self.weapon.unwrap();
        let monster_strength = card.rank.value();
        let weapon_strength = weapon.rank.value();
        let damage = if monster_strength >= weapon_strength {
            monster_strength - weapon_strength
        } else {
            0
        };
        if damage >= self.player_health {
            // The fatal blow destroys the weapon along with the run.
            self.player_health = 0;
            self.graveyard.push(card);
            self.graveyard.append(&mut self.weapon_slain);
            self.graveyard.push(weapon);
            self.weapon = None;
            proof {
                vstd::seq_lib::lemma_multiset_commutative(
                    old(self).graveyard@.push(card),
                    old(self).weapon_slain@,
                );
                assert(self.model() =~= old(self).model().after_fight_with_weapon(index as int));
            }
        } else {
            self.take_damage(damage);
            self.weapon_slain.push(card);
            proof {
                assert(self.model() =~= old(self).model().after_fight_with_weapon(index as int));
            }
        }
    }

    fn resolve_flee(&mut self)
        ensures
            final(self).model() == old(self).model().after_flee(),
    {
        let mut new_deck: Vec<Card> = Vec::new();
        new_deck.append(&mut self.room);
        new_deck.append(&mut self.deck.cards);
        self.deck.cards = new_deck;
        proof {
            assert(self.model() =~= old(self).model().after_flee());
        }
    }
}

/// Refilling the room only moves cards from the deck: the state's cards are
/// unchanged as a multiset, and the room never exceeds its full size.
pub proof fn lemma_refill_preserves_cards(m: GsModel)
    requires
        m.room.len() <= ROOM_SIZE as nat,
    ensures
        m.after_refill().all_cards() == m.all_cards(),
        m.after_refill().room.len() <= ROOM_SIZE as nat,
{
    let k: int = min_int(ROOM_SIZE as int - m.room.len(), m.deck.len() as int);
    let cut: int = m.deck.len() - k;
    assert(m.deck =~= m.deck.take(cut) + m.deck.skip(cut));
    vstd::seq_lib::lemma_multiset_commutative(m.deck.take(cut), m.deck.skip(cut));
    vstd::seq_lib::lemma_multiset_commutative(m.room, m.deck.skip(cut));
    assert(m.after_refill().all_cards() =~= m.all_cards());
}

/// In a well-formed state neither the deck nor the room can hold more cards
/// than the state holds in all.
pub proof fn lemma_all_cards_bounds(m: GsModel)
    requires
        m.wf(),
    ensures
        m.deck.len() <= DECK_SIZE as nat,
        m.room.len() <= ROOM_SIZE as nat,
{
}

fn monster_strength_sum(cards: &Vec<Card>) -> (s: isize)
    requires
        cards@.len() <= DECK_SIZE,
    ensures
        s as int == monster_sum(cards@),
        0 <= s <= 14 * cards@.len(),
{
    let n: usize = cards.len();
    let mut s: isize = 0;
    let mut i: usize = 0;
    while i < n
        invariant
            i <= n,
            n == cards@.len() <= DECK_SIZE,
            s as int == monster_sum(cards@.take(i as int)),
            0 <= s <= 14 * i,
        decreases n - i,
    {
        let c = cards[i];
        proof {
            assert(cards@.take(i + 1).drop_last() =~= cards@.take(i as int));
            assert(cards@.take(i + 1).last() == cards@[i as int]);
        }
        if matches!(c.suit, Suit::Clubs | Suit::Spades) {
            s = s + c.rank.value() as isize;
        }
        i = i + 1;
    }
    proof {
        assert(cards@.take(n as int) =~= cards@);
    }
    s
}

} // verus!
