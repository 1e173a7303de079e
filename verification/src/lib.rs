//! Rule engine for a single-player dungeon-crawl card game played with a
//! 44-card deck: rooms of up to four face-up cards present monsters to
//! fight, potions to drink and weapons to equip, until the player dies or
//! the deck and room run out. Every rule is stated as a contract over a
//! mathematical model of the game state and proved.

pub mod card;
pub mod gamestate;
pub mod laws;
