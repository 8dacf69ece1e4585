//! Scoring and turn-progression logic for the dice game Farkle.
//!
//! The library is organised leaf-first: counting die values, classifying
//! scoring combinations, computing a score for a kept dice set, selecting
//! kept dice from a roll, and the round state machine that accumulates
//! turn scores until the player banks or busts.

pub mod classify;
pub mod counting;
pub mod dice;
pub mod game;
pub mod input;
pub mod score;

pub use classify::is_of_a_kind;
pub use classify::is_straight;
pub use classify::is_three_pair;
pub use classify::is_two_triplets;
pub use classify::keep_repeats;
pub use classify::strip_repeats;
pub use counting::count_dice;
pub use counting::DiceCounts;
pub use game::roll_dice;
pub use game::round_step;
pub use game::RoundState;
pub use game::RoundStep;
pub use input::keep_dice;
pub use input::parse_bank_input;
pub use input::parse_keep_selection;
pub use input::BankCommand;
pub use input::KeepCommand;
pub use score::get_score;
pub use score::try_get_score;
pub use score::FarkleError;
