//! Simulation core of a turn-based orb-combat game.
//!
//! Players merge and split circular game objects ("orbs") during a
//! preparation phase, then watch them duel sequentially against enemy orbs
//! during a combat phase. This crate is the game-state and combat-resolution
//! engine: the orb data model (`orb`), the level director (`levels`), the
//! pointer-driven selection, drag and merge/split engine (`select`), the
//! spatial repulsion that keeps orbs from overlapping (`repel`), and the
//! phase/step state machine that resolves sequential duels (`combat`).
//!
//! Rendering, window and camera management and raw input handling are
//! external collaborators: the engine consumes an already-projected pointer
//! world position and button states, and exposes plain data (positions,
//! stats, selection, presentation values) for a presentation layer to read.
//!
//! One simulation tick runs, in order: the level director processes a
//! pending change-level request (`levels::process_pending`), the
//! preparation controller reads the pointer and updates selection, drag,
//! merge/split, feedback and repulsion (`select::update`), and the combat
//! resolver advances its state machine (`combat::combat_update`); the
//! dedicated phase-toggle action is `levels::switch_phase`.
//!
//! All geometry is carried in fixed-point milli-units: 1000 milli-units are
//! one world unit. Every contract is stated over these integers.

pub mod combat;
pub mod levels;
pub mod orb;
pub mod repel;
pub mod select;
pub mod state;
