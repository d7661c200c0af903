//! The simulation core of a toppling-pieces puzzle: carrying pieces around,
//! tracking how each piece topples, deciding how a level ends and choosing
//! what the camera follows.
pub mod arena;
pub mod body;
pub mod camera;
pub mod contacts;
pub mod fixed;
pub mod game;
pub mod hold_breaking;
pub mod hold_forces;
pub mod hold_invariants;
pub mod immobile_timer;
pub mod invariants;
pub mod picking_up;
pub mod pipeline;
pub mod player;
pub mod player_controls;
pub mod topple_detection;
pub mod world;
