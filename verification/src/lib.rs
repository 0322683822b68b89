//! Rise of Nations leader, terrain and checksum subsystems.
pub mod checksum;
pub mod leader_production_ai;
pub mod map_terrain;
pub mod leader_tribe_bonus_runtime;
pub mod leader_production_setup_runtime;
pub mod leaders_end_process_step17;
pub mod leaders_process_event_frame_step19;
pub mod leader_unit_think_pending;
pub mod leaders;
pub mod leader_set_diplo;
pub mod leaders_diplomacy_opening_frontier;
pub mod leader_strategy_runtime;
pub mod lifecycle_opcode_cohort;
pub mod leader_tech_sync;
