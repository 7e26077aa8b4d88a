//! Parsing and record-identity queries for Bethesda game plugin files
//! (the `.esm`/`.esp`/`.esl` container family).

pub mod compress;
pub mod error;
pub mod game_id;
pub mod group;
pub mod order;
pub mod paths;
pub mod plugin;
pub mod reader;
pub mod record;
pub mod record_id;
pub mod subrecord;
pub mod text;
