//! Deck-recommendation pool builder: masterdata and player data in, a dense
//! candidate pool and the search context out.

pub mod types;
pub mod text;
pub mod data;
pub mod error;
pub mod validate;
pub mod card_config;
pub mod event_bonus;
pub mod pool;
pub mod prune;
pub mod order;
pub mod filter;
pub mod capacity;
pub mod skill;
pub mod index;
pub mod power;
pub mod music;
pub mod owned;
pub mod masterdata;
pub mod gather;
pub mod support;
pub mod pipeline;
pub mod properties;
pub mod card_laws;
pub mod json;
pub mod request;
