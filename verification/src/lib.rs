//! Statistics of football teams, from a file of JSON lines to the rows of a
//! table.
//!
//! Each line of the input is one team with its scorers. A team gets its
//! total of goals, its top scorer, its best passer, its slogan and the date
//! of ingestion ([`domain`]), and is wrapped into a row
//! ([`team_stats_bq_row_mapper`]). The first line that fails ends the run:
//! there is no partial result.
//!
//! The library is verified with Verus. What it takes on trust of the crates
//! it calls stands in [`json`] (`serde_json`), in [`lines`] (UTF-8 decoding
//! of the standard library) and in [`domain::team_stats_structs`] (the date
//! type of `time`).
pub mod domain;
pub mod error;
pub mod json;
pub mod lines;
pub mod outcomes;
pub mod service;
pub mod slogans;
pub mod team_stats_bq_row_mapper;
pub mod utils;
