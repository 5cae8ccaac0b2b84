pub mod aggregates;
pub mod team_stats_mapper;
pub mod team_stats_structs;
pub mod wire_format;
