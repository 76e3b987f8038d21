pub mod arith;
pub mod base_item;
pub mod buff;
pub mod flags;
pub mod gem_data;
pub mod gemstats;
pub mod item;
pub mod modifier;
pub mod property;
pub mod slot;
pub mod stackvec;
pub mod stat_id;
pub mod text;
pub mod stat;

pub mod damage;
pub mod calc;
pub mod tree_data;
pub mod poe2_tree;
pub mod node_map;
pub mod tree;
pub mod tattoo;
pub mod cluster;
pub mod evaluator;
pub mod item_text;
pub mod item_round_trip;
pub mod bytes;
pub mod dat_schema;
pub mod datc64;
pub mod psg;
pub mod csd;
pub mod report;
pub mod outcome;
pub mod import;
pub mod extract;
pub mod gem;
pub mod history;
pub mod item_calc;
pub mod eval;
pub mod loadout;
pub mod cluster_jewel;
