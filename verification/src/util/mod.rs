pub mod path_map;
pub mod sorted_map;
pub mod text;
