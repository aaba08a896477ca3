//! The parts that the views are made of.
pub mod branch_visual;
pub mod commit_detail;
pub mod commit_list;
pub mod commit_moves;
pub mod commit_row;
pub mod commit_table;
pub mod cursor;
pub mod highlight;
pub mod measure;
pub mod ref_list;
pub mod ref_tree;
pub mod search;
