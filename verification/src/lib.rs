pub mod data_map;
pub mod data_set;
pub mod edit;
pub mod event;
pub mod handler;
pub mod ifc_relations_map;
pub mod ifc_utils;
pub mod schema;
pub mod shells;
