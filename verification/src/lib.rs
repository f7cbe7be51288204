pub mod columns;
pub mod database;
pub mod event;
pub mod populators;
pub mod regexes;
pub mod search;
pub mod seed_files;
pub mod seed_json;
pub mod seed_parts;
pub mod text;
pub mod types;
