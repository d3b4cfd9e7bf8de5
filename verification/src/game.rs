pub mod domain;
pub mod labels;
pub mod location;
pub mod item;
pub mod inventory_service;
pub mod input_handle_items;
pub mod obj;
pub mod room;
pub mod mob;
pub mod equip;
pub mod comm;
pub mod actions;
pub mod outputs;
pub mod container;
pub mod config;
pub mod builder;
pub mod prices;
pub mod actions_items;
pub mod actions_vendor;
pub mod player;
pub mod avatars;
pub mod astro_bodies;
pub mod hire;
pub mod extractable;
pub mod ai;
pub mod actions_hire;
pub mod corpse;
pub mod actions_command;
pub mod loader;
pub mod actions_ships;
pub mod combat;
