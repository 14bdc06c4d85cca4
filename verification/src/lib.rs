//! Game logic of a top-view western sandbox shooter: the registry of network clients, the
//! handling of their messages, the introduction of new players, network IDs, behaviour trees
//! for computer-controlled characters, and smaller rules of the game.
pub mod address;
pub mod assets;
pub mod audio;
pub mod behavior_tree;
pub mod board;
pub mod client_flow;
pub mod client_registry;
pub mod config;
pub mod direction;
pub mod entity_delete;
pub mod events;
pub mod health;
pub mod introduction;
pub mod messenger;
pub mod movement;
pub mod network;
pub mod network_id;
pub mod size;
pub mod text;
