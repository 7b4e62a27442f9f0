pub mod chars;
pub mod palette16;
pub mod color_names;
pub mod color;
pub mod tags;
pub mod markup;
pub mod telnet_color;
pub mod web_color;
pub mod ws;
pub mod text;
pub mod engine;
pub mod client;
pub mod login;
pub mod update_password;
pub mod types;
pub mod object;
pub mod ids;
pub mod scripts;
pub mod persist;
pub mod script_api;
pub mod web;
pub mod session;
pub mod harness;
pub mod rows;
pub mod clients;
pub mod fsm;
pub mod commands;
pub mod actions;
pub mod npc;
pub mod targeting;
pub mod observe;
pub mod timing;
pub mod items;
pub mod attaching;
pub mod rooms;
pub mod room_admin;
pub mod movement;
pub mod object_admin;
pub mod places;
