//! The decisions of the endif.tf game client: configuration, settings, the account and matchmaking
//! state machines, the menus, the netcode read-outs and the in-game bookkeeping. Everything here is
//! plain values in, plain values out; the windowing, rendering and network work happens around it.

pub mod account;
pub mod assets;
pub mod audio;
pub mod chance;
pub mod clock;
pub mod config;
pub mod copylink;
pub mod fruit;
pub mod fullscreen;
pub mod game;
pub mod hud;
pub mod icon;
pub mod json;
pub mod launch;
pub mod loading;
pub mod menu;
pub mod net;
pub mod netsim;
pub mod netstats;
pub mod numeral;
pub mod particles;
pub mod player_model;
pub mod render;
pub mod settings;
pub mod single;
pub mod text;
pub mod textfield;
pub mod theme;
pub mod update;
pub mod viewmodel;
pub mod warmup;
