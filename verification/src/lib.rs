//! Verified core of the Sanzu remote desktop: wire framing, image header
//! parsing, colour space conversions, key code tables, codec option
//! handling, the decisions taken by the authentication exchanges, and the
//! rounds of the client and server main loops (the events each side reads,
//! the messages it sends, and what it does with those it receives).

pub mod byte_order;
pub mod proto;
pub mod yuv;
pub mod keycodes;
pub mod utils;
pub mod keyed;
pub mod config;
pub mod broker;
pub mod timing;
pub mod video_decoder;
pub mod video_encoder;
pub mod auth;
pub mod session;
pub mod client_input;
pub mod sound;
pub mod notifications;
pub mod areas;
pub mod win_input;
pub mod osd;
pub mod certs;
pub mod key_codes;
pub mod client_events;
pub mod video_modes;
pub mod client_poll;
pub mod win_events;
pub mod frame_chunks;
pub mod client_round;
pub mod text;
pub mod win_cursor;
pub mod clipboard;
pub mod printing;
pub mod area_table;
pub mod yuv_laws;
