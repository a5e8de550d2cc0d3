//! Verified core of the animecix desktop client: session and cookie
//! handling, request signing, history bookkeeping, playback supervision
//! decisions and the small text formats the user interface shows.

pub mod playback;
pub mod text;
pub mod shortcuts;
pub mod xeh;
pub mod json;
pub mod session;
pub mod account;
pub mod history;
pub mod media;
pub mod installer;
pub mod mpv;
pub mod supervisor;
pub mod embedded;
pub mod views;
pub mod home;
pub mod cinema;
pub mod settings;
pub mod info;
pub mod episodes;
pub mod discover;
