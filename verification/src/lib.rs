//! A game-launcher core: it resolves versions out of a remote catalog,
//! plans the download and integrity check of a version's artifacts, unpacks
//! native libraries, and indexes installed roots with their versions, mods
//! and screenshots. Every decision the launcher takes lives here, stated in
//! contracts and proved; fetching, disk access and process spawning are the
//! caller's, fed by plain values and driven by the plans returned.

pub mod auth;
pub mod download;
pub mod extract;
pub mod library;
pub mod manifest;
pub mod minecraft_path;
pub mod registry;
pub mod text;
pub mod version;
