//! The scrobbling core: percent-encoding, request parameters and their
//! signature, the request forms of each service call, the scrobble decision
//! engine, credential resolution with bounded retry, and the decisions of the
//! rotating log file.
pub mod text;
pub mod uri;
pub mod params;
pub mod lastfm;
pub mod media;
pub mod scrobble;
pub mod creds;
pub mod logging;
