//! A casual painting mini-game core: a player paints over a canvas with a
//! randomized multi-rectangle brush, is scored against a hidden target image,
//! and may submit the score plus a rendering of the brush to a remote
//! leaderboard service, later viewing ranked results.
//!
//! The crate holds the raster painting and scoring engine, the caller-side
//! state machine of the asynchronous communication bridge, the wire-record
//! assembly, and the leaderboard ranking. The presentation loop and the
//! network transport drive these from outside.

pub mod b64;
pub mod brush;
pub mod canvas;
pub mod comm;
pub mod game_state;
pub mod leaderboard;
pub mod painting;
pub mod results;
pub mod scoring;
