//! Software development kit for the DreamBox console: the verified decoder
//! for RoQ video streams and the plain value types of the console's
//! interfaces.

pub mod audio;
pub mod clock;
pub mod gamepad;
pub mod io;
pub mod roq_player;
pub mod sounddriver;
pub mod vdp;
