//! Roku players and Roku TVs over ECP (External Control Protocol), HTTP on port 8060.
//!
//! ```text
//!   POST /keypress/<key>        Home Up Down Left Right Select Back Info Play Rev Fwd Search
//!                               VolumeUp VolumeDown VolumeMute Power PowerOn PowerOff
//!   POST /launch/<id>           open a channel, optionally ?contentId=..&mediaType=..
//!   POST /launch/tvinput.hdmi1  Roku TV: switch to an HDMI input
//!   GET  /query/apps            installed channels, as XML
//!   GET  /query/active-app      what is in the foreground
//!   GET  /query/device-info     what the box is, and whether it is on
//! ```
//!
//! There are two manifests: `roku.player` is a streamer, and `roku.tv` is a television with that
//! same streamer inside it. Nothing on the wire tells the two apart, so a setup asks the box
//! before it offers anything, and hands back whichever the box says it is.
//!
//! What the driver does stands in `command`, `event` and `setup`, each function with a contract
//! that says what it returns for every input; `laws` says what follows for the driver as a whole,
//! and `text_laws`, `command_laws`, `answer_laws` and `setup_laws` what each operation is for.
pub mod answer_laws;
pub mod carry;
pub mod channels;
pub mod command;
pub mod command_laws;
pub mod documents;
pub mod event;
pub mod host;
pub mod inputs;
pub mod json;
pub mod laws;
pub mod setup;
pub mod setup_laws;
pub mod text;
pub mod text_laws;
pub mod xml;

pub use xml::{parse_apps, tag};

use vstd::prelude::*;

verus! {

/// The driver of Roku players and Roku TVs. It keeps nothing itself: what it knows of a box
/// stands in the box's `Instance`, and where a setup stands in the setup's state.
#[derive(Debug, Clone, Copy)]
pub struct Roku;

impl Default for Roku {
    fn default() -> (r: Roku)
        ensures
            r == Roku,
    {
        Roku
    }
}

} // verus!
