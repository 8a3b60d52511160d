use vstd::prelude::*;

pub mod text;
pub mod uspeech;
pub mod paths;
pub mod roms;
pub mod hardware;
pub mod bindings;
pub mod callflow;
pub mod disk;
pub mod cassette;
pub mod video_out;
pub mod tape;
pub mod sprites;
pub mod ram_map;
pub mod debugger;
pub mod session;
pub mod files;
pub mod quick;
pub mod back_buffer;
pub mod beam;
pub mod drives;
pub mod rewind;
pub mod keyboard;
pub mod stick;

verus! {

} // verus!
