//! Composable primitives for sample-accurate audio: buffers and buses, a
//! statically composed signal graph, a polyphonic voice scheduler, and a
//! sample playback cursor.

pub mod buffer;
pub mod bus;
pub mod complex;
pub mod event;
pub mod graph;
pub mod player;
pub mod pool;
pub mod sample;
pub mod voices;

pub use buffer::{Buffer, RingBuffer};
pub use bus::{Bus, Channel};
pub use complex::{Complex, Wavetable, complex};
pub use event::{Event, Id, IdCounter, NoteMessage, name_to_num};
pub use graph::{
    AudioNode, Chain, Generator, Merge, Parallel, Processor, Series, Split, Switcher, TupleMerge, chain,
    generate_block, merge, parallel, process_block, split,
};
pub use player::{Interpolator, Linear, Loadable, SampleFile, SamplePlayer, grain_region};
pub use sample::{Sample, Stereo};
pub use voices::{NotePlayer, NotePlaying, NoteQueued, NoteState};
