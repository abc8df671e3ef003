//! Loops, the slot grid and the player that walks it.

pub mod grid;
pub mod laws;
pub mod loops;
pub mod player;

pub use grid::GridModel;
pub use grid::PlaybackState;
pub use grid::SequenceGrid;
pub use grid::SequenceSlot;
pub use grid::SlotId;
pub use grid::SlotModel;
pub use loops::EventModel;
pub use loops::LoadError;
pub use loops::Loop;
pub use loops::LoopEvent;
pub use loops::LoopModel;
pub use player::EntryModel;
pub use player::PlayerModel;
pub use player::Sequence;
pub use player::SequenceEntry;
pub use player::SequencePlayer;
