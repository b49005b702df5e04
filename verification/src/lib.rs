pub mod cli;
pub mod clock;
pub mod node;
pub mod peer_id;
pub mod protocol;
pub mod queue;
pub mod starred;
pub mod text;

pub use crate::protocol::{NetworkCommand, NetworkEvent};
pub use crate::queue::{ClipboardItem, ClipboardQueue};
