//! Drives flip-dot and LED destination signs over an RS-485 bus: the Intel HEX frame codec,
//! the protocol messages, pages of pixels, the controller side of the protocol, and virtual
//! signs that implement the sign side in software.
use vstd::prelude::*;

pub mod errors;
pub mod frame;
pub mod message;
pub mod odk;
pub mod page;
pub mod serial;
pub mod sign;
pub mod sign_bus;
pub mod sign_type;
pub mod text;
pub mod virtual_sign_bus;

pub use frame::{Address, Data, Frame, FrameError, MsgType};
pub use message::{ChunkCount, Message, Offset, Operation, State};
pub use page::{Page, PageError, PageFlipStyle, PageId};
pub use sign::{Sign, SignError};
pub use sign_bus::{BusError, SignBus};
pub use sign_type::{SignType, SignTypeError};
pub use virtual_sign_bus::{VirtualSign, VirtualSignBus};

verus! {

} // verus!
