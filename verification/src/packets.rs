//! The three packet families of the protocol, with their wire codecs.

pub mod command;
pub mod communication;
pub mod instruction;

pub use command::{Command, CommandResponse};
pub use communication::{
    Communication, CommunicationResponse, FrcConnectResponse, FrcDisconnectResponse,
    FrcSystemFault,
};
pub use instruction::{Instruction, InstructionResponse};
pub use crate::wire::OnOff;
