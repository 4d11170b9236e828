//! Client-side driver core for an industrial robot controller's remote
//! motion interface (RMI): a line-oriented, JSON-framed TCP protocol.
//!
//! This crate holds the protocol logic itself — the packet model, the wire
//! codec, the framing discipline, the connection-handshake state machine,
//! the request/response correlator and the driver facade — all verified.
//! The I/O loop that moves the resulting bytes over a socket lives outside
//! the library and only performs the actions the state machines decide.

use vstd::prelude::*;

/// Fixed-point stand-in for the controller's fractional wire values.
pub use crate::num::Dec;

use crate::packets::{Command, Communication, Instruction};

pub mod json;
pub mod keys;
pub mod wire;
pub mod codec;
pub mod commands;
pub mod drivers;
pub mod instructions;
pub mod num;
pub mod packets;

verus! {

/// Robot arm posture flags disambiguating inverse-kinematic solutions,
/// attached to every motion instruction.
#[derive(Debug, Clone, Copy, PartialEq, Eq, Structural)]
pub struct Configuration {
    pub u_tool_number: u8,
    pub u_frame_number: u8,
    pub front: u8,
    pub up: u8,
    pub left: u8,
    pub glip: u8,
    pub turn4: u8,
    pub turn5: u8,
    pub turn6: u8,
}

/// Unit for a motion's speed value.
#[derive(Debug, Clone, Copy, PartialEq, Eq, Structural)]
pub enum SpeedType {
    /// Millimeters per second.
    MMSec,
    /// Inches per minute.
    InchMin,
    /// Time in 0.1 second increments.
    Time,
    /// Time in milliseconds.
    MilliSeconds,
}

/// Termination/blending mode at the end of a move.
#[derive(Debug, Clone, Copy, PartialEq, Eq, Structural)]
pub enum TermType {
    /// Exact stop.
    FINE,
    /// Continuous blend with a value from 1 to 100.
    CNT,
    /// Continuous blend (circular) with a value from 1 to 100.
    CR,
}


/// Cartesian target: six pose coordinates plus three external axes.
#[derive(Debug, Clone, Copy, PartialEq, Eq, Structural)]
pub struct Position {
    pub x: Dec,
    pub y: Dec,
    pub z: Dec,
    pub w: Dec,
    pub p: Dec,
    pub r: Dec,
    pub ext1: Dec,
    pub ext2: Dec,
    pub ext3: Dec,
}

/// Joint-space target: one angle per controllable joint, with up to three
/// auxiliary axes.
#[derive(Debug, Clone, Copy, PartialEq, Eq, Structural)]
pub struct JointAngles {
    pub j1: Dec,
    pub j2: Dec,
    pub j3: Dec,
    pub j4: Dec,
    pub j5: Dec,
    pub j6: Dec,
    pub j7: Dec,
    pub j8: Dec,
    pub j9: Dec,
}

/// A user frame or tool offset pose.
#[derive(Debug, Clone, Copy, PartialEq, Eq, Structural)]
pub struct FrameData {
    pub x: Dec,
    pub y: Dec,
    pub z: Dec,
    pub w: Dec,
    pub p: Dec,
    pub r: Dec,
}

/// Driver-level failures, distinct from controller fault codes.
#[derive(Debug, Clone, PartialEq, Eq)]
pub enum FrcError {
    /// A packet failed to encode or decode; carries the operation's name.
    Serialization(String),
    /// A deserialized discriminant matching no known variant.
    UnrecognizedPacket,
    /// A nonzero controller fault, resolved through the code table.
    FanucErrorCode(FanucErrorCode),
    /// A send failed; carries the underlying cause text.
    FailedToSend(String),
    /// A receive failed; carries the underlying cause text.
    FailedToRecieve(String),
    /// The peer closed the stream, or no session was ever established.
    Disconnected(),
    /// The handshake response carried no usable session port.
    InvalidHandshake(String),
}

/// The controller's closed fault-code table.
#[derive(Debug, Clone, Copy, PartialEq, Eq, Structural)]
pub enum FanucErrorCode {
    InternalSystemError,
    InvalidUToolNumber,
    InvalidUFrameNumber,
    InvalidPositionRegister,
    InvalidSpeedOverride,
    CannotExecuteTPProgram,
    ControllerServoOff,
    CannotExecuteTPProgramDuplicate,
    RMINotRunning,
    TPProgramNotPaused,
    CannotResumeTPProgram,
    CannotResetController,
    InvalidRMICommand,
    RMICommandFail,
    InvalidControllerState,
    PleaseCyclePower,
    InvalidPayloadSchedule,
    InvalidMotionOption,
    InvalidVisionRegister,
    InvalidRMIInstruction,
    InvalidValue,
    InvalidTextString,
    InvalidPositionData,
    RMIInHoldState,
    RemoteDeviceDisconnected,
    RobotAlreadyConnected,
    WaitForCommandDone,
    WaitForInstructionDone,
    InvalidSequenceIDNumber,
    InvalidSpeedType,
    InvalidSpeedValue,
    InvalidTermType,
    InvalidTermValue,
    InvalidLCBPortType,
    InvalidACCValue,
    InvalidDestinationPosition,
    InvalidVIAPosition,
    InvalidPortNumber,
    InvalidGroupNumber,
    InvalidGroupMask,
    JointMotionWithCOORD,
    IncrementalMotionWithCOORD,
    RobotInSingleStepMode,
    InvalidPositionDataType,
    ReadyForASCIIPacket,
    ASCIIConversionFailed,
    InvalidASCIIInstruction,
    InvalidNumberOfGroups,
    InvalidInstructionPacket,
    InvalidASCIIStringPacket,
    InvalidASCIIStringSize,
    InvalidApplicationTool,
    InvalidCallProgramName,
    UnrecognizedFrcError,
}

impl FanucErrorCode {
    /// The numeric code the controller uses for this fault.
    pub open spec fn spec_code(self) -> u32 {
        match self {
            FanucErrorCode::InternalSystemError => 2556929,
            FanucErrorCode::InvalidUToolNumber => 2556930,
            FanucErrorCode::InvalidUFrameNumber => 2556931,
            FanucErrorCode::InvalidPositionRegister => 2556932,
            FanucErrorCode::InvalidSpeedOverride => 2556933,
            FanucErrorCode::CannotExecuteTPProgram => 2556934,
            FanucErrorCode::ControllerServoOff => 2556935,
            FanucErrorCode::CannotExecuteTPProgramDuplicate => 2556936,
            FanucErrorCode::RMINotRunning => 2556937,
            FanucErrorCode::TPProgramNotPaused => 2556938,
            FanucErrorCode::CannotResumeTPProgram => 2556939,
            FanucErrorCode::CannotResetController => 2556940,
            FanucErrorCode::InvalidRMICommand => 2556941,
            FanucErrorCode::RMICommandFail => 2556942,
            FanucErrorCode::InvalidControllerState => 2556943,
            FanucErrorCode::PleaseCyclePower => 2556944,
            FanucErrorCode::InvalidPayloadSchedule => 2556945,
            FanucErrorCode::InvalidMotionOption => 2556946,
            FanucErrorCode::InvalidVisionRegister => 2556947,
            FanucErrorCode::InvalidRMIInstruction => 2556948,
            FanucErrorCode::InvalidValue => 2556949,
            FanucErrorCode::InvalidTextString => 2556950,
            FanucErrorCode::InvalidPositionData => 2556951,
            FanucErrorCode::RMIInHoldState => 2556952,
            FanucErrorCode::RemoteDeviceDisconnected => 2556953,
            FanucErrorCode::RobotAlreadyConnected => 2556954,
            FanucErrorCode::WaitForCommandDone => 2556955,
            FanucErrorCode::WaitForInstructionDone => 2556956,
            FanucErrorCode::InvalidSequenceIDNumber => 2556957,
            FanucErrorCode::InvalidSpeedType => 2556958,
            FanucErrorCode::InvalidSpeedValue => 2556959,
            FanucErrorCode::InvalidTermType => 2556960,
            FanucErrorCode::InvalidTermValue => 2556961,
            FanucErrorCode::InvalidLCBPortType => 2556962,
            FanucErrorCode::InvalidACCValue => 2556963,
            FanucErrorCode::InvalidDestinationPosition => 2556964,
            FanucErrorCode::InvalidVIAPosition => 2556965,
            FanucErrorCode::InvalidPortNumber => 2556966,
            FanucErrorCode::InvalidGroupNumber => 2556967,
            FanucErrorCode::InvalidGroupMask => 2556968,
            FanucErrorCode::JointMotionWithCOORD => 2556969,
            FanucErrorCode::IncrementalMotionWithCOORD => 2556970,
            FanucErrorCode::RobotInSingleStepMode => 2556971,
            FanucErrorCode::InvalidPositionDataType => 2556972,
            FanucErrorCode::ReadyForASCIIPacket => 2556973,
            FanucErrorCode::ASCIIConversionFailed => 2556974,
            FanucErrorCode::InvalidASCIIInstruction => 2556975,
            FanucErrorCode::InvalidNumberOfGroups => 2556976,
            FanucErrorCode::InvalidInstructionPacket => 2556977,
            FanucErrorCode::InvalidASCIIStringPacket => 2556978,
            FanucErrorCode::InvalidASCIIStringSize => 2556979,
            FanucErrorCode::InvalidApplicationTool => 2556980,
            FanucErrorCode::InvalidCallProgramName => 2556981,
            FanucErrorCode::UnrecognizedFrcError => 0,
        }
    }

    /// The fault named by `c`; any number outside the table is the
    /// explicit unrecognized fallback, never an error.
    pub open spec fn spec_from_code(c: u32) -> FanucErrorCode {
        if c == 2556929 {
            FanucErrorCode::InternalSystemError
        } else if c == 2556930 {
            FanucErrorCode::InvalidUToolNumber
        } else if c == 2556931 {
            FanucErrorCode::InvalidUFrameNumber
        } else if c == 2556932 {
            FanucErrorCode::InvalidPositionRegister
        } else if c == 2556933 {
            FanucErrorCode::InvalidSpeedOverride
        } else if c == 2556934 {
            FanucErrorCode::CannotExecuteTPProgram
        } else if c == 2556935 {
            FanucErrorCode::ControllerServoOff
        } else if c == 2556936 {
            FanucErrorCode::CannotExecuteTPProgramDuplicate
        } else if c == 2556937 {
            FanucErrorCode::RMINotRunning
        } else if c == 2556938 {
            FanucErrorCode::TPProgramNotPaused
        } else if c == 2556939 {
            FanucErrorCode::CannotResumeTPProgram
        } else if c == 2556940 {
            FanucErrorCode::CannotResetController
        } else if c == 2556941 {
            FanucErrorCode::InvalidRMICommand
        } else if c == 2556942 {
            FanucErrorCode::RMICommandFail
        } else if c == 2556943 {
            FanucErrorCode::InvalidControllerState
        } else if c == 2556944 {
            FanucErrorCode::PleaseCyclePower
        } else if c == 2556945 {
            FanucErrorCode::InvalidPayloadSchedule
        } else if c == 2556946 {
            FanucErrorCode::InvalidMotionOption
        } else if c == 2556947 {
            FanucErrorCode::InvalidVisionRegister
        } else if c == 2556948 {
            FanucErrorCode::InvalidRMIInstruction
        } else if c == 2556949 {
            FanucErrorCode::InvalidValue
        } else if c == 2556950 {
            FanucErrorCode::InvalidTextString
        } else if c == 2556951 {
            FanucErrorCode::InvalidPositionData
        } else if c == 2556952 {
            FanucErrorCode::RMIInHoldState
        } else if c == 2556953 {
            FanucErrorCode::RemoteDeviceDisconnected
        } else if c == 2556954 {
            FanucErrorCode::RobotAlreadyConnected
        } else if c == 2556955 {
            FanucErrorCode::WaitForCommandDone
        } else if c == 2556956 {
            FanucErrorCode::WaitForInstructionDone
        } else if c == 2556957 {
            FanucErrorCode::InvalidSequenceIDNumber
        } else if c == 2556958 {
            FanucErrorCode::InvalidSpeedType
        } else if c == 2556959 {
            FanucErrorCode::InvalidSpeedValue
        } else if c == 2556960 {
            FanucErrorCode::InvalidTermType
        } else if c == 2556961 {
            FanucErrorCode::InvalidTermValue
        } else if c == 2556962 {
            FanucErrorCode::InvalidLCBPortType
        } else if c == 2556963 {
            FanucErrorCode::InvalidACCValue
        } else if c == 2556964 {
            FanucErrorCode::InvalidDestinationPosition
        } else if c == 2556965 {
            FanucErrorCode::InvalidVIAPosition
        } else if c == 2556966 {
            FanucErrorCode::InvalidPortNumber
        } else if c == 2556967 {
            FanucErrorCode::InvalidGroupNumber
        } else if c == 2556968 {
            FanucErrorCode::InvalidGroupMask
        } else if c == 2556969 {
            FanucErrorCode::JointMotionWithCOORD
        } else if c == 2556970 {
            FanucErrorCode::IncrementalMotionWithCOORD
        } else if c == 2556971 {
            FanucErrorCode::RobotInSingleStepMode
        } else if c == 2556972 {
            FanucErrorCode::InvalidPositionDataType
        } else if c == 2556973 {
            FanucErrorCode::ReadyForASCIIPacket
        } else if c == 2556974 {
            FanucErrorCode::ASCIIConversionFailed
        } else if c == 2556975 {
            FanucErrorCode::InvalidASCIIInstruction
        } else if c == 2556976 {
            FanucErrorCode::InvalidNumberOfGroups
        } else if c == 2556977 {
            FanucErrorCode::InvalidInstructionPacket
        } else if c == 2556978 {
            FanucErrorCode::InvalidASCIIStringPacket
        } else if c == 2556979 {
            FanucErrorCode::InvalidASCIIStringSize
        } else if c == 2556980 {
            FanucErrorCode::InvalidApplicationTool
        } else if c == 2556981 {
            FanucErrorCode::InvalidCallProgramName
        } else {
            FanucErrorCode::UnrecognizedFrcError
        }
    }

    pub open spec fn spec_message(self) -> Seq<char> {
        match self {
            FanucErrorCode::InternalSystemError => "Internal System Error."@,
            FanucErrorCode::InvalidUToolNumber => "Invalid UTool Number."@,
            FanucErrorCode::InvalidUFrameNumber => "Invalid UFrame Number."@,
            FanucErrorCode::InvalidPositionRegister => "Invalid Position Register."@,
            FanucErrorCode::InvalidSpeedOverride => "Invalid Speed Override."@,
            FanucErrorCode::CannotExecuteTPProgram => "Cannot Execute TP program."@,
            FanucErrorCode::ControllerServoOff => "Controller Servo is Off."@,
            FanucErrorCode::CannotExecuteTPProgramDuplicate => "Cannot Execute TP program."@,
            FanucErrorCode::RMINotRunning => "RMI is Not Running."@,
            FanucErrorCode::TPProgramNotPaused => "TP Program is Not Paused."@,
            FanucErrorCode::CannotResumeTPProgram => "Cannot Resume TP Program."@,
            FanucErrorCode::CannotResetController => "Cannot Reset Controller."@,
            FanucErrorCode::InvalidRMICommand => "Invalid RMI Command."@,
            FanucErrorCode::RMICommandFail => "RMI Command Fail."@,
            FanucErrorCode::InvalidControllerState => "Invalid Controller State."@,
            FanucErrorCode::PleaseCyclePower => "Please Cycle Power."@,
            FanucErrorCode::InvalidPayloadSchedule => "Invalid Payload Schedule."@,
            FanucErrorCode::InvalidMotionOption => "Invalid Motion Option."@,
            FanucErrorCode::InvalidVisionRegister => "Invalid Vision Register."@,
            FanucErrorCode::InvalidRMIInstruction => "Invalid RMI Instruction."@,
            FanucErrorCode::InvalidValue => "Invalid Value."@,
            FanucErrorCode::InvalidTextString => "Invalid Text String."@,
            FanucErrorCode::InvalidPositionData => "Invalid Position Data."@,
            FanucErrorCode::RMIInHoldState => "RMI is In HOLD State."@,
            FanucErrorCode::RemoteDeviceDisconnected => "Remote Device Disconnected."@,
            FanucErrorCode::RobotAlreadyConnected => "Robot is Already Connected."@,
            FanucErrorCode::WaitForCommandDone => "Wait for Command Done."@,
            FanucErrorCode::WaitForInstructionDone => "Wait for Instruction Done."@,
            FanucErrorCode::InvalidSequenceIDNumber => "Invalid sequence ID number."@,
            FanucErrorCode::InvalidSpeedType => "Invalid Speed Type."@,
            FanucErrorCode::InvalidSpeedValue => "Invalid Speed Value."@,
            FanucErrorCode::InvalidTermType => "Invalid Term Type."@,
            FanucErrorCode::InvalidTermValue => "Invalid Term Value."@,
            FanucErrorCode::InvalidLCBPortType => "Invalid LCB Port Type."@,
            FanucErrorCode::InvalidACCValue => "Invalid ACC Value."@,
            FanucErrorCode::InvalidDestinationPosition => "Invalid Destination Position."@,
            FanucErrorCode::InvalidVIAPosition => "Invalid VIA Position."@,
            FanucErrorCode::InvalidPortNumber => "Invalid Port Number."@,
            FanucErrorCode::InvalidGroupNumber => "Invalid Group Number."@,
            FanucErrorCode::InvalidGroupMask => "Invalid Group Mask."@,
            FanucErrorCode::JointMotionWithCOORD => "Joint motion with COORD."@,
            FanucErrorCode::IncrementalMotionWithCOORD => "Incremental motn with COORD."@,
            FanucErrorCode::RobotInSingleStepMode => "Robot in Single Step Mode."@,
            FanucErrorCode::InvalidPositionDataType => "Invalid Position Data Type."@,
            FanucErrorCode::ReadyForASCIIPacket => "Ready for ASCII Packet."@,
            FanucErrorCode::ASCIIConversionFailed => "ASCII Conversion Failed."@,
            FanucErrorCode::InvalidASCIIInstruction => "Invalid ASCII Instruction."@,
            FanucErrorCode::InvalidNumberOfGroups => "Invalid Number of Groups."@,
            FanucErrorCode::InvalidInstructionPacket => "Invalid Instruction packet."@,
            FanucErrorCode::InvalidASCIIStringPacket => "Invalid ASCII String packet."@,
            FanucErrorCode::InvalidASCIIStringSize => "Invalid ASCII string size."@,
            FanucErrorCode::InvalidApplicationTool => "Invalid Application Tool."@,
            FanucErrorCode::InvalidCallProgramName => "Invalid Call Program Name."@,
            FanucErrorCode::UnrecognizedFrcError => "Unrecognized FANUC Error ID"@,
        }
    }

    pub fn code(&self) -> (r: u32)
        ensures
            r == self.spec_code(),
    {
        match self {
            FanucErrorCode::InternalSystemError => 2556929,
            FanucErrorCode::InvalidUToolNumber => 2556930,
            FanucErrorCode::InvalidUFrameNumber => 2556931,
            FanucErrorCode::InvalidPositionRegister => 2556932,
            FanucErrorCode::InvalidSpeedOverride => 2556933,
            FanucErrorCode::CannotExecuteTPProgram => 2556934,
            FanucErrorCode::ControllerServoOff => 2556935,
            FanucErrorCode::CannotExecuteTPProgramDuplicate => 2556936,
            FanucErrorCode::RMINotRunning => 2556937,
            FanucErrorCode::TPProgramNotPaused => 2556938,
            FanucErrorCode::CannotResumeTPProgram => 2556939,
            FanucErrorCode::CannotResetController => 2556940,
            FanucErrorCode::InvalidRMICommand => 2556941,
            FanucErrorCode::RMICommandFail => 2556942,
            FanucErrorCode::InvalidControllerState => 2556943,
            FanucErrorCode::PleaseCyclePower => 2556944,
            FanucErrorCode::InvalidPayloadSchedule => 2556945,
            FanucErrorCode::InvalidMotionOption => 2556946,
            FanucErrorCode::InvalidVisionRegister => 2556947,
            FanucErrorCode::InvalidRMIInstruction => 2556948,
            FanucErrorCode::InvalidValue => 2556949,
            FanucErrorCode::InvalidTextString => 2556950,
            FanucErrorCode::InvalidPositionData => 2556951,
            FanucErrorCode::RMIInHoldState => 2556952,
            FanucErrorCode::RemoteDeviceDisconnected => 2556953,
            FanucErrorCode::RobotAlreadyConnected => 2556954,
            FanucErrorCode::WaitForCommandDone => 2556955,
            FanucErrorCode::WaitForInstructionDone => 2556956,
            FanucErrorCode::InvalidSequenceIDNumber => 2556957,
            FanucErrorCode::InvalidSpeedType => 2556958,
            FanucErrorCode::InvalidSpeedValue => 2556959,
            FanucErrorCode::InvalidTermType => 2556960,
            FanucErrorCode::InvalidTermValue => 2556961,
            FanucErrorCode::InvalidLCBPortType => 2556962,
            FanucErrorCode::InvalidACCValue => 2556963,
            FanucErrorCode::InvalidDestinationPosition => 2556964,
            FanucErrorCode::InvalidVIAPosition => 2556965,
            FanucErrorCode::InvalidPortNumber => 2556966,
            FanucErrorCode::InvalidGroupNumber => 2556967,
            FanucErrorCode::InvalidGroupMask => 2556968,
            FanucErrorCode::JointMotionWithCOORD => 2556969,
            FanucErrorCode::IncrementalMotionWithCOORD => 2556970,
            FanucErrorCode::RobotInSingleStepMode => 2556971,
            FanucErrorCode::InvalidPositionDataType => 2556972,
            FanucErrorCode::ReadyForASCIIPacket => 2556973,
            FanucErrorCode::ASCIIConversionFailed => 2556974,
            FanucErrorCode::InvalidASCIIInstruction => 2556975,
            FanucErrorCode::InvalidNumberOfGroups => 2556976,
            FanucErrorCode::InvalidInstructionPacket => 2556977,
            FanucErrorCode::InvalidASCIIStringPacket => 2556978,
            FanucErrorCode::InvalidASCIIStringSize => 2556979,
            FanucErrorCode::InvalidApplicationTool => 2556980,
            FanucErrorCode::InvalidCallProgramName => 2556981,
            FanucErrorCode::UnrecognizedFrcError => 0,
        }
    }

    /// Resolves a controller code; codes outside the table fall back to
    /// `UnrecognizedFrcError` rather than failing.
    pub fn from_code(c: u32) -> (r: FanucErrorCode)
        ensures
            r == FanucErrorCode::spec_from_code(c),
            r != FanucErrorCode::UnrecognizedFrcError ==> r.spec_code() == c,
    {
        if c == 2556929 {
            FanucErrorCode::InternalSystemError
        } else if c == 2556930 {
            FanucErrorCode::InvalidUToolNumber
        } else if c == 2556931 {
            FanucErrorCode::InvalidUFrameNumber
        } else if c == 2556932 {
            FanucErrorCode::InvalidPositionRegister
        } else if c == 2556933 {
            FanucErrorCode::InvalidSpeedOverride
        } else if c == 2556934 {
            FanucErrorCode::CannotExecuteTPProgram
        } else if c == 2556935 {
            FanucErrorCode::ControllerServoOff
        } else if c == 2556936 {
            FanucErrorCode::CannotExecuteTPProgramDuplicate
        } else if c == 2556937 {
            FanucErrorCode::RMINotRunning
        } else if c == 2556938 {
            FanucErrorCode::TPProgramNotPaused
        } else if c == 2556939 {
            FanucErrorCode::CannotResumeTPProgram
        } else if c == 2556940 {
            FanucErrorCode::CannotResetController
        } else if c == 2556941 {
            FanucErrorCode::InvalidRMICommand
        } else if c == 2556942 {
            FanucErrorCode::RMICommandFail
        } else if c == 2556943 {
            FanucErrorCode::InvalidControllerState
        } else if c == 2556944 {
            FanucErrorCode::PleaseCyclePower
        } else if c == 2556945 {
            FanucErrorCode::InvalidPayloadSchedule
        } else if c == 2556946 {
            FanucErrorCode::InvalidMotionOption
        } else if c == 2556947 {
            FanucErrorCode::InvalidVisionRegister
        } else if c == 2556948 {
            FanucErrorCode::InvalidRMIInstruction
        } else if c == 2556949 {
            FanucErrorCode::InvalidValue
        } else if c == 2556950 {
            FanucErrorCode::InvalidTextString
        } else if c == 2556951 {
            FanucErrorCode::InvalidPositionData
        } else if c == 2556952 {
            FanucErrorCode::RMIInHoldState
        } else if c == 2556953 {
            FanucErrorCode::RemoteDeviceDisconnected
        } else if c == 2556954 {
            FanucErrorCode::RobotAlreadyConnected
        } else if c == 2556955 {
            FanucErrorCode::WaitForCommandDone
        } else if c == 2556956 {
            FanucErrorCode::WaitForInstructionDone
        } else if c == 2556957 {
            FanucErrorCode::InvalidSequenceIDNumber
        } else if c == 2556958 {
            FanucErrorCode::InvalidSpeedType
        } else if c == 2556959 {
            FanucErrorCode::InvalidSpeedValue
        } else if c == 2556960 {
            FanucErrorCode::InvalidTermType
        } else if c == 2556961 {
            FanucErrorCode::InvalidTermValue
        } else if c == 2556962 {
            FanucErrorCode::InvalidLCBPortType
        } else if c == 2556963 {
            FanucErrorCode::InvalidACCValue
        } else if c == 2556964 {
            FanucErrorCode::InvalidDestinationPosition
        } else if c == 2556965 {
            FanucErrorCode::InvalidVIAPosition
        } else if c == 2556966 {
            FanucErrorCode::InvalidPortNumber
        } else if c == 2556967 {
            FanucErrorCode::InvalidGroupNumber
        } else if c == 2556968 {
            FanucErrorCode::InvalidGroupMask
        } else if c == 2556969 {
            FanucErrorCode::JointMotionWithCOORD
        } else if c == 2556970 {
            FanucErrorCode::IncrementalMotionWithCOORD
        } else if c == 2556971 {
            FanucErrorCode::RobotInSingleStepMode
        } else if c == 2556972 {
            FanucErrorCode::InvalidPositionDataType
        } else if c == 2556973 {
            FanucErrorCode::ReadyForASCIIPacket
        } else if c == 2556974 {
            FanucErrorCode::ASCIIConversionFailed
        } else if c == 2556975 {
            FanucErrorCode::InvalidASCIIInstruction
        } else if c == 2556976 {
            FanucErrorCode::InvalidNumberOfGroups
        } else if c == 2556977 {
            FanucErrorCode::InvalidInstructionPacket
        } else if c == 2556978 {
            FanucErrorCode::InvalidASCIIStringPacket
        } else if c == 2556979 {
            FanucErrorCode::InvalidASCIIStringSize
        } else if c == 2556980 {
            FanucErrorCode::InvalidApplicationTool
        } else if c == 2556981 {
            FanucErrorCode::InvalidCallProgramName
        } else {
            FanucErrorCode::UnrecognizedFrcError
        }
    }

    /// The human-readable message for this fault.
    pub fn message(&self) -> (r: &'static str)
        ensures
            r@ == self.spec_message(),
    {
        match self {
            FanucErrorCode::InternalSystemError => "Internal System Error.",
            FanucErrorCode::InvalidUToolNumber => "Invalid UTool Number.",
            FanucErrorCode::InvalidUFrameNumber => "Invalid UFrame Number.",
            FanucErrorCode::InvalidPositionRegister => "Invalid Position Register.",
            FanucErrorCode::InvalidSpeedOverride => "Invalid Speed Override.",
            FanucErrorCode::CannotExecuteTPProgram => "Cannot Execute TP program.",
            FanucErrorCode::ControllerServoOff => "Controller Servo is Off.",
            FanucErrorCode::CannotExecuteTPProgramDuplicate => "Cannot Execute TP program.",
            FanucErrorCode::RMINotRunning => "RMI is Not Running.",
            FanucErrorCode::TPProgramNotPaused => "TP Program is Not Paused.",
            FanucErrorCode::CannotResumeTPProgram => "Cannot Resume TP Program.",
            FanucErrorCode::CannotResetController => "Cannot Reset Controller.",
            FanucErrorCode::InvalidRMICommand => "Invalid RMI Command.",
            FanucErrorCode::RMICommandFail => "RMI Command Fail.",
            FanucErrorCode::InvalidControllerState => "Invalid Controller State.",
            FanucErrorCode::PleaseCyclePower => "Please Cycle Power.",
            FanucErrorCode::InvalidPayloadSchedule => "Invalid Payload Schedule.",
            FanucErrorCode::InvalidMotionOption => "Invalid Motion Option.",
            FanucErrorCode::InvalidVisionRegister => "Invalid Vision Register.",
            FanucErrorCode::InvalidRMIInstruction => "Invalid RMI Instruction.",
            FanucErrorCode::InvalidValue => "Invalid Value.",
            FanucErrorCode::InvalidTextString => "Invalid Text String.",
            FanucErrorCode::InvalidPositionData => "Invalid Position Data.",
            FanucErrorCode::RMIInHoldState => "RMI is In HOLD State.",
            FanucErrorCode::RemoteDeviceDisconnected => "Remote Device Disconnected.",
            FanucErrorCode::RobotAlreadyConnected => "Robot is Already Connected.",
            FanucErrorCode::WaitForCommandDone => "Wait for Command Done.",
            FanucErrorCode::WaitForInstructionDone => "Wait for Instruction Done.",
            FanucErrorCode::InvalidSequenceIDNumber => "Invalid sequence ID number.",
            FanucErrorCode::InvalidSpeedType => "Invalid Speed Type.",
            FanucErrorCode::InvalidSpeedValue => "Invalid Speed Value.",
            FanucErrorCode::InvalidTermType => "Invalid Term Type.",
            FanucErrorCode::InvalidTermValue => "Invalid Term Value.",
            FanucErrorCode::InvalidLCBPortType => "Invalid LCB Port Type.",
            FanucErrorCode::InvalidACCValue => "Invalid ACC Value.",
            FanucErrorCode::InvalidDestinationPosition => "Invalid Destination Position.",
            FanucErrorCode::InvalidVIAPosition => "Invalid VIA Position.",
            FanucErrorCode::InvalidPortNumber => "Invalid Port Number.",
            FanucErrorCode::InvalidGroupNumber => "Invalid Group Number.",
            FanucErrorCode::InvalidGroupMask => "Invalid Group Mask.",
            FanucErrorCode::JointMotionWithCOORD => "Joint motion with COORD.",
            FanucErrorCode::IncrementalMotionWithCOORD => "Incremental motn with COORD.",
            FanucErrorCode::RobotInSingleStepMode => "Robot in Single Step Mode.",
            FanucErrorCode::InvalidPositionDataType => "Invalid Position Data Type.",
            FanucErrorCode::ReadyForASCIIPacket => "Ready for ASCII Packet.",
            FanucErrorCode::ASCIIConversionFailed => "ASCII Conversion Failed.",
            FanucErrorCode::InvalidASCIIInstruction => "Invalid ASCII Instruction.",
            FanucErrorCode::InvalidNumberOfGroups => "Invalid Number of Groups.",
            FanucErrorCode::InvalidInstructionPacket => "Invalid Instruction packet.",
            FanucErrorCode::InvalidASCIIStringPacket => "Invalid ASCII String packet.",
            FanucErrorCode::InvalidASCIIStringSize => "Invalid ASCII string size.",
            FanucErrorCode::InvalidApplicationTool => "Invalid Application Tool.",
            FanucErrorCode::InvalidCallProgramName => "Invalid Call Program Name.",
            FanucErrorCode::UnrecognizedFrcError => "Unrecognized FANUC Error ID",
        }
    }
}

/// Looking a fault's own code back up yields the same fault, and the
/// unrecognized fallback stands for exactly the numbers outside the table.
pub proof fn lemma_error_code_round_trip(e: FanucErrorCode)
    ensures
        FanucErrorCode::spec_from_code(e.spec_code()) == e,
{
}


/// One packet of any family.
#[derive(Debug, Clone, PartialEq, Eq)]
pub enum PacketEnum {
    Communication(Communication),
    Command(Command),
    Instruction(Instruction),
}

impl PacketEnum {
    pub open spec fn wf(self) -> bool {
        match self {
            PacketEnum::Communication(p) => p.wf(),
            PacketEnum::Command(p) => p.wf(),
            PacketEnum::Instruction(p) => p.wf(),
        }
    }

    /// The exact JSON text of the packet, without the frame terminator.
    pub open spec fn spec_wire(self) -> Seq<u8> {
        match self {
            PacketEnum::Communication(p) => p.spec_wire(),
            PacketEnum::Command(p) => p.spec_wire(),
            PacketEnum::Instruction(p) => p.spec_wire(),
        }
    }

    /// The wire bytes: JSON text followed by the frame terminator.
    pub fn encode(&self) -> (r: Vec<u8>)
        requires
            self.wf(),
        ensures
            r@ == self.spec_wire() + seq![13u8, 10u8],
    {
        match self {
            PacketEnum::Communication(p) => p.encode(),
            PacketEnum::Command(p) => p.encode(),
            PacketEnum::Instruction(p) => p.encode(),
        }
    }

    /// The sequence identifier announced when this packet is dispatched
    /// as part of a program: an instruction's own identifier; zero — the
    /// value that announces nothing — for any other packet.
    pub open spec fn spec_announce_id(self) -> u32 {
        match self {
            PacketEnum::Instruction(p) => p.spec_sequence_id(),
            _ => 0,
        }
    }

    pub fn announce_id(&self) -> (r: u32)
        ensures
            r == self.spec_announce_id(),
    {
        match self {
            PacketEnum::Instruction(p) => p.sequence_id(),
            _ => 0,
        }
    }

    /// An encoded packet travels as exactly one frame: splitting its wire
    /// bytes yields its JSON text alone, with no residue.
    pub proof fn lemma_encode_is_one_frame(self)
        requires
            self.wf(),
        ensures
            crate::codec::split_frames(self.spec_wire() + seq![13u8, 10u8]) == (
                seq![self.spec_wire()],
                Seq::<u8>::empty(),
            ),
    {
        match self {
            PacketEnum::Communication(p) => {
                p.lemma_wf();
                crate::codec::lemma_wire_framing(p.jval());
            },
            PacketEnum::Command(p) => {
                p.lemma_wf();
                crate::codec::lemma_wire_framing(p.jval());
            },
            PacketEnum::Instruction(p) => {
                p.lemma_wf();
                crate::codec::lemma_wire_framing(p.jval());
            },
        }
    }
}

} // verus!
