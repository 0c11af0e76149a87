//! The closed set of controller protocol errors, mapped from the numeric
//! codes of error replies, plus the locally raised timeout and a catch-all
//! for transport or parsing failures.

use vstd::prelude::*;
use crate::ascii::dec_chars;

verus! {

/// One controller error condition.
#[derive(Debug)]
pub enum HelvarError {
    Success,
    InvalidGroupIndex,
    InvalidCluster,
    InvalidRouter,
    InvalidSubnet,
    InvalidDevice,
    InvalidSubdevice,
    InvalidBlock,
    InvalidScene,
    NoSuchCluster,
    NoSuchRouter,
    NoSuchDevice,
    NoSuchProperty,
    InvalidRawMessageSize,
    InvalidMessagesType,
    InvalidMessageCommand,
    Timeout,
    UnknownErrorCode(u32),
    Other(String),
}

/// The error condition a numeric reply code denotes.
pub open spec fn spec_from_code(code: u32) -> HelvarError {
    if code == 0 {
        HelvarError::Success
    } else if code == 1 {
        HelvarError::InvalidGroupIndex
    } else if code == 2 {
        HelvarError::InvalidCluster
    } else if code == 3 {
        HelvarError::InvalidRouter
    } else if code == 4 {
        HelvarError::InvalidSubnet
    } else if code == 5 {
        HelvarError::InvalidDevice
    } else if code == 6 {
        HelvarError::InvalidSubdevice
    } else if code == 7 {
        HelvarError::InvalidBlock
    } else if code == 8 {
        HelvarError::InvalidScene
    } else if code == 9 {
        HelvarError::NoSuchCluster
    } else if code == 10 {
        HelvarError::NoSuchRouter
    } else if code == 11 {
        HelvarError::NoSuchDevice
    } else if code == 12 {
        HelvarError::NoSuchProperty
    } else if code == 13 {
        HelvarError::InvalidRawMessageSize
    } else if code == 14 {
        HelvarError::InvalidMessagesType
    } else if code == 15 {
        HelvarError::InvalidMessageCommand
    } else {
        HelvarError::UnknownErrorCode(code)
    }
}

/// The message text of each error condition.
pub open spec fn spec_message(e: HelvarError) -> Seq<char> {
    match e {
        HelvarError::Success => "Success"@,
        HelvarError::InvalidGroupIndex => "Invalid group index parameter"@,
        HelvarError::InvalidCluster => "Invalid cluster parameter"@,
        HelvarError::InvalidRouter => "Invalid router parameter"@,
        HelvarError::InvalidSubnet => "Invalid subnet parameter"@,
        HelvarError::InvalidDevice => "Invalid device parameter"@,
        HelvarError::InvalidSubdevice => "Invalid subdevice parameter"@,
        HelvarError::InvalidBlock => "Invalid block parameter"@,
        HelvarError::InvalidScene => "Invalid scene parameter"@,
        HelvarError::NoSuchCluster => "Cluster does not exist"@,
        HelvarError::NoSuchRouter => "Router does not exist"@,
        HelvarError::NoSuchDevice => "Device does not exist"@,
        HelvarError::NoSuchProperty => "Device does not exist"@,
        HelvarError::InvalidRawMessageSize => "Invalid raw message size"@,
        HelvarError::InvalidMessagesType => "Invalid messages type"@,
        HelvarError::InvalidMessageCommand => "Invalid message command"@,
        HelvarError::Timeout => "Timeout"@,
        HelvarError::UnknownErrorCode(code) => "Unknown error code "@ + dec_chars(code as int),
        HelvarError::Other(s) => s@,
    }
}

impl HelvarError {
    /// The error condition the numeric reply code `code` denotes;
    /// unrecognized codes are kept as unknown-error-code.
    pub fn from_code(code: u32) -> (e: HelvarError)
        ensures
            e == spec_from_code(code),
    {
        if code == 0 {
            HelvarError::Success
        } else if code == 1 {
            HelvarError::InvalidGroupIndex
        } else if code == 2 {
            HelvarError::InvalidCluster
        } else if code == 3 {
            HelvarError::InvalidRouter
        } else if code == 4 {
            HelvarError::InvalidSubnet
        } else if code == 5 {
            HelvarError::InvalidDevice
        } else if code == 6 {
            HelvarError::InvalidSubdevice
        } else if code == 7 {
            HelvarError::InvalidBlock
        } else if code == 8 {
            HelvarError::InvalidScene
        } else if code == 9 {
            HelvarError::NoSuchCluster
        } else if code == 10 {
            HelvarError::NoSuchRouter
        } else if code == 11 {
            HelvarError::NoSuchDevice
        } else if code == 12 {
            HelvarError::NoSuchProperty
        } else if code == 13 {
            HelvarError::InvalidRawMessageSize
        } else if code == 14 {
            HelvarError::InvalidMessagesType
        } else if code == 15 {
            HelvarError::InvalidMessageCommand
        } else {
            HelvarError::UnknownErrorCode(code)
        }
    }

    /// Wraps a lower-level failure, described by `description`, as a
    /// controller error.
    pub fn from_error(description: String) -> (e: HelvarError)
        ensures
            e == HelvarError::Other(description),
    {
        HelvarError::Other(description)
    }

    /// The wrapped failure's description, for the catch-all condition.
    pub fn source(&self) -> (r: Option<&String>)
        ensures
            match r {
                Some(s) => self matches HelvarError::Other(m) && s@ == m@,
                None => !(self is Other),
            },
    {
        match self {
            HelvarError::Other(err) => Some(err),
            _ => None,
        }
    }

    /// Human-readable message for this error condition.
    pub fn message(&self) -> (m: String)
        ensures
            m@ == spec_message(*self),
    {
        match self {
            HelvarError::Success => String::from_str("Success"),
            HelvarError::InvalidGroupIndex => String::from_str("Invalid group index parameter"),
            HelvarError::InvalidCluster => String::from_str("Invalid cluster parameter"),
            HelvarError::InvalidRouter => String::from_str("Invalid router parameter"),
            HelvarError::InvalidSubnet => String::from_str("Invalid subnet parameter"),
            HelvarError::InvalidDevice => String::from_str("Invalid device parameter"),
            HelvarError::InvalidSubdevice => String::from_str("Invalid subdevice parameter"),
            HelvarError::InvalidBlock => String::from_str("Invalid block parameter"),
            HelvarError::InvalidScene => String::from_str("Invalid scene parameter"),
            HelvarError::NoSuchCluster => String::from_str("Cluster does not exist"),
            HelvarError::NoSuchRouter => String::from_str("Router does not exist"),
            HelvarError::NoSuchDevice => String::from_str("Device does not exist"),
            HelvarError::NoSuchProperty => String::from_str("Device does not exist"),
            HelvarError::InvalidRawMessageSize => String::from_str("Invalid raw message size"),
            HelvarError::InvalidMessagesType => String::from_str("Invalid messages type"),
            HelvarError::InvalidMessageCommand => String::from_str("Invalid message command"),
            HelvarError::Timeout => String::from_str("Timeout"),
            HelvarError::UnknownErrorCode(code) => {
                let mut m = String::from_str("Unknown error code ");
                let digits = crate::ascii::u32_to_dec_string(*code);
                m.append(digits.as_str());
                m
            },
            HelvarError::Other(err) => err.clone(),
        }
    }
}

} // verus!
