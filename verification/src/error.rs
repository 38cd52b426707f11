//! The error type shared by every fallible operation of the engine.

use vstd::prelude::*;
use vstd::string::*;

use crate::text::{decimal, push_decimal};

verus! {

/// What can go wrong while serving tiles.
#[derive(Debug)]
pub enum TileError {
    /// An operation needed a slide and none was loaded.
    NotLoaded,
    /// A coordinate outside the pyramid.
    InvalidCoord { level: u32, col: u32, row: u32 },
    /// A tile that should exist could not be found.
    TileNotFound { path: String },
    /// The codec rejected the compressed bytes.
    Decode(String),
    /// The host failed to read a file.
    Io(String),
    /// Malformed metadata or container header; the message names the field.
    Validation(String),
    /// The metadata document is not well-formed.
    Json(String),
}

/// Result type of the engine's fallible operations.
pub type TileResult<T> = Result<T, TileError>;

impl TileError {
    /// The text of the error as it is reported to a user.
    pub open spec fn message(self) -> Seq<char> {
        match self {
            TileError::NotLoaded => "Slide not loaded"@,
            TileError::InvalidCoord { level, col, row } => "Invalid tile coordinate: level="@
                + decimal(level as nat) + ", col="@ + decimal(col as nat) + ", row="@ + decimal(
                row as nat,
            ),
            TileError::TileNotFound { path } => "Tile not found: "@ + path@,
            TileError::Decode(m) => "Failed to decode JPEG: "@ + m@,
            TileError::Io(m) => "IO error: "@ + m@,
            TileError::Validation(m) => "Validation error: "@ + m@,
            TileError::Json(m) => "JSON parse error: "@ + m@,
        }
    }

    /// Renders the error for display.
    pub fn to_string(&self) -> (s: String)
        ensures
            s@ == self.message(),
    {
        match self {
            TileError::NotLoaded => String::from_str("Slide not loaded"),
            TileError::InvalidCoord { level, col, row } => {
                let mut s = String::from_str("Invalid tile coordinate: level=");
                push_decimal(&mut s, *level as u64);
                s.append(", col=");
                push_decimal(&mut s, *col as u64);
                s.append(", row=");
                push_decimal(&mut s, *row as u64);
                s
            },
            TileError::TileNotFound { path } => {
                let mut s = String::from_str("Tile not found: ");
                s.append(path.as_str());
                s
            },
            TileError::Decode(m) => {
                let mut s = String::from_str("Failed to decode JPEG: ");
                s.append(m.as_str());
                s
            },
            TileError::Io(m) => {
                let mut s = String::from_str("IO error: ");
                s.append(m.as_str());
                s
            },
            TileError::Validation(m) => {
                let mut s = String::from_str("Validation error: ");
                s.append(m.as_str());
                s
            },
            TileError::Json(m) => {
                let mut s = String::from_str("JSON parse error: ");
                s.append(m.as_str());
                s
            },
        }
    }
}

} // verus!
