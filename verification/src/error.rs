//! The reasons for which a connection or the listener ends.

use vstd::prelude::*;
use vstd::string::StringExecFns;

verus! {

/// An error that can occur while handling a client connection. Each variant
/// carries the text of the failure underneath it.
#[derive(Debug)]
pub enum DanmakuError {
    /// The WebSocket transport failed.
    WebSocket(String),
    /// A danmaku could not be turned into JSON.
    Json(String),
    /// The network underneath failed.
    Network(String),
}

impl DanmakuError {
    /// The words that introduce an error of this kind in its message.
    pub open spec fn prefix(self) -> Seq<char> {
        match self {
            DanmakuError::WebSocket(_) => "WebSocket error: "@,
            DanmakuError::Json(_) => "JSON serialization error: "@,
            DanmakuError::Network(_) => "Network error: "@,
        }
    }

    /// The text of the failure underneath.
    pub open spec fn detail(self) -> Seq<char> {
        match self {
            DanmakuError::WebSocket(text) => text@,
            DanmakuError::Json(text) => text@,
            DanmakuError::Network(text) => text@,
        }
    }

    /// The error as one line of text: its kind, then the failure underneath.
    pub fn message(&self) -> (line: String)
        ensures
            line@ == self.prefix() + self.detail(),
    {
        match self {
            DanmakuError::WebSocket(text) => String::from_str("WebSocket error: ").concat(
                text.as_str(),
            ),
            DanmakuError::Json(text) => String::from_str("JSON serialization error: ").concat(
                text.as_str(),
            ),
            DanmakuError::Network(text) => String::from_str("Network error: ").concat(
                text.as_str(),
            ),
        }
    }
}

} // verus!
