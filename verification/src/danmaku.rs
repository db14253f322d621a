//! The event that clients submit and receive.

use vstd::prelude::*;

verus! {

/// A danmaku: one timed overlay comment.
#[derive(Debug)]
pub struct Danmaku {
    /// The danmaku's sender.
    pub sender: String,
    /// The danmaku's text.
    pub text: String,
    /// The danmaku's font color.
    pub color: String,
    /// The danmaku's font size.
    pub size: u32,
}

/// What a danmaku says, as plain mathematical values.
pub struct DanmakuView {
    pub sender: Seq<char>,
    pub text: Seq<char>,
    pub color: Seq<char>,
    pub size: u32,
}

impl View for Danmaku {
    type V = DanmakuView;

    open spec fn view(&self) -> DanmakuView {
        DanmakuView {
            sender: self.sender@,
            text: self.text@,
            color: self.color@,
            size: self.size,
        }
    }
}

impl Clone for Danmaku {
    fn clone(&self) -> (copy: Danmaku)
        ensures
            copy@ == self@,
    {
        Danmaku {
            sender: self.sender.clone(),
            text: self.text.clone(),
            color: self.color.clone(),
            size: self.size,
        }
    }
}

} // verus!
