//! The message of an on-screen text billboard and which of its glyphs a ray lands on.
use vstd::prelude::*;
use vstd::string::StrSliceExecFns;

verus! {

/// A single line of text shown on a camera-facing billboard, one glyph per terminal cell.
pub struct Text {
    msg: String,
}

impl Text {
    /// The message's characters.
    pub closed spec fn msg_view(&self) -> Seq<char> {
        self.msg@
    }

    pub fn new(msg: String) -> (t: Self)
        ensures
            t.msg_view() == msg@,
    {
        Text { msg }
    }

    /// The message.
    pub fn msg(&self) -> (m: &String)
        ensures
            m@ == self.msg_view(),
    {
        &self.msg
    }

    /// How many glyphs (characters) the message has.
    pub fn glyph_count(&self) -> (n: usize)
        ensures
            n == self.msg_view().len(),
    {
        self.msg.as_str().unicode_len()
    }

    /// The glyph in cell `idx` of the billboard; a cell past the end shows the last glyph.
    pub fn glyph_at(&self, idx: usize) -> (c: char)
        requires
            self.msg_view().len() > 0,
        ensures
            c == self.msg_view()[if idx < self.msg_view().len() {
                idx as int
            } else {
                self.msg_view().len() - 1
            }],
    {
        let n = self.msg.as_str().unicode_len();
        let i = if idx < n {
            idx
        } else {
            n - 1
        };
        self.msg.as_str().get_char(i)
    }
}

} // verus!
