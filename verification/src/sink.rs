//! Where a command's text goes: the lines it has written so far.
use vstd::prelude::*;

verus! {

/// The text that a command has written to one of its streams.
pub struct Sink {
    text: String,
}

impl View for Sink {
    type V = Seq<char>;

    closed spec fn view(&self) -> Seq<char> {
        self.text@
    }
}

impl Sink {
    /// A stream with nothing written to it.
    pub fn new() -> (s: Self)
        ensures
            s@ == Seq::<char>::empty(),
    {
        Sink { text: String::new() }
    }

    /// What was written.
    pub fn text(&self) -> (r: &str)
        ensures
            r@ == self@,
    {
        self.text.as_str()
    }

    /// Writes `msg` and a line break.
    pub fn write_line(&mut self, msg: &str)
        ensures
            final(self)@ == old(self)@ + msg@ + seq!['\n'],
    {
        self.text.append(msg);
        self.text.push('\n');
    }
}

} // verus!
