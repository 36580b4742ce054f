use vstd::prelude::*;

verus! {

/// Append-only text sink that receives emitted fragments in order.
pub struct Stream {
    buf: String,
}

impl View for Stream {
    type V = Seq<char>;

    closed spec fn view(&self) -> Seq<char> {
        self.buf@
    }
}

impl Stream {
    /// An empty sink.
    pub fn new() -> (r: Stream)
        ensures
            r@ == Seq::<char>::empty(),
    {
        Stream { buf: String::new() }
    }

    /// Appends `text` after everything written so far.
    pub fn write(&mut self, text: &str)
        ensures
            final(self)@ == old(self)@ + text@,
    {
        self.buf.append(text);
    }

    /// Everything written so far.
    pub fn as_str(&self) -> (r: &str)
        ensures
            r@ == self@,
    {
        self.buf.as_str()
    }
}

} // verus!
