use vstd::prelude::*;
use vstd::string::StringSliceAdditionalSpecFns;
use vstd::utf8::encode_utf8;
use crate::error::VmError;
use crate::screen::{push_char, Screen};
use crate::transcript::{joined, texts};

verus! {

/// Number of bytes of output that a runner keeps at most.
pub const HISTORY_BYTES: usize = 40;

/// `String::remove` at position 0: takes the first character out of a
/// string that has one.
#[verifier::external_body]
fn drop_first(text: &mut String)
    requires
        old(text)@.len() > 0,
    ensures
        final(text)@ == old(text)@.skip(1),
{
    text.remove(0);
}

/// The end of a text that a runner keeps: the whole text while its UTF-8
/// form has at most `HISTORY_BYTES` bytes, else the text without its first
/// character.
pub open spec fn recent(text: Seq<char>) -> Seq<char> {
    if encode_utf8(text).len() > HISTORY_BYTES {
        text.skip(1)
    } else {
        text
    }
}

/// Appends a character to the end of a text that is kept short: once the
/// text takes more than `HISTORY_BYTES` bytes, its first character goes.
pub fn push_recent(text: &mut String, c: char)
    ensures
        final(text)@ == recent(old(text)@.push(c)),
{
    push_char(text, c);
    if text.as_str().as_bytes().len() > HISTORY_BYTES {
        drop_first(text);
    }
}

/// The host's side of an engine that runs on its own: the host's end of the
/// conduit and the last characters that the engine wrote.
pub struct Runner {
    screen: Screen,
    buffer_history: String,
}

impl Runner {
    /// The last characters that the engine wrote, oldest first.
    pub closed spec fn history(&self) -> Seq<char> {
        self.buffer_history@
    }

    /// The host's end of the conduit.
    pub closed spec fn channel(&self) -> Screen {
        self.screen
    }

    /// A runner on the host's end of a conduit, with nothing seen yet.
    pub fn new(screen: Screen) -> (r: Self)
        ensures
            r.channel() == screen,
            r.history() == Seq::<char>::empty(),
    {
        Runner { screen, buffer_history: String::new() }
    }

    /// A runner whose engine finds the lines of `preset` queued, in order.
    /// It fails only where a line could not be queued.
    pub fn new_with_preset(screen: Screen, preset: Vec<String>) -> (r: Result<Self, VmError>)
        ensures
            r is Err ==> r->Err_0 is Disconnected && preset@.len() > 0,
            preset@.len() == 0 ==> r is Ok,
            r is Ok ==> {
                &&& r->Ok_0.history() == Seq::<char>::empty()
                &&& r->Ok_0.channel().sent() == screen.sent() + joined(texts(preset@))
                &&& r->Ok_0.channel().taken() == screen.taken()
                &&& r->Ok_0.channel().pending() == screen.pending()
            },
    {
        let mut screen = screen;
        let ghost before = screen;
        let ghost lines = texts(preset@);
        let mut i: usize = 0;
        assert(before.sent() + joined(lines.take(0)) =~= before.sent());
        while i < preset.len()
            invariant
                i <= preset@.len(),
                lines == texts(preset@),
                screen.sent() == before.sent() + joined(lines.take(i as int)),
                screen.taken() == before.taken(),
                screen.pending() == before.pending(),
            decreases preset@.len() - i,
        {
            screen.send(preset[i].clone())?;
            proof {
                assert(lines.take(i + 1).drop_last() =~= lines.take(i as int));
                assert(lines.take(i + 1).last() == preset@[i as int]@);
                assert(screen.sent() =~= before.sent() + joined(lines.take(i + 1)));
            }
            i = i + 1;
        }
        assert(lines.take(preset@.len() as int) =~= lines);
        Ok(Self::new(screen))
    }

    /// The last characters that the engine wrote, oldest first.
    pub fn recent_output(&self) -> (r: &str)
        ensures
            r@ == self.history(),
    {
        self.buffer_history.as_str()
    }

    /// Notes a character that the engine wrote. Once the characters kept
    /// take more than `HISTORY_BYTES` bytes, the oldest one goes.
    pub fn push_char_history(&mut self, c: char)
        ensures
            final(self).history() == recent(old(self).history().push(c)),
            final(self).channel() == old(self).channel(),
    {
        push_recent(&mut self.buffer_history, c);
    }
}

} // verus!
