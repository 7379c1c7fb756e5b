use vstd::prelude::*;
use std::collections::VecDeque;
use std::sync::mpsc::{Receiver, Sender};
use crate::error::VmError;

verus! {

/// The receiving half of a channel of the standard library.
#[verifier::external_type_specification]
#[verifier::external_body]
#[verifier::reject_recursive_types(T)]
pub struct ExReceiver<T>(Receiver<T>);

/// The sending half of a channel of the standard library.
#[verifier::external_type_specification]
#[verifier::external_body]
#[verifier::reject_recursive_types(T)]
pub struct ExSender<T>(Sender<T>);

/// How often a screen looks into its queue within one call before it gives
/// up on a peer that sends nothing but empty strings or never stops sending.
pub const POLL_LIMIT: u64 = 0xFFFF_FFFF_FFFF_FFFF;

/// What a look into the queue brought.
#[derive(Debug)]
pub enum Polled {
    /// A string was queued.
    Text(String),
    /// Nothing is queued.
    Empty,
    /// Nothing is queued and the peer is gone.
    Disconnected,
}

/// `std::sync::mpsc::channel`: a new queue of strings. Nothing is claimed
/// of the two halves.
#[verifier::external_body]
fn open_queue() -> (r: (Sender<String>, Receiver<String>)) {
    std::sync::mpsc::channel()
}

/// `Sender::send`: queues a string for the peer. The result says whether the
/// receiving half still existed; nothing else is claimed.
#[verifier::external_body]
fn enqueue(tx: &Sender<String>, text: String) -> (delivered: bool) {
    tx.send(text).is_ok()
}

/// `Receiver::recv`: waits for the next queued string. `None` means that the
/// queue is empty and every sender is gone. Which string comes is the
/// peer's matter, so nothing is claimed of it.
#[verifier::external_body]
fn dequeue(rx: &Receiver<String>) -> (r: Option<String>) {
    match rx.recv() {
        Ok(text) => Some(text),
        Err(_) => None,
    }
}

/// `Receiver::try_recv`: takes the next queued string if there is one, and
/// does not wait. Nothing is claimed of which of the three cases comes.
#[verifier::external_body]
fn poll(rx: &Receiver<String>) -> (r: Polled) {
    match rx.try_recv() {
        Ok(text) => Polled::Text(text),
        Err(std::sync::mpsc::TryRecvError::Empty) => Polled::Empty,
        Err(std::sync::mpsc::TryRecvError::Disconnected) => Polled::Disconnected,
    }
}

/// `String::push`: appends one character to a string.
#[verifier::external_body]
pub(crate) fn push_char(text: &mut String, c: char)
    ensures
        final(text)@ == old(text)@.push(c),
{
    text.push(c)
}

/// What one look into a screen's queue found.
pub enum Look {
    /// A string was queued and was taken out; these are its characters.
    Text(Seq<char>),
    /// Nothing was queued.
    Empty,
    /// Nothing was queued and the peer was gone.
    Disconnected,
}

impl View for Polled {
    type V = Look;

    open spec fn view(&self) -> Look {
        match self {
            Polled::Text(text) => Look::Text(text@),
            Polled::Empty => Look::Empty,
            Polled::Disconnected => Look::Disconnected,
        }
    }
}

/// The characters that a look brought: those of its string, or none.
pub open spec fn look_text(look: Look) -> Seq<char> {
    match look {
        Look::Text(text) => text,
        _ => Seq::empty(),
    }
}

/// A look that brought no character although a string was queued.
pub open spec fn idle(look: Look) -> bool {
    look is Text && look->Text_0.len() == 0
}

/// The characters that a run of looks brought, in order.
pub open spec fn gathered(looks: Seq<Look>) -> Seq<char>
    decreases looks.len(),
{
    if looks.len() == 0 {
        Seq::empty()
    } else {
        gathered(looks.drop_last()) + look_text(looks.last())
    }
}

/// The looks of a search for a character: there is at least one; the search
/// goes on exactly while it finds empty strings, and is given up after
/// `POLL_LIMIT` looks. So the last look is the only one that can have found
/// characters, an empty queue or a peer that is gone.
pub open spec fn search(looks: Seq<Look>) -> bool {
    &&& 1 <= looks.len() <= POLL_LIMIT
    &&& forall|i: int| 0 <= i < looks.len() - 1 ==> idle(#[trigger] looks[i])
    &&& idle(looks.last()) ==> looks.len() == POLL_LIMIT
}

/// The looks that empty a queue: there is at least one; they go on exactly
/// while they find strings, and are given up after `POLL_LIMIT` looks. So
/// the last look is the only one that can have found the queue empty or the
/// peer gone.
pub open spec fn sweep(looks: Seq<Look>) -> bool {
    &&& 1 <= looks.len() <= POLL_LIMIT
    &&& forall|i: int| 0 <= i < looks.len() - 1 ==> (#[trigger] looks[i]) is Text
    &&& looks.last() is Text ==> looks.len() == POLL_LIMIT
}

/// One end of a two-way character conduit. What the peer sends arrives as
/// whole strings; their characters wait in a local buffer until they are
/// taken one by one.
pub struct Screen {
    text_recv: Receiver<String>,
    text_send: Sender<String>,
    buffer: VecDeque<char>,
    taken: Ghost<Seq<char>>,
    sent: Ghost<Seq<char>>,
    unsent: Ghost<Seq<Seq<char>>>,
    looks: Ghost<Seq<Look>>,
}

impl Screen {
    /// The characters that have arrived and were not taken yet, next first.
    pub closed spec fn pending(&self) -> Seq<char> {
        self.buffer@
    }

    /// Every character that this end has handed to its owner, in order.
    pub closed spec fn taken(&self) -> Seq<char> {
        self.taken@
    }

    /// Every character that this end has sent to its peer, in order.
    pub closed spec fn sent(&self) -> Seq<char> {
        self.sent@
    }

    /// Every string that this end tried to send and could not, because its
    /// peer was gone, in order.
    pub closed spec fn unsent(&self) -> Seq<Seq<char>> {
        self.unsent@
    }

    /// What every look of this end into its queue has brought, in order, as
    /// it was taken in or passed over.
    pub closed spec fn looks(&self) -> Seq<Look> {
        self.looks@
    }

    /// What the looks into the queue have found since the moment at which
    /// this end was `before`.
    pub open spec fn seen_since(&self, before: &Screen) -> Seq<Look> {
        self.looks().skip(before.looks().len() as int)
    }

    /// Two connected ends: what one sends, the other receives. Nothing is
    /// pending and nothing has been sent, taken or looked for.
    pub fn create() -> (r: (Screen, Screen))
        ensures
            r.0.pending() == Seq::<char>::empty(),
            r.0.taken() == Seq::<char>::empty(),
            r.0.sent() == Seq::<char>::empty(),
            r.0.looks() == Seq::<Look>::empty(),
            r.0.unsent() == Seq::<Seq<char>>::empty(),
            r.1.pending() == Seq::<char>::empty(),
            r.1.taken() == Seq::<char>::empty(),
            r.1.sent() == Seq::<char>::empty(),
            r.1.looks() == Seq::<Look>::empty(),
            r.1.unsent() == Seq::<Seq<char>>::empty(),
    {
        let (tx, rx) = open_queue();
        let (tx2, rx2) = open_queue();
        (
            Screen {
                text_recv: rx,
                text_send: tx2,
                buffer: VecDeque::new(),
                taken: Ghost(Seq::empty()),
                sent: Ghost(Seq::empty()),
                unsent: Ghost(Seq::empty()),
                looks: Ghost(Seq::empty()),
            },
            Screen {
                text_recv: rx2,
                text_send: tx,
                buffer: VecDeque::new(),
                taken: Ghost(Seq::empty()),
                sent: Ghost(Seq::empty()),
                unsent: Ghost(Seq::empty()),
                looks: Ghost(Seq::empty()),
            },
        )
    }

    /// Queues a string for the peer. Fails exactly when the peer is gone;
    /// the string then counts as unsent, and nothing as sent.
    pub fn send(&mut self, val: String) -> (r: Result<(), VmError>)
        ensures
            r is Ok ==> final(self).sent() == old(self).sent() + val@ && final(self).unsent()
                == old(self).unsent(),
            r is Err ==> r == Err::<(), VmError>(VmError::Disconnected) && final(self).sent()
                == old(self).sent() && final(self).unsent() == old(self).unsent().push(val@),
            final(self).pending() == old(self).pending(),
            final(self).taken() == old(self).taken(),
            final(self).looks() == old(self).looks(),
    {
        let ghost text = val@;
        if enqueue(&self.text_send, val) {
            proof {
                self.sent@ = self.sent@ + text;
            }
            Ok(())
        } else {
            proof {
                self.unsent@ = self.unsent@.push(text);
            }
            Err(VmError::Disconnected)
        }
    }

    /// Queues one character for the peer, as a string of its own.
    pub fn send_char(&mut self, val: char) -> (r: Result<(), VmError>)
        ensures
            r is Ok ==> final(self).sent() == old(self).sent().push(val) && final(self).unsent()
                == old(self).unsent(),
            r is Err ==> r == Err::<(), VmError>(VmError::Disconnected) && final(self).sent()
                == old(self).sent() && final(self).unsent() == old(self).unsent().push(seq![val]),
            final(self).pending() == old(self).pending(),
            final(self).taken() == old(self).taken(),
            final(self).looks() == old(self).looks(),
    {
        let mut text = String::new();
        push_char(&mut text, val);
        assert(text@ =~= seq![val]);
        assert(self.sent() + seq![val] =~= self.sent().push(val));
        self.send(text)
    }

    /// Puts the characters of an arrived string behind those that wait.
    fn load(&mut self, text: &str)
        ensures
            final(self).pending() == old(self).pending() + text@,
            final(self).taken() == old(self).taken(),
            final(self).sent() == old(self).sent(),
            final(self).unsent() == old(self).unsent(),
            final(self).looks() == old(self).looks(),
    {
        for c in it: text.chars()
            invariant
                it.seq() == text@,
                self.buffer@ == old(self).buffer@ + text@.take(it.index() as int),
                self.taken@ == old(self).taken@,
                self.sent@ == old(self).sent@,
                self.unsent@ == old(self).unsent@,
                self.looks@ == old(self).looks@,
        {
            self.buffer.push_back(c);
            assert(text@.take(it.index() + 1) =~= text@.take(it.index() as int).push(c));
        }
        assert(text@.take(text@.len() as int) =~= text@);
    }

    /// Takes in what one look into the queue brought. The look is noted, and
    /// the characters of a string go behind those that are pending.
    ///
    /// The result tells whether another look is in order: `Ok(true)` after a
    /// string, `Ok(false)` where the queue was empty, and an error where the
    /// peer was gone.
    pub fn take_in(&mut self, found: Polled) -> (r: Result<bool, VmError>)
        ensures
            final(self).looks() == old(self).looks().push(found@),
            final(self).pending() == old(self).pending() + look_text(found@),
            final(self).taken() == old(self).taken(),
            final(self).sent() == old(self).sent(),
            final(self).unsent() == old(self).unsent(),
            r == match found {
                Polled::Text(_) => Ok::<bool, VmError>(true),
                Polled::Empty => Ok::<bool, VmError>(false),
                Polled::Disconnected => Err::<bool, VmError>(VmError::Disconnected),
            },
    {
        proof {
            self.looks@ = self.looks@.push(found@);
        }
        match found {
            Polled::Text(text) => {
                self.load(text.as_str());
                Ok(true)
            },
            Polled::Empty => {
                assert(self.buffer@ + Seq::<char>::empty() =~= self.buffer@);
                Ok(false)
            },
            Polled::Disconnected => {
                assert(self.buffer@ + Seq::<char>::empty() =~= self.buffer@);
                Err(VmError::Disconnected)
            },
        }
    }

    /// Passes over what one look into the queue brought. The look is noted,
    /// and a string that it brought is dropped: what is pending stays.
    ///
    /// The result tells whether another look is in order, as that of
    /// `take_in` does.
    pub fn pass_over(&mut self, found: Polled) -> (r: Result<bool, VmError>)
        ensures
            final(self).looks() == old(self).looks().push(found@),
            final(self).pending() == old(self).pending(),
            final(self).taken() == old(self).taken(),
            final(self).sent() == old(self).sent(),
            final(self).unsent() == old(self).unsent(),
            r == match found {
                Polled::Text(_) => Ok::<bool, VmError>(true),
                Polled::Empty => Ok::<bool, VmError>(false),
                Polled::Disconnected => Err::<bool, VmError>(VmError::Disconnected),
            },
    {
        proof {
            self.looks@ = self.looks@.push(found@);
        }
        match found {
            Polled::Text(_) => Ok(true),
            Polled::Empty => Ok(false),
            Polled::Disconnected => Err(VmError::Disconnected),
        }
    }

    /// Hands out everything that is pending, as one string.
    fn drain(&mut self) -> (r: String)
        ensures
            r@ == old(self).pending(),
            final(self).pending().len() == 0,
            final(self).taken() == old(self).taken() + r@,
            final(self).sent() == old(self).sent(),
            final(self).unsent() == old(self).unsent(),
            final(self).looks() == old(self).looks(),
    {
        let mut rv = String::new();
        let n: usize = self.buffer.len();
        let mut i: usize = 0;
        while i < n
            invariant
                i <= n,
                n == self.buffer@.len(),
                self.buffer@ == old(self).buffer@,
                self.taken@ == old(self).taken@,
                self.sent@ == old(self).sent@,
                self.unsent@ == old(self).unsent@,
                self.looks@ == old(self).looks@,
                rv@ == self.buffer@.take(i as int),
            decreases n - i,
        {
            let c: char = self.buffer[i];
            push_char(&mut rv, c);
            assert(self.buffer@.take(i + 1) =~= self.buffer@.take(i as int).push(c));
            i = i + 1;
        }
        assert(rv@ =~= self.buffer@);
        self.buffer.clear();
        proof {
            self.taken@ = self.taken@ + rv@;
        }
        rv
    }

    /// Takes the next character, waiting for the peer while none is there.
    ///
    /// While characters are pending, the first of them is returned and the
    /// queue is not touched. Else the queue is searched, with a wait at each
    /// look: the first string with characters gives its first character and
    /// keeps the others pending. The call fails when the peer is gone and
    /// has left nothing, or has sent `POLL_LIMIT` empty strings in a row.
    pub fn get_char(&mut self) -> (r: Result<char, VmError>)
        ensures
            old(self).pending().len() > 0 ==> r == Ok::<char, VmError>(old(self).pending()[0])
                && final(self).pending() == old(self).pending().skip(1) && final(self).looks()
                == old(self).looks(),
            old(self).pending().len() == 0 ==> {
                let seen = final(self).seen_since(old(self));
                let text = look_text(seen.last());
                &&& search(seen)
                &&& !(seen.last() is Empty)
                &&& r is Ok <==> text.len() > 0
                &&& r is Ok ==> r->Ok_0 == text[0] && final(self).pending() == text.skip(1)
            },
            old(self).looks().is_prefix_of(final(self).looks()),
            r is Ok ==> final(self).taken() == old(self).taken().push(r->Ok_0),
            r is Err ==> r == Err::<char, VmError>(VmError::Disconnected) && final(self).taken()
                == old(self).taken() && final(self).pending().len() == 0,
            final(self).sent() == old(self).sent(),
            final(self).unsent() == old(self).unsent(),
    {
        let ghost first = self.looks@.len() as int;
        let mut tries: u64 = POLL_LIMIT;
        assert(self.looks@.skip(first) =~= Seq::<Look>::empty());
        while self.buffer.len() == 0 && tries > 0
            invariant
                self.taken@ == old(self).taken@,
                self.sent@ == old(self).sent@,
                self.unsent@ == old(self).unsent@,
                first == old(self).looks@.len(),
                old(self).looks@.is_prefix_of(self.looks@),
                old(self).buffer@.len() > 0 ==> self.buffer@ == old(self).buffer@ && self.looks@
                    == old(self).looks@,
                old(self).buffer@.len() == 0 ==> Self::searching(
                    self.looks@.skip(first),
                    self.buffer@,
                    tries,
                ),
            decreases tries,
        {
            let ghost seen = self.looks@.skip(first);
            let found = match dequeue(&self.text_recv) {
                Some(text) => Polled::Text(text),
                None => Polled::Disconnected,
            };
            let ghost look = found@;
            let more = self.take_in(found);
            proof {
                assert(self.looks@.skip(first) =~= seen.push(look));
                assert(self.buffer@ =~= look_text(look));
            }
            match more {
                Ok(_) => {},
                Err(e) => {
                    return Err(e);
                },
            }
            tries = tries - 1;
        }
        let ghost before = self.buffer@;
        match self.buffer.pop_front() {
            Some(c) => {
                proof {
                    self.taken@ = self.taken@.push(c);
                }
                assert(self.buffer@ =~= before.skip(1));
                Ok(c)
            },
            None => Err(VmError::Disconnected),
        }
    }

    /// Where a search for a character stands that has `tries` looks left:
    /// the looks made so far found empty strings, but for the last, whose
    /// string is what is pending now.
    spec fn searching(seen: Seq<Look>, pending: Seq<char>, tries: u64) -> bool {
        &&& seen.len() == POLL_LIMIT - tries
        &&& forall|i: int| 0 <= i < seen.len() - 1 ==> idle(#[trigger] seen[i])
        &&& seen.len() > 0 ==> seen.last() is Text && seen.last()->Text_0 == pending
        &&& seen.len() == 0 ==> pending.len() == 0
    }

    /// Where the emptying of a queue stands that has `tries` looks left:
    /// every look made so far found a string.
    spec fn sweeping(seen: Seq<Look>, tries: u64) -> bool {
        &&& seen.len() == POLL_LIMIT - tries
        &&& forall|i: int| 0 <= i < seen.len() ==> (#[trigger] seen[i]) is Text
    }

    /// Looks into the queue, without waiting, until a character is pending
    /// or the queue has nothing more.
    ///
    /// While characters are pending the queue is not touched. Else the queue
    /// is searched: the characters of the first string that has any become
    /// pending; the search ends without any where the queue is found empty,
    /// and fails where the peer is found gone.
    fn refill(&mut self) -> (r: Result<(), VmError>)
        ensures
            old(self).pending().len() > 0 ==> r is Ok && final(self).pending() == old(self).pending()
                && final(self).looks() == old(self).looks(),
            old(self).pending().len() == 0 ==> {
                let seen = final(self).seen_since(old(self));
                &&& search(seen)
                &&& final(self).pending() == look_text(seen.last())
                &&& r is Err <==> seen.last() is Disconnected
            },
            old(self).looks().is_prefix_of(final(self).looks()),
            r is Err ==> r == Err::<(), VmError>(VmError::Disconnected) && final(self).pending().len() == 0,
            final(self).taken() == old(self).taken(),
            final(self).sent() == old(self).sent(),
            final(self).unsent() == old(self).unsent(),
    {
        let ghost first = self.looks@.len() as int;
        let mut tries: u64 = POLL_LIMIT;
        assert(self.looks@.skip(first) =~= Seq::<Look>::empty());
        while self.buffer.len() == 0 && tries > 0
            invariant
                self.taken@ == old(self).taken@,
                self.sent@ == old(self).sent@,
                self.unsent@ == old(self).unsent@,
                first == old(self).looks@.len(),
                old(self).looks@.is_prefix_of(self.looks@),
                old(self).buffer@.len() > 0 ==> self.buffer@ == old(self).buffer@ && self.looks@
                    == old(self).looks@,
                old(self).buffer@.len() == 0 ==> Self::searching(
                    self.looks@.skip(first),
                    self.buffer@,
                    tries,
                ),
            decreases tries,
        {
            let ghost seen = self.looks@.skip(first);
            let found = poll(&self.text_recv);
            let ghost look = found@;
            let more = self.take_in(found);
            proof {
                assert(self.looks@.skip(first) =~= seen.push(look));
                assert(self.buffer@ =~= look_text(look));
            }
            match more {
                Ok(true) => {},
                Ok(false) => {
                    return Ok(());
                },
                Err(e) => {
                    return Err(e);
                },
            }
            tries = tries - 1;
        }
        Ok(())
    }

    /// Takes the next character if one is there, and does not wait.
    ///
    /// While characters are pending, the first of them is returned and the
    /// queue is not touched. Else the queue is searched as `is_empty`
    /// searches it, and the first character found is returned. `None` means
    /// that nothing has arrived; the call fails when the peer is gone and
    /// has left nothing.
    pub fn try_get_char(&mut self) -> (r: Result<Option<char>, VmError>)
        ensures
            old(self).pending().len() > 0 ==> r == Ok::<Option<char>, VmError>(
                Some(old(self).pending()[0]),
            ) && final(self).pending() == old(self).pending().skip(1) && final(self).looks()
                == old(self).looks(),
            old(self).pending().len() == 0 ==> {
                let seen = final(self).seen_since(old(self));
                let text = look_text(seen.last());
                &&& search(seen)
                &&& r is Err <==> seen.last() is Disconnected
                &&& r is Ok ==> if text.len() > 0 {
                    r->Ok_0 == Some(text[0]) && final(self).pending() == text.skip(1)
                } else {
                    r->Ok_0 is None
                }
            },
            old(self).looks().is_prefix_of(final(self).looks()),
            r is Ok && r->Ok_0 is Some ==> final(self).taken() == old(self).taken().push(
                r->Ok_0->Some_0,
            ),
            r is Ok && r->Ok_0 is None ==> final(self).taken() == old(self).taken() && final(self).pending().len() == 0,
            r is Err ==> r == Err::<Option<char>, VmError>(VmError::Disconnected) && final(self).taken() == old(self).taken() && final(self).pending().len() == 0,
            final(self).sent() == old(self).sent(),
            final(self).unsent() == old(self).unsent(),
    {
        match self.refill() {
            Err(e) => Err(e),
            Ok(()) => {
                let ghost before = self.buffer@;
                match self.buffer.pop_front() {
                    Some(c) => {
                        proof {
                            self.taken@ = self.taken@.push(c);
                        }
                        assert(self.buffer@ =~= before.skip(1));
                        Ok(Some(c))
                    },
                    None => Ok(None),
                }
            },
        }
    }

    /// Tells whether no character can be had without waiting.
    ///
    /// While characters are pending the queue is not touched. Else the queue
    /// is searched, and the characters of the first string that has any stay
    /// pending for the next `get_char`.
    pub fn is_empty(&mut self) -> (r: Result<bool, VmError>)
        ensures
            r is Ok ==> r->Ok_0 == (final(self).pending().len() == 0),
            old(self).pending().len() > 0 ==> r == Ok::<bool, VmError>(false) && final(self).pending() == old(self).pending()
                && final(self).looks() == old(self).looks(),
            old(self).pending().len() == 0 ==> {
                let seen = final(self).seen_since(old(self));
                &&& search(seen)
                &&& final(self).pending() == look_text(seen.last())
                &&& r is Err <==> seen.last() is Disconnected
            },
            old(self).looks().is_prefix_of(final(self).looks()),
            r is Err ==> r == Err::<bool, VmError>(VmError::Disconnected) && final(self).pending().len() == 0,
            final(self).taken() == old(self).taken(),
            final(self).sent() == old(self).sent(),
            final(self).unsent() == old(self).unsent(),
    {
        match self.refill() {
            Err(e) => Err(e),
            Ok(()) => Ok(self.buffer.len() == 0),
        }
    }

    /// Takes everything that can be had without waiting, as one string:
    /// the pending characters first, then the queued strings in order, until
    /// the queue is found empty.
    ///
    /// Fails when the peer is found gone; the pending characters then stay,
    /// and what the looks brought is dropped.
    pub fn get_all(&mut self) -> (r: Result<String, VmError>)
        ensures
            old(self).looks().is_prefix_of(final(self).looks()),
            sweep(final(self).seen_since(old(self))),
            r is Err <==> final(self).seen_since(old(self)).last() is Disconnected,
            r is Ok ==> r->Ok_0@ == old(self).pending() + gathered(final(self).seen_since(old(self))),
            r is Ok ==> old(self).pending().is_prefix_of(r->Ok_0@) && final(self).taken() == old(self).taken() + r->Ok_0@ && final(self).pending().len() == 0,
            r is Err ==> r == Err::<String, VmError>(VmError::Disconnected) && final(self).taken()
                == old(self).taken() && final(self).pending() == old(self).pending(),
            final(self).sent() == old(self).sent(),
            final(self).unsent() == old(self).unsent(),
    {
        let kept: usize = self.buffer.len();
        let ghost first = self.looks@.len() as int;
        let mut tries: u64 = POLL_LIMIT;
        assert(self.looks@.skip(first) =~= Seq::<Look>::empty());
        assert(self.buffer@ =~= self.buffer@ + gathered(Seq::<Look>::empty()));
        while tries > 0
            invariant
                kept == old(self).buffer@.len(),
                self.taken@ == old(self).taken@,
                self.sent@ == old(self).sent@,
                self.unsent@ == old(self).unsent@,
                first == old(self).looks@.len(),
                old(self).looks@.is_prefix_of(self.looks@),
                Self::sweeping(self.looks@.skip(first), tries),
                self.buffer@ == old(self).buffer@ + gathered(self.looks@.skip(first)),
            decreases tries,
        {
            let ghost seen = self.looks@.skip(first);
            let found = poll(&self.text_recv);
            let ghost look = found@;
            let more = self.take_in(found);
            proof {
                assert(self.looks@.skip(first) =~= seen.push(look));
                assert(seen.push(look).drop_last() =~= seen);
                assert(self.buffer@ =~= old(self).buffer@ + gathered(seen.push(look)));
            }
            match more {
                Ok(true) => {},
                Ok(false) => {
                    return Ok(self.drain());
                },
                Err(e) => {
                    self.buffer.truncate(kept);
                    assert(self.buffer@ =~= old(self).buffer@);
                    return Err(e);
                },
            }
            tries = tries - 1;
        }
        Ok(self.drain())
    }

    /// Discards the strings that are queued: takes them out of the queue,
    /// one after the other, until the queue is found empty or the peer
    /// gone. Characters that are already pending stay.
    pub fn reset(&mut self) -> (r: Result<(), VmError>)
        ensures
            r is Ok,
            old(self).looks().is_prefix_of(final(self).looks()),
            sweep(final(self).seen_since(old(self))),
            final(self).pending() == old(self).pending(),
            final(self).taken() == old(self).taken(),
            final(self).sent() == old(self).sent(),
            final(self).unsent() == old(self).unsent(),
    {
        let ghost first = self.looks@.len() as int;
        let mut tries: u64 = POLL_LIMIT;
        assert(self.looks@.skip(first) =~= Seq::<Look>::empty());
        while tries > 0
            invariant
                self.buffer@ == old(self).buffer@,
                self.taken@ == old(self).taken@,
                self.sent@ == old(self).sent@,
                self.unsent@ == old(self).unsent@,
                first == old(self).looks@.len(),
                old(self).looks@.is_prefix_of(self.looks@),
                Self::sweeping(self.looks@.skip(first), tries),
            decreases tries,
        {
            let ghost seen = self.looks@.skip(first);
            let found = poll(&self.text_recv);
            let ghost look = found@;
            let more = self.pass_over(found);
            proof {
                assert(self.looks@.skip(first) =~= seen.push(look));
            }
            match more {
                Ok(true) => {},
                _ => {
                    return Ok(());
                },
            }
            tries = tries - 1;
        }
        Ok(())
    }
}

} // verus!
