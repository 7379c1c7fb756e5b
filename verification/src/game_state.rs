use vstd::prelude::*;
use vstd::string::StrSliceExecFns;
use vstd::string::StringExecFns;
use vstd::string::StringSliceAdditionalSpecFns;
use vstd::utf8::{encode_utf8, is_char_boundary};
use crate::error::VmError;
use crate::text::{chars_of, find_from, first_match, trim_end, trim_end_bound};
use crate::transcript::texts;
use crate::vm::StaticExecuter;

verus! {

/// What the orb weighs when it is picked up.
pub const ORB_START_WEIGHT: usize = 22;

/// Number of bytes, from the start of a mosaic's description, within which
/// its symbol stands.
pub const SYMBOL_REACH: usize = 25;

/// Why a piece of the game's output could not be taken in.
#[derive(Debug, Clone, Copy, PartialEq, Eq, Structural)]
pub enum ScrapeError {
    /// A mosaic shows a symbol while the last symbol still waits for its
    /// number.
    SymbolPending,
    /// The output ends, or has no character boundary, where the search for
    /// a mosaic's symbol would end.
    SymbolOutOfReach,
    /// A mosaic shows none of the three symbols.
    SymbolMissing,
    /// A mosaic shows a number while no symbol waits for one.
    NumberWithoutSymbol,
    /// A mosaic's number has no closing quote.
    NumberUnclosed,
    /// A mosaic's number is no number.
    NumberMalformed,
    /// The symbol that waits is none of the three.
    SymbolUnknown,
    /// The orb's new weight cannot be represented.
    WeightOutOfRange,
}

/// Why the game's state could not be brought up to date.
#[derive(Debug, Clone, Copy, PartialEq, Eq, Structural)]
pub enum UpdateError {
    /// The engine failed.
    Engine(VmError),
    /// The engine's output could not be taken in.
    Output(ScrapeError),
}

/// What the host knows of the game: what the player carries, what the orb
/// weighs, and the symbol of the last mosaic that still waits for a number.
#[derive(Debug)]
pub struct GameState {
    pub inventory: Vec<String>,
    pub orb_weight: usize,
    pub last_symbol: Option<char>,
}

/// A game state as mathematics.
pub struct Stock {
    pub inventory: Seq<Seq<char>>,
    pub orb_weight: usize,
    pub last_symbol: Option<char>,
}

impl View for GameState {
    type V = Stock;

    open spec fn view(&self) -> Stock {
        Stock {
            inventory: texts(self.inventory@),
            orb_weight: self.orb_weight,
            last_symbol: self.last_symbol,
        }
    }
}

/// The heading of an inventory listing.
pub open spec fn inventory_mark() -> Seq<u8> {
    "Your inventory:".spec_bytes()
}

/// The start of a mosaic that shows a symbol.
pub open spec fn symbol_mark() -> Seq<u8> {
    "mosaic depicting a".spec_bytes()
}

/// The start of a mosaic that shows a number, up to its opening quote.
pub open spec fn number_mark() -> Seq<u8> {
    "mosaic depicting the number '".spec_bytes()
}

/// The place of the first line break at or after `from`, or the text's end.
pub open spec fn next_break(text: Seq<char>, from: int) -> int
    decreases text.len() - from,
{
    if from < 0 || from >= text.len() || text[from] == '\n' {
        from
    } else {
        next_break(text, from + 1)
    }
}

/// The items that the lines of a text from `from` on list: a line lists an
/// item where, without the white space at its end, it begins with a dash
/// and a space; the item is what follows them.
pub open spec fn items_from(text: Seq<char>, from: int) -> Seq<Seq<char>>
    decreases text.len() - from,
{
    if from < 0 || from >= text.len() {
        Seq::empty()
    } else {
        let end = next_break(text, from);
        let line = trim_end(text.subrange(from, end));
        let here = if seq!['-', ' '].is_prefix_of(line) {
            seq![line.skip(2)]
        } else {
            Seq::empty()
        };
        if from <= end && end < text.len() {
            here + items_from(text, end + 1)
        } else {
            here
        }
    }
}

/// The items that the lines of a text list.
pub open spec fn items(text: Seq<char>) -> Seq<Seq<char>> {
    items_from(text, 0)
}

/// The number that a run of decimal digits denotes.
pub open spec fn digits_value(digits: Seq<u8>) -> nat
    decreases digits.len(),
{
    if digits.len() == 0 {
        0
    } else {
        digits_value(digits.drop_last()) * 10 + (digits.last() - 48) as nat
    }
}

/// Every byte is a decimal digit.
pub open spec fn all_digits(digits: Seq<u8>) -> bool {
    forall|i: int| 0 <= i < digits.len() ==> 48 <= #[trigger] digits[i] <= 57
}

/// The number that a run of bytes denotes: decimal digits, at least one and
/// nothing else, whose value can be represented.
pub open spec fn digits_number(digits: Seq<u8>) -> Option<usize> {
    if digits.len() == 0 || !all_digits(digits) || digits_value(digits) > usize::MAX {
        None
    } else {
        Some(digits_value(digits) as usize)
    }
}

/// The number that a text denotes: an optional plus sign and then decimal
/// digits, at least one and nothing else, whose value can be represented.
pub open spec fn number_of(text: Seq<u8>) -> Option<usize> {
    if text.len() > 0 && text[0] == 43 {
        digits_number(text.skip(1))
    } else {
        digits_number(text)
    }
}

/// The symbol that a mosaic shows: the first of `*`, `+` and `-`, in this
/// order of preference, that stands in the bytes searched.
pub open spec fn symbol_in(window: Seq<u8>) -> Option<char> {
    if window.contains(42) {
        Some('*')
    } else if window.contains(43) {
        Some('+')
    } else if window.contains(45) {
        Some('-')
    } else {
        None
    }
}

/// The orb's weight after the mosaic with `symbol` and the one with `num`.
pub open spec fn weigh(weight: usize, symbol: char, num: usize) -> Result<usize, ScrapeError> {
    if symbol == '*' {
        if weight * num > usize::MAX {
            Err(ScrapeError::WeightOutOfRange)
        } else {
            Ok((weight * num) as usize)
        }
    } else if symbol == '+' {
        if weight + num > usize::MAX {
            Err(ScrapeError::WeightOutOfRange)
        } else {
            Ok((weight + num) as usize)
        }
    } else if symbol == '-' {
        if weight < num {
            Err(ScrapeError::WeightOutOfRange)
        } else {
            Ok((weight - num) as usize)
        }
    } else {
        Err(ScrapeError::SymbolUnknown)
    }
}

impl Stock {
    /// The state after a mosaic's symbol has been looked for in the output.
    pub open spec fn note_symbol(self, bytes: Seq<u8>) -> (Stock, Result<(), ScrapeError>) {
        match first_match(bytes, symbol_mark()) {
            None => (self, Ok(())),
            Some(at) => if self.last_symbol is Some {
                (self, Err(ScrapeError::SymbolPending))
            } else if at + SYMBOL_REACH > bytes.len() || !is_char_boundary(
                bytes,
                at + SYMBOL_REACH,
            ) {
                (self, Err(ScrapeError::SymbolOutOfReach))
            } else {
                match symbol_in(bytes.subrange(at, at + SYMBOL_REACH)) {
                    None => (self, Err(ScrapeError::SymbolMissing)),
                    Some(c) => (Stock { last_symbol: Some(c), ..self }, Ok(())),
                }
            },
        }
    }

    /// The state after a mosaic's number has been looked for in the output.
    pub open spec fn note_number(self, bytes: Seq<u8>) -> (Stock, Result<(), ScrapeError>) {
        match first_match(bytes, number_mark()) {
            None => (self, Ok(())),
            Some(at) => if self.last_symbol is None {
                (self, Err(ScrapeError::NumberWithoutSymbol))
            } else {
                let from = at + number_mark().len();
                match first_match(bytes.skip(from), seq![39u8]) {
                    None => (self, Err(ScrapeError::NumberUnclosed)),
                    Some(len) => match number_of(bytes.subrange(from, from + len)) {
                        None => (self, Err(ScrapeError::NumberMalformed)),
                        Some(num) => match weigh(self.orb_weight, self.last_symbol->Some_0, num) {
                            Err(e) => (self, Err(e)),
                            Ok(weight) => (
                                Stock { orb_weight: weight, last_symbol: None, ..self },
                                Ok(()),
                            ),
                        },
                    },
                }
            },
        }
    }

    /// The state after a piece of the game's output.
    ///
    /// An inventory listing replaces what the player carries. Without the
    /// orb nothing is weighed. With it, a weight of zero becomes the orb's
    /// first weight; then a mosaic's symbol is noted, and a mosaic's number
    /// is applied with the symbol that waits. After an error the state is as
    /// far as it had come.
    pub open spec fn scrape(self, text: Seq<char>) -> (Stock, Result<(), ScrapeError>) {
        let bytes = encode_utf8(text);
        let inventory = if first_match(bytes, inventory_mark()) is Some {
            items(text)
        } else {
            self.inventory
        };
        if !inventory.contains("orb"@) {
            (Stock { inventory, orb_weight: 0, last_symbol: None }, Ok(()))
        } else {
            let held = Stock {
                inventory,
                orb_weight: if self.orb_weight == 0 {
                    ORB_START_WEIGHT
                } else {
                    self.orb_weight
                },
                last_symbol: self.last_symbol,
            };
            match held.note_symbol(bytes) {
                (noted, Err(e)) => (noted, Err(e)),
                (noted, Ok(())) => noted.note_number(bytes),
            }
        }
    }
}

/// A run of digits denotes at least what each of its beginnings denotes.
pub proof fn lemma_digits_prefix(digits: Seq<u8>, k: int)
    requires
        all_digits(digits),
        0 <= k <= digits.len(),
    ensures
        digits_value(digits.take(k)) <= digits_value(digits),
    decreases digits.len(),
{
    if k == digits.len() {
        assert(digits.take(k) =~= digits);
    } else {
        assert(digits.drop_last().take(k) =~= digits.take(k));
        lemma_digits_prefix(digits.drop_last(), k);
    }
}

/// Reads the bytes from `from` to `to` as a number.
pub fn parse_number(bytes: &[u8], from: usize, to: usize) -> (r: Option<usize>)
    requires
        from <= to <= bytes@.len(),
    ensures
        r == number_of(bytes@.subrange(from as int, to as int)),
{
    let ghost text = bytes@.subrange(from as int, to as int);
    let start: usize = if from < to && bytes[from] == 43 {
        from + 1
    } else {
        from
    };
    let ghost digits = bytes@.subrange(start as int, to as int);
    assert(digits =~= if text.len() > 0 && text[0] == 43 {
        text.skip(1)
    } else {
        text
    });
    assert(number_of(text) == digits_number(digits));
    if start == to {
        return None;
    }
    let mut acc: usize = 0;
    let mut i: usize = start;
    assert(digits.take(0) =~= Seq::<u8>::empty());
    while i < to
        invariant
            start <= i <= to,
            to <= bytes@.len(),
            digits == bytes@.subrange(start as int, to as int),
            number_of(bytes@.subrange(from as int, to as int)) == digits_number(digits),
            start < to,
            all_digits(digits.take(i - start)),
            acc == digits_value(digits.take(i - start)),
        decreases to - i,
    {
        let b: u8 = bytes[i];
        let ghost seen = digits.take(i - start);
        let ghost more = digits.take(i - start + 1);
        assert(more.drop_last() =~= seen);
        assert(more.last() == b);
        if b < 48 || b > 57 {
            assert(digits[i - start] == b);
            return None;
        }
        let next = match acc.checked_mul(10) {
            Some(tenfold) => tenfold.checked_add((b - 48) as usize),
            None => None,
        };
        match next {
            Some(value) => {
                acc = value;
            },
            None => {
                proof {
                    assert(digits_value(more) > usize::MAX);
                    if all_digits(digits) {
                        lemma_digits_prefix(digits, i - start + 1);
                    }
                }
                return None;
            },
        }
        assert forall|j: int| 0 <= j < more.len() implies 48 <= #[trigger] more[j] <= 57 by {
            if j < seen.len() {
                assert(more[j] == seen[j]);
            }
        }
        i = i + 1;
    }
    assert(digits.take(to - start) =~= digits);
    Some(acc)
}

/// Whether the byte `b` stands between `from` and `to`.
fn holds(bytes: &[u8], from: usize, to: usize, b: u8) -> (r: bool)
    requires
        from <= to <= bytes@.len(),
    ensures
        r == bytes@.subrange(from as int, to as int).contains(b),
{
    let mut i: usize = from;
    while i < to
        invariant
            from <= i <= to,
            to <= bytes@.len(),
            forall|j: int| from <= j < i ==> bytes@[j] != b,
        decreases to - i,
    {
        if bytes[i] == b {
            assert(bytes@.subrange(from as int, to as int)[i - from] == b);
            return true;
        }
        i = i + 1;
    }
    false
}

/// The items that the lines of the game's output list.
pub fn list_items(output: &str) -> (r: Vec<String>)
    ensures
        texts(r@) == items(output@),
{
    let chars = chars_of(output);
    let n: usize = chars.len();
    let mut found: Vec<String> = Vec::new();
    let mut start: usize = 0;
    assert(texts(found@) =~= Seq::<Seq<char>>::empty());
    while start < n
        invariant
            start <= n,
            n == chars@.len(),
            chars@ == output@,
            items(output@) == texts(found@) + items_from(output@, start as int),
        decreases n - start,
    {
        let mut end: usize = start;
        while end < n && chars[end] != '\n'
            invariant
                start <= end <= n,
                n == chars@.len(),
                next_break(chars@, start as int) == next_break(chars@, end as int),
            decreases n - end,
        {
            end = end + 1;
        }
        let to: usize = trim_end_bound(&chars, start, end);
        let ghost line = chars@.subrange(start as int, to as int);
        let listed: bool = to - start >= 2 && chars[start] == '-' && chars[start + 1] == ' ';
        proof {
            if listed {
                assert(seq!['-', ' '] =~= line.subrange(0, 2));
            } else if seq!['-', ' '].is_prefix_of(line) {
                assert(line[0] == '-' && line[1] == ' ');
            }
        }
        let ghost before = texts(found@);
        if listed {
            let item = String::from_str(output.substring_char(start + 2, to));
            assert(item@ =~= line.skip(2));
            found.push(item);
            assert(texts(found@) =~= before + seq![line.skip(2)]);
        }
        let next: usize = if end < n {
            end + 1
        } else {
            n
        };
        proof {
            let here = if listed {
                seq![line.skip(2)]
            } else {
                Seq::<Seq<char>>::empty()
            };
            assert(next_break(output@, start as int) == end);
            assert(items_from(output@, start as int) =~= here + items_from(output@, next as int));
            assert(texts(found@) + items_from(output@, next as int) =~= before + (here
                + items_from(output@, next as int)));
        }
        start = next;
    }
    assert(texts(found@) + Seq::<Seq<char>>::empty() =~= texts(found@));
    found
}

/// The orb's weight after the mosaic with `symbol` and the one with `num`.
fn weigh_orb(weight: usize, symbol: char, num: usize) -> (r: Result<usize, ScrapeError>)
    ensures
        r == weigh(weight, symbol, num),
{
    let weighed = if symbol == '*' {
        weight.checked_mul(num)
    } else if symbol == '+' {
        weight.checked_add(num)
    } else if symbol == '-' {
        weight.checked_sub(num)
    } else {
        return Err(ScrapeError::SymbolUnknown);
    };
    match weighed {
        Some(w) => Ok(w),
        None => Err(ScrapeError::WeightOutOfRange),
    }
}

/// What bringing a game state up to date through a session has done: a
/// finished session is left alone; else `inv` was entered, and where the
/// session went on, the state has taken in the answer.
pub open spec fn refreshed(
    before: Stock,
    after: Stock,
    session: &StaticExecuter,
    later: &StaticExecuter,
    r: Result<(), UpdateError>,
) -> bool {
    if session.finished() {
        r is Ok && after == before && later == session
    } else {
        let answer = later.host().taken().skip(session.host().taken().len() as int);
        &&& later.transcript() == session.transcript().push("inv\n"@)
        &&& if later.finished() {
            after == before && (r is Ok || r is Err && r->Err_0 is Engine)
        } else {
            &&& session.host().taken().is_prefix_of(later.host().taken())
            &&& after == before.scrape(answer).0
            &&& r == match before.scrape(answer).1 {
                Ok(()) => Ok::<(), UpdateError>(()),
                Err(e) => Err::<(), UpdateError>(UpdateError::Output(e)),
            }
        }
    }
}

impl Default for GameState {
    /// The state before anything is known: nothing carried, no weight, no
    /// symbol.
    fn default() -> (r: Self)
        ensures
            r@ == (Stock { inventory: Seq::empty(), orb_weight: 0, last_symbol: None }),
    {
        let r = GameState { inventory: Vec::new(), orb_weight: 0, last_symbol: None };
        assert(texts(r.inventory@) =~= Seq::<Seq<char>>::empty());
        r
    }
}

impl GameState {
    /// Whether the player carries the orb.
    pub fn has_orb(&self) -> (r: bool)
        ensures
            r == self@.inventory.contains("orb"@),
    {
        let orb = String::from_str("orb");
        let mut i: usize = 0;
        while i < self.inventory.len()
            invariant
                i <= self.inventory@.len(),
                orb@ == "orb"@,
                forall|j: int| 0 <= j < i ==> texts(self.inventory@)[j] != "orb"@,
            decreases self.inventory@.len() - i,
        {
            if self.inventory[i] == orb {
                assert(texts(self.inventory@)[i as int] == "orb"@);
                return true;
            }
            i = i + 1;
        }
        false
    }

    /// Looks for a mosaic's symbol in the output.
    fn note_symbol(&mut self, output: &str) -> (r: Result<(), ScrapeError>)
        ensures
            (final(self)@, r) == old(self)@.note_symbol(output.spec_bytes()),
    {
        let bytes = output.as_bytes();
        match find_from(bytes, "mosaic depicting a".as_bytes(), 0) {
            None => Ok(()),
            Some(at) => {
                if self.last_symbol.is_some() {
                    return Err(ScrapeError::SymbolPending);
                }
                if bytes.len() - at < SYMBOL_REACH || !output.is_char_boundary(at + SYMBOL_REACH) {
                    return Err(ScrapeError::SymbolOutOfReach);
                }
                let to: usize = at + SYMBOL_REACH;
                let symbol = if holds(bytes, at, to, 42) {
                    '*'
                } else if holds(bytes, at, to, 43) {
                    '+'
                } else if holds(bytes, at, to, 45) {
                    '-'
                } else {
                    return Err(ScrapeError::SymbolMissing);
                };
                self.last_symbol = Some(symbol);
                Ok(())
            },
        }
    }

    /// Looks for a mosaic's number in the output and applies it.
    fn note_number(&mut self, output: &str) -> (r: Result<(), ScrapeError>)
        ensures
            (final(self)@, r) == old(self)@.note_number(output.spec_bytes()),
    {
        let bytes = output.as_bytes();
        let mark = "mosaic depicting the number '".as_bytes();
        match find_from(bytes, mark, 0) {
            None => Ok(()),
            Some(at) => {
                let symbol = match self.last_symbol {
                    None => {
                        return Err(ScrapeError::NumberWithoutSymbol);
                    },
                    Some(c) => c,
                };
                let total: usize = bytes.len();
                let from: usize = at + mark.len();
                let rest = vstd::slice::slice_subrange(bytes, from, total);
                assert(rest@ =~= bytes@.skip(from as int));
                let quote: [u8; 1] = [39u8];
                assert(quote@ =~= seq![39u8]);
                let len = match find_from(rest, vstd::array::array_as_slice(&quote), 0) {
                    None => {
                        return Err(ScrapeError::NumberUnclosed);
                    },
                    Some(len) => len,
                };
                let num = match parse_number(bytes, from, from + len) {
                    None => {
                        return Err(ScrapeError::NumberMalformed);
                    },
                    Some(num) => num,
                };
                self.orb_weight = weigh_orb(self.orb_weight, symbol, num)?;
                self.last_symbol = None;
                Ok(())
            },
        }
    }

    /// Takes in a piece of the game's output: the state becomes, and the
    /// result is, what `Stock::scrape` says.
    pub fn update_from_output(&mut self, output: &str) -> (r: Result<(), ScrapeError>)
        ensures
            (final(self)@, r) == old(self)@.scrape(output@),
    {
        let bytes = output.as_bytes();
        if find_from(bytes, "Your inventory:".as_bytes(), 0).is_some() {
            self.inventory = list_items(output);
        }
        if !self.has_orb() {
            self.orb_weight = 0;
            self.last_symbol = None;
            return Ok(());
        }
        if self.orb_weight == 0 {
            self.orb_weight = ORB_START_WEIGHT;
        }
        self.note_symbol(output)?;
        self.note_number(output)
    }

    /// Asks the game for the inventory and takes in the answer. A finished
    /// session is not asked.
    pub fn update_from_executor(&mut self, executer: &mut StaticExecuter) -> (r: Result<
        (),
        UpdateError,
    >)
        requires
            old(executer).wf(),
        ensures
            final(executer).wf(),
            refreshed(old(self)@, final(self)@, &*old(executer), &*final(executer), r),
    {
        if executer.is_finished() {
            return Ok(());
        }
        match executer.execute(String::from_str("inv\n")) {
            Err(e) => Err(UpdateError::Engine(e)),
            Ok(None) => Ok(()),
            Ok(Some(output)) => {
                assert(executer.host().taken().skip(old(executer).host().taken().len() as int)
                    =~= output@);
                match self.update_from_output(output.as_str()) {
                    Ok(()) => Ok(()),
                    Err(e) => Err(UpdateError::Output(e)),
                }
            },
        }
    }

    /// Takes in a piece of the game's output, then asks the game for the
    /// inventory and takes in the answer.
    pub fn update(&mut self, output: &str, executor: &mut StaticExecuter) -> (r: Result<
        (),
        UpdateError,
    >)
        requires
            old(executor).wf(),
        ensures
            final(executor).wf(),
            match old(self)@.scrape(output@) {
                (taken_in, Err(e)) => r == Err::<(), UpdateError>(UpdateError::Output(e)) && final(self)@ == taken_in && *final(executor) == *old(executor),
                (taken_in, Ok(())) => refreshed(
                    taken_in,
                    final(self)@,
                    &*old(executor),
                    &*final(executor),
                    r,
                ),
            },
    {
        match self.update_from_output(output) {
            Ok(()) => self.update_from_executor(executor),
            Err(e) => Err(UpdateError::Output(e)),
        }
    }
}

} // verus!
