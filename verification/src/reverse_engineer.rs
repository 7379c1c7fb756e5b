use vstd::prelude::*;
use crate::error::VmError;
use crate::op_parser::{decode, lemma_decode_wf, words_of, Op};

verus! {

/// Reads a program as one instruction after the other, from the word `at`
/// on: the first instruction that does not decode gives its error, and a
/// program that is read to its end gives none. The last instruction may
/// have fewer than four words left to be read from.
pub open spec fn scan(words: Seq<u16>, at: int) -> Result<(), VmError>
    decreases words.len() - at,
{
    if at < 0 || at >= words.len() {
        Ok(())
    } else {
        let end = if at + 4 <= words.len() {
            at + 4
        } else {
            words.len() as int
        };
        match decode(words.subrange(at, end)) {
            Err(e) => Err(e),
            Ok(op) => scan(words, at + op.size()),
        }
    }
}

/// Walks through a program image instruction by instruction, from its first
/// word to its end. The listing that is returned is empty.
///
/// An image with an odd number of bytes is rejected; an instruction that
/// does not decode ends the walk with its error.
pub fn parse(content: &[u8]) -> (r: Result<String, VmError>)
    ensures
        content@.len() % 2 == 1 ==> r == Err::<String, VmError>(VmError::OddImageLength),
        content@.len() % 2 == 0 ==> match scan(words_of(content@), 0) {
            Ok(()) => r is Ok && r->Ok_0@ == Seq::<char>::empty(),
            Err(e) => r == Err::<String, VmError>(e),
        },
{
    let rv = String::new();
    let words = Op::convert_bytes(content)?;
    let n: usize = words.len();
    let mut i: usize = 0;
    while i < n
        invariant
            i <= n,
            n == words@.len(),
            words@ == words_of(content@),
            content@.len() % 2 == 0,
            rv@ == Seq::<char>::empty(),
            scan(words@, 0) == scan(words@, i as int),
        decreases n - i,
    {
        let end: usize = if n - i >= 4 {
            i + 4
        } else {
            n
        };
        proof {
            lemma_decode_wf(words@.subrange(i as int, end as int));
        }
        let op = Op::parse(vstd::slice::slice_subrange(words.as_slice(), i, end))?;
        i = i + op.param_bytes() as usize;
    }
    Ok(rv)
}

} // verus!
