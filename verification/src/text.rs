use vstd::prelude::*;

verus! {

/// The characters that count as white space.
pub open spec fn is_space(c: char) -> bool {
    let n = c as u32;
    ||| 0x09 <= n <= 0x0D
    ||| n == 0x20
    ||| n == 0x85
    ||| n == 0xA0
    ||| n == 0x1680
    ||| 0x2000 <= n <= 0x200A
    ||| n == 0x2028
    ||| n == 0x2029
    ||| n == 0x202F
    ||| n == 0x205F
    ||| n == 0x3000
}

/// A text without the white space at its start.
pub open spec fn trim_start(s: Seq<char>) -> Seq<char>
    decreases s.len(),
{
    if s.len() > 0 && is_space(s[0]) {
        trim_start(s.skip(1))
    } else {
        s
    }
}

/// A text without the white space at its end.
pub open spec fn trim_end(s: Seq<char>) -> Seq<char>
    decreases s.len(),
{
    if s.len() > 0 && is_space(s.last()) {
        trim_end(s.drop_last())
    } else {
        s
    }
}

/// A text without the white space at its start and at its end.
pub open spec fn trimmed(s: Seq<char>) -> Seq<char> {
    trim_end(trim_start(s))
}

/// Whether a character counts as white space.
pub fn is_white_space(c: char) -> (r: bool)
    ensures
        r == is_space(c),
{
    let n: u32 = c as u32;
    (0x09 <= n && n <= 0x0D) || n == 0x20 || n == 0x85 || n == 0xA0 || n == 0x1680 || (0x2000 <= n
        && n <= 0x200A) || n == 0x2028 || n == 0x2029 || n == 0x202F || n == 0x205F || n
        == 0x3000
}

/// The characters of a text.
pub fn chars_of(text: &str) -> (r: Vec<char>)
    ensures
        r@ == text@,
{
    let mut chars: Vec<char> = Vec::new();
    for c in it: text.chars()
        invariant
            it.seq() == text@,
            chars@ == text@.take(it.index() as int),
    {
        chars.push(c);
        assert(text@.take(it.index() + 1) =~= text@.take(it.index() as int).push(c));
    }
    assert(text@.take(text@.len() as int) =~= text@);
    chars
}

/// The end of the part of a text from `from` to `to` without the white
/// space at its end.
pub fn trim_end_bound(chars: &Vec<char>, from: usize, to: usize) -> (r: usize)
    requires
        from <= to <= chars@.len(),
    ensures
        from <= r <= to,
        trim_end(chars@.subrange(from as int, to as int)) == chars@.subrange(from as int, r as int),
{
    let mut end: usize = to;
    while end > from && is_white_space(chars[end - 1])
        invariant
            from <= end <= to,
            to <= chars@.len(),
            trim_end(chars@.subrange(from as int, to as int)) == trim_end(
                chars@.subrange(from as int, end as int),
            ),
        decreases end,
    {
        assert(chars@.subrange(from as int, end as int).drop_last() =~= chars@.subrange(
            from as int,
            end - 1,
        ));
        end = end - 1;
    }
    end
}

/// The bounds of a text without the white space around it.
pub fn trim_bounds(chars: &Vec<char>) -> (r: (usize, usize))
    ensures
        r.0 <= r.1 <= chars@.len(),
        trimmed(chars@) == chars@.subrange(r.0 as int, r.1 as int),
{
    let n: usize = chars.len();
    let mut from: usize = 0;
    assert(chars@.skip(0) =~= chars@);
    while from < n && is_white_space(chars[from])
        invariant
            from <= n,
            n == chars@.len(),
            trim_start(chars@) == trim_start(chars@.skip(from as int)),
        decreases n - from,
    {
        assert(chars@.skip(from as int).skip(1) =~= chars@.skip(from + 1));
        from = from + 1;
    }
    assert(trim_start(chars@) == chars@.skip(from as int));
    assert(chars@.subrange(from as int, n as int) =~= chars@.skip(from as int));
    let to: usize = trim_end_bound(chars, from, n);
    (from, to)
}

/// The first place at or after `from` at which `pattern` stands in `text`.
pub open spec fn first_from<T>(text: Seq<T>, pattern: Seq<T>, from: int) -> Option<int>
    decreases text.len() - from,
{
    if from < 0 || from + pattern.len() > text.len() {
        None
    } else if text.subrange(from, from + pattern.len()) == pattern {
        Some(from)
    } else if from >= text.len() {
        None
    } else {
        first_from(text, pattern, from + 1)
    }
}

/// The first place at which `pattern` stands in `text`.
pub open spec fn first_match<T>(text: Seq<T>, pattern: Seq<T>) -> Option<int> {
    first_from(text, pattern, 0)
}

/// A match lies within the text.
pub proof fn lemma_first_from_bounds<T>(text: Seq<T>, pattern: Seq<T>, from: int)
    requires
        0 <= from,
    ensures
        first_from(text, pattern, from) is Some ==> from <= first_from(text, pattern, from)->Some_0
            && first_from(text, pattern, from)->Some_0 + pattern.len() <= text.len(),
    decreases text.len() - from,
{
    if from + pattern.len() <= text.len() && text.subrange(from, from + pattern.len())
        != pattern && from < text.len() {
        lemma_first_from_bounds(text, pattern, from + 1);
    }
}

/// Whether `pattern` stands in `text` at `at`.
fn stands_at(text: &[u8], pattern: &[u8], at: usize) -> (r: bool)
    requires
        at + pattern@.len() <= text@.len(),
    ensures
        r == (text@.subrange(at as int, at + pattern@.len()) == pattern@),
{
    let n: usize = pattern.len();
    let m: usize = text.len();
    let mut k: usize = 0;
    while k < n
        invariant
            k <= n,
            n == pattern@.len(),
            m == text@.len(),
            at + n <= m,
            forall|j: int| 0 <= j < k ==> text@[at + j] == pattern@[j],
        decreases n - k,
    {
        if text[at + k] != pattern[k] {
            assert(text@.subrange(at as int, at + n)[k as int] != pattern@[k as int]);
            return false;
        }
        k = k + 1;
    }
    assert(text@.subrange(at as int, at + n) =~= pattern@);
    true
}

/// Finds the first place at or after `from` at which `pattern` stands in
/// `text`.
pub fn find_from(text: &[u8], pattern: &[u8], from: usize) -> (r: Option<usize>)
    ensures
        match first_from(text@, pattern@, from as int) {
            Some(at) => r == Some(at as usize) && from <= at && at + pattern@.len() <= text@.len(),
            None => r is None,
        },
{
    proof {
        lemma_first_from_bounds(text@, pattern@, from as int);
    }
    if pattern.len() > text.len() || from > text.len() - pattern.len() {
        return None;
    }
    let last: usize = text.len() - pattern.len();
    let mut at: usize = from;
    loop
        invariant
            from <= at <= last,
            last == text@.len() - pattern@.len(),
            first_from(text@, pattern@, from as int) == first_from(text@, pattern@, at as int),
        decreases last - at,
    {
        if stands_at(text, pattern, at) {
            return Some(at);
        }
        if at == last {
            return None;
        }
        at = at + 1;
    }
}

} // verus!
