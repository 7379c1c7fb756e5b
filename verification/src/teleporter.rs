use vstd::prelude::*;
use std::collections::HashMap;

verus! {

broadcast use vstd::std_specs::hash::group_hash_axioms;

/// First register at the start of the integrity check.
pub const CHECK_START_R0: u16 = 4;

/// Second register at the start of the integrity check.
pub const CHECK_START_R1: u16 = 5445;

/// What the program's integrity check computes: the first two registers
/// after the check has run on `(a, b)` with `c` in the last register.
pub open spec fn confirm(a: nat, b: nat, c: nat) -> (nat, nat)
    decreases a, b,
{
    if a == 0 {
        ((b + 1) % 32768, b)
    } else if b == 0 {
        confirm((a - 1) as nat, c, c)
    } else {
        confirm((a - 1) as nat, confirm(a, (b - 1) as nat, c).0, c)
    }
}

/// The check's first result is a number, and its second is a number where
/// its inputs are bounded alike.
pub proof fn lemma_confirm_bounded(a: nat, b: nat, c: nat, limit: nat)
    requires
        b <= limit,
        c <= limit,
        32767 <= limit,
    ensures
        confirm(a, b, c).0 < 32768,
        confirm(a, b, c).1 <= limit,
    decreases a, b,
{
    if a == 0 {
    } else if b == 0 {
        lemma_confirm_bounded((a - 1) as nat, c, c, limit);
    } else {
        lemma_confirm_bounded(a, (b - 1) as nat, c, limit);
        lemma_confirm_bounded((a - 1) as nat, confirm(a, (b - 1) as nat, c).0, c, limit);
    }
}

/// The key under which the cache holds the check's result for three
/// registers.
pub open spec fn key_of(a: u16, b: u16, c: u16) -> u64 {
    (a * 0x1_0000_0000 + b * 0x1_0000 + c) as u64
}

/// Every entry of the cache is the check's result for the registers of its
/// key.
pub open spec fn cache_sound(cache: Map<u64, [u16; 3]>) -> bool {
    forall|a: u16, b: u16, c: u16| #[trigger]
        cache.contains_key(key_of(a, b, c)) ==> {
            &&& cache[key_of(a, b, c)]@[0] == confirm(a as nat, b as nat, c as nat).0
            &&& cache[key_of(a, b, c)]@[1] == confirm(a as nat, b as nat, c as nat).1
            &&& cache[key_of(a, b, c)]@[2] == c
        }
}

/// Every entry of the cache `before` is in the cache `after`, unchanged.
pub open spec fn kept(before: Map<u64, [u16; 3]>, after: Map<u64, [u16; 3]>) -> bool {
    forall|k: u64| #[trigger] before.contains_key(k) ==> after.contains_key(k) && after[k] == before[k]
}

/// The cache holds the results of the inner runs of the check on `a`, `b`
/// and `c`: none where `a` is zero; one, on `a - 1` and `c`, where `b` is
/// zero; else two, the one on `a` and `b - 1` and the one on `a - 1` and the
/// first's result.
#[verifier::opaque]
pub open spec fn holds_inner(cache: Map<u64, [u16; 3]>, a: u16, b: u16, c: u16) -> bool {
    if a == 0 {
        true
    } else if b == 0 {
        cache.contains_key(key_of((a - 1) as u16, c, c))
    } else {
        &&& cache.contains_key(key_of(a, (b - 1) as u16, c))
        &&& cache.contains_key(
            key_of((a - 1) as u16, confirm(a as nat, (b - 1) as nat, c as nat).0 as u16, c),
        )
    }
}

/// With every entry the cache holds the results of that entry's inner runs,
/// and so, step by step, of every run that the entry's run went through.
pub open spec fn cache_closed(cache: Map<u64, [u16; 3]>) -> bool {
    forall|a: u16, b: u16, c: u16| #[trigger]
        cache.contains_key(key_of(a, b, c)) ==> holds_inner(cache, a, b, c)
}

/// Every key of the cache `before` is a key of the cache `after`.
pub open spec fn within(before: Map<u64, [u16; 3]>, after: Map<u64, [u16; 3]>) -> bool {
    forall|k: u64| #[trigger] before.contains_key(k) ==> after.contains_key(k)
}

/// A cache that holds more holds the inner runs that a smaller one held.
pub proof fn lemma_holds_inner_within(
    before: Map<u64, [u16; 3]>,
    after: Map<u64, [u16; 3]>,
    a: u16,
    b: u16,
    c: u16,
)
    requires
        within(before, after),
        holds_inner(before, a, b, c),
    ensures
        holds_inner(after, a, b, c),
{
    reveal(holds_inner);
}

/// What it means that a cache holds the results of the inner runs of the
/// check on `a`, `b` and `c`.
pub proof fn lemma_holds_inner(cache: Map<u64, [u16; 3]>, a: u16, b: u16, c: u16)
    ensures
        holds_inner(cache, a, b, c) <==> if a == 0 {
            true
        } else if b == 0 {
            cache.contains_key(key_of((a - 1) as u16, c, c))
        } else {
            &&& cache.contains_key(key_of(a, (b - 1) as u16, c))
            &&& cache.contains_key(
                key_of((a - 1) as u16, confirm(a as nat, (b - 1) as nat, c as nat).0 as u16, c),
            )
        },
{
    reveal(holds_inner);
}

/// Different registers have different keys.
pub proof fn lemma_key_of_injective(a: u16, b: u16, c: u16, x: u16, y: u16, z: u16)
    requires
        key_of(a, b, c) == key_of(x, y, z),
    ensures
        a == x,
        b == y,
        c == z,
{
}

/// A closed cache stays closed when it gains an entry whose inner runs it
/// holds.
pub proof fn lemma_insert_closed(
    cache: Map<u64, [u16; 3]>,
    a: u16,
    b: u16,
    c: u16,
    value: [u16; 3],
)
    requires
        cache_closed(cache),
        holds_inner(cache, a, b, c),
    ensures
        cache_closed(cache.insert(key_of(a, b, c), value)),
        holds_inner(cache.insert(key_of(a, b, c), value), a, b, c),
{
    let more = cache.insert(key_of(a, b, c), value);
    assert(within(cache, more));
    lemma_holds_inner_within(cache, more, a, b, c);
    assert forall|x: u16, y: u16, z: u16| #[trigger]
        more.contains_key(key_of(x, y, z)) implies holds_inner(more, x, y, z) by {
        if key_of(x, y, z) == key_of(a, b, c) {
            lemma_key_of_injective(x, y, z, a, b, c);
        } else {
            assert(cache.contains_key(key_of(x, y, z)));
            lemma_holds_inner_within(cache, more, x, y, z);
        }
    }
}

fn cache_key(registers: &[u16; 3]) -> (k: u64)
    ensures
        k == key_of(registers@[0], registers@[1], registers@[2]),
{
    (registers[0] as u64) * 0x1_0000_0000 + (registers[1] as u64) * 0x1_0000 + (registers[2] as u64)
}

/// Runs the integrity check on three registers, taking from the cache what
/// it holds and adding to it what it did not hold.
///
/// Afterwards the cache holds the result under the key of the registers as
/// they were, and every entry that it held before. A result that was
/// cached leaves the cache as it is; one that was not is computed, and the
/// cache then holds the results of its inner runs too. A cache that was
/// closed under inner runs, as an empty one is, stays so: it then holds the
/// result of every run that this run went through.
pub fn run_cached(registers: &mut [u16; 3], cache: &mut HashMap<u64, [u16; 3]>)
    requires
        old(registers)@[1] < 65535,
        old(registers)@[2] < 65535,
        cache_sound(old(cache)@),
    ensures
        final(registers)@[0] == confirm(
            old(registers)@[0] as nat,
            old(registers)@[1] as nat,
            old(registers)@[2] as nat,
        ).0,
        final(registers)@[1] == confirm(
            old(registers)@[0] as nat,
            old(registers)@[1] as nat,
            old(registers)@[2] as nat,
        ).1,
        final(registers)@[2] == old(registers)@[2],
        final(registers)@[0] < 32768,
        final(registers)@[1] < 65535,
        cache_sound(final(cache)@),
        final(cache)@.contains_key(
            key_of(old(registers)@[0], old(registers)@[1], old(registers)@[2]),
        ),
        final(cache)@[key_of(old(registers)@[0], old(registers)@[1], old(registers)@[2])]
            == *final(registers),
        kept(old(cache)@, final(cache)@),
        old(cache)@.contains_key(
            key_of(old(registers)@[0], old(registers)@[1], old(registers)@[2]),
        ) ==> final(cache)@ == old(cache)@,
        !old(cache)@.contains_key(
            key_of(old(registers)@[0], old(registers)@[1], old(registers)@[2]),
        ) ==> holds_inner(
            final(cache)@,
            old(registers)@[0],
            old(registers)@[1],
            old(registers)@[2],
        ),
        !old(cache)@.contains_key(
            key_of(old(registers)@[0], old(registers)@[1], old(registers)@[2]),
        ) && old(registers)@[0] != 0 ==> if old(registers)@[1] == 0 {
            final(cache)@.contains_key(
                key_of((old(registers)@[0] - 1) as u16, old(registers)@[2], old(registers)@[2]),
            )
        } else {
            &&& final(cache)@.contains_key(
                key_of(old(registers)@[0], (old(registers)@[1] - 1) as u16, old(registers)@[2]),
            )
            &&& final(cache)@.contains_key(
                key_of(
                    (old(registers)@[0] - 1) as u16,
                    confirm(
                        old(registers)@[0] as nat,
                        (old(registers)@[1] - 1) as nat,
                        old(registers)@[2] as nat,
                    ).0 as u16,
                    old(registers)@[2],
                ),
            )
        },
        cache_closed(old(cache)@) ==> cache_closed(final(cache)@),
    decreases old(registers)@[0], old(registers)@[1], 1nat,
{
    let key: u64 = cache_key(registers);
    proof {
        lemma_confirm_bounded(
            registers@[0] as nat,
            registers@[1] as nat,
            registers@[2] as nat,
            65534,
        );
        assert(cache@.contains_key(key) ==> cache@.contains_key(
            key_of(registers@[0], registers@[1], registers@[2]),
        ));
    }
    if let Some(x) = cache.get(&key) {
        *registers = *x;
        return ;
    }
    let mut regs: [u16; 3] = *registers;
    run_cached_helper(&mut regs, cache);
    let ghost computed = cache@;
    cache.insert(key, regs);
    proof {
        let before = old(registers)@;
        assert(within(computed, cache@));
        lemma_holds_inner_within(computed, cache@, before[0], before[1], before[2]);
        lemma_holds_inner(cache@, before[0], before[1], before[2]);
        if cache_closed(old(cache)@) {
            lemma_insert_closed(computed, before[0], before[1], before[2], regs);
        }
        assert forall|a: u16, b: u16, c: u16| #[trigger]
            cache@.contains_key(key_of(a, b, c)) implies {
            &&& cache@[key_of(a, b, c)]@[0] == confirm(a as nat, b as nat, c as nat).0
            &&& cache@[key_of(a, b, c)]@[1] == confirm(a as nat, b as nat, c as nat).1
            &&& cache@[key_of(a, b, c)]@[2] == c
        } by {
            if key_of(a, b, c) == key {
                assert(a == before[0] && b == before[1] && c == before[2]);
            }
        }
    }
    *registers = regs;
}

/// Runs the integrity check on three registers by its definition, with
/// every inner run through the cache, which keeps every entry that it held
/// before and afterwards holds the results of the inner runs. The result
/// itself is not stored.
pub fn run_cached_helper(registers: &mut [u16; 3], cache: &mut HashMap<u64, [u16; 3]>)
    requires
        old(registers)@[1] < 65535,
        old(registers)@[2] < 65535,
        cache_sound(old(cache)@),
    ensures
        final(registers)@[0] == confirm(
            old(registers)@[0] as nat,
            old(registers)@[1] as nat,
            old(registers)@[2] as nat,
        ).0,
        final(registers)@[1] == confirm(
            old(registers)@[0] as nat,
            old(registers)@[1] as nat,
            old(registers)@[2] as nat,
        ).1,
        final(registers)@[2] == old(registers)@[2],
        final(registers)@[0] < 32768,
        final(registers)@[1] < 65535,
        cache_sound(final(cache)@),
        kept(old(cache)@, final(cache)@),
        old(registers)@[0] == 0 ==> final(cache)@ == old(cache)@,
        holds_inner(final(cache)@, old(registers)@[0], old(registers)@[1], old(registers)@[2]),
        cache_closed(old(cache)@) ==> cache_closed(final(cache)@),
    decreases old(registers)@[0], old(registers)@[1], 0nat,
{
    proof {
        lemma_holds_inner(cache@, registers@[0], registers@[1], registers@[2]);
    }
    if registers[0] != 0 {
        if registers[1] != 0 {
            let val: u16 = registers[0];
            registers[1] = registers[1] - 1;
            run_cached(registers, cache);
            registers[1] = registers[0];
            registers[0] = val - 1;
            run_cached(registers, cache);
            proof {
                lemma_holds_inner(
                    cache@,
                    old(registers)@[0],
                    old(registers)@[1],
                    old(registers)@[2],
                );
            }
            return ;
        }
        registers[0] = registers[0] - 1;
        registers[1] = registers[2];
        run_cached(registers, cache);
        proof {
            lemma_holds_inner(cache@, old(registers)@[0], old(registers)@[1], old(registers)@[2]);
        }
        return ;
    }
    registers[0] = registers[1] + 1;
    registers[0] = registers[0] % 32768;
}

/// Runs the integrity check on the machine's eight registers: the first two
/// are its arguments and the last is the hidden value.
pub fn run(registers: &mut [u16; 8])
    requires
        old(registers)@[0] <= 32768,
        old(registers)@[1] <= 32768,
        old(registers)@[7] <= 32768,
    ensures
        final(registers)@[0] == confirm(
            old(registers)@[0] as nat,
            old(registers)@[1] as nat,
            old(registers)@[7] as nat,
        ).0,
        final(registers)@[1] == confirm(
            old(registers)@[0] as nat,
            old(registers)@[1] as nat,
            old(registers)@[7] as nat,
        ).1,
        forall|i: int| 2 <= i < 8 ==> final(registers)@[i] == old(registers)@[i],
        final(registers)@[0] < 32768,
        final(registers)@[1] <= 32768,
    decreases old(registers)@[0], old(registers)@[1],
{
    proof {
        lemma_confirm_bounded(
            registers@[0] as nat,
            registers@[1] as nat,
            registers@[7] as nat,
            32768,
        );
    }
    if registers[0] != 0 {
        if registers[1] != 0 {
            let val: u16 = registers[0];
            registers[1] = registers[1] + 32767;
            registers[1] = registers[1] % 32768;
            run(registers);
            registers[1] = registers[0];
            registers[0] = val + 32767;
            registers[0] = registers[0] % 32768;
            run(registers);
            return ;
        }
        registers[0] = registers[0] + 32767;
        registers[0] = registers[0] % 32768;
        registers[1] = registers[7];
        run(registers);
        return ;
    }
    registers[0] = registers[1] + 1;
    registers[0] = registers[0] % 32768;
}

/// The three registers after the integrity check has run from its start
/// values with `val` as the hidden value.
pub fn run_for_present(val: u16) -> (r: [u16; 3])
    requires
        val < 65535,
    ensures
        r@[0] == confirm(CHECK_START_R0 as nat, CHECK_START_R1 as nat, val as nat).0,
        r@[1] == confirm(CHECK_START_R0 as nat, CHECK_START_R1 as nat, val as nat).1,
        r@[2] == val,
{
    let mut registers: [u16; 3] = [CHECK_START_R0, CHECK_START_R1, val];
    let mut cache: HashMap<u64, [u16; 3]> = HashMap::new();
    run_cached(&mut registers, &mut cache);
    registers
}

} // verus!
