//! Option store: string-keyed runtime tunables and the engine's value parser.
//!
//! The legal option set is owned by the engine, not by this layer, so the
//! store is a plain name-to-integer table seeded when a session is opened.
//! The engine's integer form of an option value is its decimal reading; the
//! engine accepts at most eighteen digits, which keeps every accepted value
//! well inside the signed 64-bit range.

use vstd::prelude::*;
use crate::errors::{Error, EDT_BADOPTVAL};

verus! {

/// The engine rejects option values longer than this many digits.
pub const OPTVAL_MAX_DIGITS: usize = 18;

/// One named tunable held by the engine.
pub struct OptEntry {
    pub name: String,
    pub value: i64,
}

/// A decimal digit.
pub open spec fn is_dec_digit(c: char) -> bool {
    '0' <= c && c <= '9'
}

/// The numeric value of one decimal digit.
pub open spec fn digit_val(c: char) -> int {
    c as int - '0' as int
}

/// Every character of `s` is a decimal digit.
pub open spec fn all_dec_digits(s: Seq<char>) -> bool {
    forall|i: int| 0 <= i < s.len() ==> is_dec_digit(#[trigger] s[i])
}

/// The decimal reading of a digit string.
pub open spec fn dec_val(s: Seq<char>) -> int
    decreases s.len(),
{
    if s.len() == 0 {
        0
    } else {
        dec_val(s.drop_last()) * 10 + digit_val(s.last())
    }
}

/// Ten to the `n`-th power.
pub open spec fn pow10(n: nat) -> int
    decreases n,
{
    if n == 0 {
        1
    } else {
        10 * pow10((n - 1) as nat)
    }
}

/// Texts the engine accepts as option values: one to eighteen decimal digits.
pub open spec fn optval_accepted(s: Seq<char>) -> bool {
    1 <= s.len() <= OPTVAL_MAX_DIGITS && all_dec_digits(s)
}

/// A digit string reads below ten to the power of its length.
pub proof fn lemma_dec_val_bound(s: Seq<char>)
    requires
        all_dec_digits(s),
    ensures
        0 <= dec_val(s) < pow10(s.len()),
    decreases s.len(),
{
    if s.len() > 0 {
        assert(all_dec_digits(s.drop_last()));
        lemma_dec_val_bound(s.drop_last());
        assert(0 <= digit_val(s.last()) <= 9);
    }
}

/// The concrete value of the eighteen-digit ceiling.
pub proof fn lemma_pow10_18()
    ensures
        pow10(18) == 1_000_000_000_000_000_000,
{
    assert(pow10(0) == 1);
    assert(pow10(1) == 10);
    assert(pow10(2) == 100);
    assert(pow10(3) == 1000);
    assert(pow10(4) == 10_000);
    assert(pow10(5) == 100_000);
    assert(pow10(6) == 1_000_000);
    assert(pow10(7) == 10_000_000);
    assert(pow10(8) == 100_000_000);
    assert(pow10(9) == 1_000_000_000);
    assert(pow10(10) == 10_000_000_000);
    assert(pow10(11) == 100_000_000_000);
    assert(pow10(12) == 1_000_000_000_000);
    assert(pow10(13) == 10_000_000_000_000);
    assert(pow10(14) == 100_000_000_000_000);
    assert(pow10(15) == 1_000_000_000_000_000);
    assert(pow10(16) == 10_000_000_000_000_000);
    assert(pow10(17) == 100_000_000_000_000_000);
}

/// Powers of ten grow with the exponent.
pub proof fn lemma_pow10_mono(a: nat, b: nat)
    requires
        a <= b,
    ensures
        pow10(a) <= pow10(b),
    decreases b,
{
    if a < b {
        lemma_pow10_mono(a, (b - 1) as nat);
        assert(pow10((b - 1) as nat) >= 1) by {
            lemma_pow10_positive((b - 1) as nat);
        }
    }
}

/// Powers of ten are positive.
pub proof fn lemma_pow10_positive(n: nat)
    ensures
        pow10(n) >= 1,
    decreases n,
{
    if n > 0 {
        lemma_pow10_positive((n - 1) as nat);
    }
}

/// Parses an option value as the engine does: the decimal reading of a
/// nonempty digit string of at most eighteen digits.
pub fn parse_optval(s: &str) -> (r: Result<i64, Error>)
    ensures
        r is Ok <==> optval_accepted(s@),
        r is Ok ==> r->Ok_0 == dec_val(s@),
        r is Err ==> r->Err_0.code == EDT_BADOPTVAL,
{
    let n = s.unicode_len();
    if n == 0 || n > OPTVAL_MAX_DIGITS {
        return Err(Error::from_code(EDT_BADOPTVAL));
    }
    let mut acc: i64 = 0;
    let mut i: usize = 0;
    while i < n
        invariant
            0 <= i <= n,
            n == s@.len(),
            1 <= n <= OPTVAL_MAX_DIGITS,
            all_dec_digits(s@.take(i as int)),
            acc == dec_val(s@.take(i as int)),
            0 <= acc < pow10(i as nat),
        decreases n - i,
    {
        let c = s.get_char(i);
        if c < '0' || c > '9' {
            return Err(Error::from_code(EDT_BADOPTVAL));
        }
        let d: i64 = (c as u32 - '0' as u32) as i64;
        proof {
            assert(s@.take(i + 1 as int).drop_last() =~= s@.take(i as int));
            assert(s@.take(i + 1 as int).last() == s@[i as int]);
            lemma_pow10_mono(i as nat, 17);
            lemma_pow10_18();
            assert(pow10(17) == 100_000_000_000_000_000);
        }
        acc = acc * 10 + d;
        i = i + 1;
        proof {
            lemma_dec_val_bound(s@.take(i as int));
        }
    }
    proof {
        assert(s@.take(n as int) =~= s@);
    }
    Ok(acc)
}

/// The decimal reading of an accepted value, as the engine stores it.
pub open spec fn dec_val_i64(s: Seq<char>) -> i64 {
    dec_val(s) as i64
}

/// The value held under `name`, or nothing when the engine does not know the
/// name; the first entry wins when a name is repeated.
pub open spec fn opt_value_of(opts: Seq<OptEntry>, name: Seq<char>) -> Option<i64>
    decreases opts.len(),
{
    if opts.len() == 0 {
        Option::None
    } else if opts[0].name@ == name {
        Option::Some(opts[0].value)
    } else {
        opt_value_of(opts.drop_first(), name)
    }
}

/// The store after the first entry named `name` is set to `v`; unchanged when
/// the name is unknown.
pub open spec fn opt_store_set(opts: Seq<OptEntry>, name: Seq<char>, v: i64) -> Seq<OptEntry>
    decreases opts.len(),
{
    if opts.len() == 0 {
        opts
    } else if opts[0].name@ == name {
        opts.update(0, OptEntry { name: opts[0].name, value: v })
    } else {
        seq![opts[0]].add(opt_store_set(opts.drop_first(), name, v))
    }
}

/// When the first match sits at index `i`, lookup reads that entry and a set
/// rewrites exactly that entry.
pub proof fn lemma_opt_found_at(opts: Seq<OptEntry>, name: Seq<char>, v: i64, i: int)
    requires
        0 <= i < opts.len(),
        opts[i].name@ == name,
        forall|j: int| 0 <= j < i ==> (#[trigger] opts[j]).name@ != name,
    ensures
        opt_value_of(opts, name) == Option::<i64>::Some(opts[i].value),
        opt_store_set(opts, name, v) == opts.update(
            i,
            OptEntry { name: opts[i].name, value: v },
        ),
    decreases i,
{
    if i == 0 {
        assert(opt_store_set(opts, name, v) =~= opts.update(
            0,
            OptEntry { name: opts[0].name, value: v },
        ));
    } else {
        assert(opts[0].name@ != name);
        assert(forall|j: int|
            0 <= j < i - 1 ==> (#[trigger] opts.drop_first()[j]).name@ != name);
        lemma_opt_found_at(opts.drop_first(), name, v, i - 1);
        assert(opt_store_set(opts, name, v) =~= opts.update(
            i,
            OptEntry { name: opts[i].name, value: v },
        ));
    }
}

/// A name matched by no entry is unknown to the store.
pub proof fn lemma_opt_absent(opts: Seq<OptEntry>, name: Seq<char>)
    requires
        forall|j: int| 0 <= j < opts.len() ==> (#[trigger] opts[j]).name@ != name,
    ensures
        opt_value_of(opts, name) is None,
    decreases opts.len(),
{
    if opts.len() > 0 {
        lemma_opt_absent(opts.drop_first(), name);
    }
}

/// A store of nonnegative values only yields nonnegative values.
pub proof fn lemma_opt_value_nonneg(opts: Seq<OptEntry>, name: Seq<char>)
    requires
        forall|i: int| 0 <= i < opts.len() ==> (#[trigger] opts[i]).value >= 0,
    ensures
        opt_value_of(opts, name) is Some ==> opt_value_of(opts, name).unwrap() >= 0,
    decreases opts.len(),
{
    if opts.len() > 0 && opts[0].name@ != name {
        lemma_opt_value_nonneg(opts.drop_first(), name);
    }
}

/// Setting an unknown name changes nothing.
pub proof fn lemma_opt_set_unknown(opts: Seq<OptEntry>, name: Seq<char>, v: i64)
    requires
        opt_value_of(opts, name) is None,
    ensures
        opt_store_set(opts, name, v) == opts,
    decreases opts.len(),
{
    if opts.len() > 0 {
        assert(opts[0].name@ != name);
        lemma_opt_set_unknown(opts.drop_first(), name, v);
        assert(opt_store_set(opts, name, v) =~= opts);
    }
}

/// Setting a known name stores exactly the new value under that name.
pub proof fn lemma_opt_set_then_get(opts: Seq<OptEntry>, name: Seq<char>, v: i64)
    requires
        opt_value_of(opts, name) is Some,
    ensures
        opt_value_of(opt_store_set(opts, name, v), name) == Option::<i64>::Some(v),
    decreases opts.len(),
{
    if opts.len() > 0 {
        if opts[0].name@ == name {
            let s2 = opt_store_set(opts, name, v);
            assert(s2[0].name@ == name && s2[0].value == v);
        } else {
            lemma_opt_set_then_get(opts.drop_first(), name, v);
            let s2 = opt_store_set(opts, name, v);
            assert(s2.drop_first() =~= opt_store_set(opts.drop_first(), name, v));
            assert(s2[0].name@ != name);
        }
    }
}

/// Setting never changes which names the engine knows, and leaves every other
/// name's value alone.
pub proof fn lemma_opt_set_frame(opts: Seq<OptEntry>, name: Seq<char>, v: i64, other: Seq<char>)
    requires
        other != name,
    ensures
        opt_value_of(opt_store_set(opts, name, v), other) == opt_value_of(opts, other),
    decreases opts.len(),
{
    if opts.len() > 0 {
        let s2 = opt_store_set(opts, name, v);
        if opts[0].name@ == name {
            assert(s2.drop_first() =~= opts.drop_first());
        } else {
            lemma_opt_set_frame(opts.drop_first(), name, v, other);
            assert(s2.drop_first() =~= opt_store_set(opts.drop_first(), name, v));
            assert(s2[0] == opts[0]);
        }
    }
}

} // verus!
