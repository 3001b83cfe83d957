//! What holds of texts and of sizes in general.

use vstd::prelude::*;
use crate::size::{last_place, nearest_double, round_half_even, unit_bytes, unit_index, unit_name};
use crate::text::{is_space, joined, split_on, trim_end, trim_start, trimmed};

verus! {

/// Trimming takes away white space at the ends and nothing else, and leaves none
/// there.
pub proof fn lemma_trim_takes_space_only(s: Seq<char>)
    ensures
        ({
            let t = trimmed(s);
            &&& t.len() > 0 ==> !is_space(t[0]) && !is_space(t.last())
            &&& exists|i: int|
                {
                    &&& 0 <= i <= i + t.len() <= s.len()
                    &&& #[trigger] s.subrange(i, i + t.len()) == t
                    &&& forall|k: int| 0 <= k < i ==> is_space(#[trigger] s[k])
                    &&& forall|k: int| i + t.len() <= k < s.len() ==> is_space(#[trigger] s[k])
                }
        }),
{
    let a = trim_start(s);
    let t = trimmed(s);
    lemma_trim_start(s);
    lemma_trim_end(a);
    let i = s.len() - a.len();
    assert(s.subrange(i, i + t.len()) =~= t);
    assert forall|k: int| i + t.len() <= k < s.len() implies is_space(#[trigger] s[k]) by {
        assert(s[k] == a[k - i]);
    }
    if t.len() > 0 {
        assert(t[0] == a[0]);
    }
}

proof fn lemma_trim_start(s: Seq<char>)
    ensures
        ({
            let a = trim_start(s);
            &&& a.len() <= s.len()
            &&& a == s.skip(s.len() - a.len())
            &&& a.len() > 0 ==> !is_space(a[0])
            &&& forall|k: int| 0 <= k < s.len() - a.len() ==> is_space(#[trigger] s[k])
        }),
    decreases s.len(),
{
    if s.len() > 0 && is_space(s[0]) {
        let rest = s.drop_first();
        lemma_trim_start(rest);
        let a = trim_start(s);
        assert(rest.skip(rest.len() - a.len()) =~= s.skip(s.len() - a.len()));
        assert forall|k: int| 0 <= k < s.len() - a.len() implies is_space(#[trigger] s[k]) by {
            if k > 0 {
                assert(s[k] == rest[k - 1]);
            }
        }
    } else {
        assert(s.skip(0) =~= s);
    }
}

proof fn lemma_trim_end(s: Seq<char>)
    ensures
        ({
            let t = trim_end(s);
            &&& t.len() <= s.len()
            &&& t == s.take(t.len() as int)
            &&& t.len() > 0 ==> !is_space(t.last())
            &&& forall|k: int| t.len() <= k < s.len() ==> is_space(#[trigger] s[k])
        }),
    decreases s.len(),
{
    if s.len() > 0 && is_space(s.last()) {
        let rest = s.drop_last();
        lemma_trim_end(rest);
        let t = trim_end(s);
        assert(rest.take(t.len() as int) =~= s.take(t.len() as int));
        assert forall|k: int| t.len() <= k < s.len() implies is_space(#[trigger] s[k]) by {
            if k < rest.len() {
                assert(s[k] == rest[k]);
            }
        }
    } else {
        assert(s.take(s.len() as int) =~= s);
    }
}

/// A text that is split at a character and joined with it again is what it was, and
/// the character stands in none of its parts.
pub proof fn lemma_split_and_joined(s: Seq<char>, c: char)
    ensures
        split_on(s, c).len() > 0,
        joined(split_on(s, c), seq![c]) == s,
        forall|i: int|
            0 <= i < split_on(s, c).len() ==> !(#[trigger] split_on(s, c)[i]).contains(c),
    decreases s.len(),
{
    let parts = split_on(s, c);
    if s.len() == 0 {
        assert(joined(parts, seq![c]) =~= s);
    } else {
        let head = split_on(s.drop_last(), c);
        lemma_split_and_joined(s.drop_last(), c);
        if s.last() == c {
            assert(parts.drop_last() =~= head);
            assert(joined(parts, seq![c]) =~= s);
            assert forall|i: int| 0 <= i < parts.len() implies !(#[trigger] parts[i]).contains(
                c,
            ) by {
                if i < head.len() {
                    assert(parts[i] == head[i]);
                }
            }
        } else {
            assert(parts.drop_last() =~= head.drop_last());
            assert(joined(parts, seq![c]) =~= joined(head, seq![c]).push(s.last()));
            assert(joined(parts, seq![c]) =~= s);
            assert forall|i: int| 0 <= i < parts.len() implies !(#[trigger] parts[i]).contains(
                c,
            ) by {
                if i < head.len() - 1 {
                    assert(parts[i] == head[i]);
                } else {
                    let last = head.last();
                    assert(!last.contains(c));
                    assert forall|k: int| 0 <= k < parts[i].len() implies parts[i][k] != c by {
                        if k < last.len() {
                            assert(last[k] == parts[i][k]);
                            assert(last.contains(last[k]));
                        }
                    }
                }
            }
        }
    }
}

/// Of two integers that are equally near, the even one is taken.
pub proof fn lemma_tie_goes_to_even(n: nat, d: nat)
    requires
        d > 0,
        2 * (n % d) == d,
    ensures
        round_half_even(n, d) % 2 == 0,
{
}

/// The unit is the largest that leaves at least one, and each is 1024 of the one
/// before it.
pub proof fn lemma_unit_is_the_largest(n: nat)
    ensures
        unit_index(n) <= 4,
        unit_index(n) > 0 ==> n >= unit_bytes(unit_index(n)),
        unit_index(n) < 4 ==> n < unit_bytes(unit_index(n) + 1),
        unit_bytes(0) == 1,
        forall|i: nat| i < 4 ==> #[trigger] unit_bytes(i + 1) == 1024 * unit_bytes(i),
        seq![unit_name(0), unit_name(1), unit_name(2), unit_name(3), unit_name(4)] == seq![
            "B"@,
            "KiB"@,
            "MiB"@,
            "GiB"@,
            "TiB"@,
        ],
{
}

/// A size with at most 53 significant bits is kept as it is, and of one with more just
/// as many are kept.
pub proof fn lemma_significant_bits(n: nat)
    ensures
        n < 0x20_0000_0000_0000 ==> nearest_double(n) == n,
        n >= 0x20_0000_0000_0000 ==> 0x10_0000_0000_0000 <= n / last_place(n)
            < 0x20_0000_0000_0000,
{
    if n < 0x20_0000_0000_0000 {
        assert(n % 1 == 0 && n / 1 == n);
        let d = last_place(n);
        let r = round_half_even(n, d);
        assert(d == 1 && r == n);
        assert(r * d == n) by (nonlinear_arith)
            requires
                d == 1,
                r == n,
        ;
    } else {
        lemma_last_place(n);
    }
}

proof fn lemma_last_place(n: nat)
    requires
        n >= 0x20_0000_0000_0000,
    ensures
        last_place(n) > 0,
        0x10_0000_0000_0000 <= n / last_place(n) < 0x20_0000_0000_0000,
    decreases n,
{
    let half = n / 2;
    if half < 0x20_0000_0000_0000 {
        assert(last_place(half) == 1);
        assert(last_place(n) == 2);
    } else {
        lemma_last_place(half);
        let d = last_place(half);
        assert(last_place(n) == 2 * d);
        vstd::arithmetic::div_mod::lemma_div_denominator(n as int, 2, d as int);
    }
}

} // verus!
