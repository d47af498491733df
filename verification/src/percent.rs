//! The share that an entry has of its level, in hundredths of a percent.

use vstd::prelude::*;
use vstd::arithmetic::div_mod::{lemma_fundamental_div_mod, lemma_mod_pos_bound};
use vstd::multiset::group_multiset_axioms;
use vstd::seq_lib::{group_to_multiset_ensures, to_multiset_len};
use crate::text::{blanks, decimal, digit_char, push_decimal, push_right_aligned, right_aligned};
use crate::tree::TreeIndex;
use vstd::string::*;

verus! {

/// The sizes of the entries of a level, added up.
pub open spec fn sum_sizes(entries: Seq<(TreeIndex, u64)>) -> nat
    decreases entries.len(),
{
    if entries.len() == 0 {
        0
    } else {
        sum_sizes(entries.drop_last()) + entries.last().1 as nat
    }
}

/// The share of `size` in `total`, in hundredths of a percent and rounded to
/// the nearest of them, a half going up. Of a total of zero every share is
/// zero.
pub open spec fn share(size: nat, total: nat) -> nat {
    if total == 0 {
        0
    } else {
        let whole = (size * 10000) / total;
        let rest = (size * 10000) % total;
        if 2 * rest >= total {
            whole + 1
        } else {
            whole
        }
    }
}

/// The shares of all entries of a level, added up.
pub open spec fn sum_shares(entries: Seq<(TreeIndex, u64)>, total: nat) -> nat
    decreases entries.len(),
{
    if entries.len() == 0 {
        0
    } else {
        sum_shares(entries.drop_last(), total) + share(entries.last().1 as nat, total)
    }
}

/// A share as it is shown: whole percents, a point and two decimals, moved to
/// the right edge of a field of five characters.
pub open spec fn share_text(share: nat) -> Seq<char> {
    right_aligned(
        decimal(share / 100) + seq!['.', digit_char((share / 10) % 10), digit_char(share % 10)],
        5,
    )
}

/// Adds up the sizes of the entries of a level.
pub fn level_total(entries: &Vec<(TreeIndex, u64)>) -> (total: u128)
    ensures
        total == sum_sizes(entries@),
{
    let mut total: u128 = 0;
    let mut i: usize = 0;
    assert(entries@.take(0) =~= Seq::empty());
    while i < entries.len()
        invariant
            i <= entries.len(),
            total == sum_sizes(entries@.take(i as int)),
            total <= i * 0xffff_ffff_ffff_ffff,
        decreases entries.len() - i,
    {
        assert(entries@.take(i + 1).drop_last() =~= entries@.take(i as int));
        total = total + entries[i].1 as u128;
        i = i + 1;
    }
    assert(entries@.take(i as int) =~= entries@);
    total
}

/// Computes the share of `size` in `total`.
pub fn percentage(size: u64, total: u128) -> (hundredths: u128)
    ensures
        hundredths == share(size as nat, total as nat),
{
    if total == 0 {
        0
    } else {
        let scaled: u128 = size as u128 * 10000;
        let whole: u128 = scaled / total;
        let rest: u128 = scaled % total;
        if rest >= total - rest {
            whole + 1
        } else {
            whole
        }
    }
}

/// Writes a share as it is shown in a row.
pub fn percentage_text(hundredths: u128) -> (text: String)
    ensures
        text@ == share_text(hundredths as nat),
{
    let mut number = String::new();
    push_decimal(&mut number, hundredths / 100);
    proof {
        reveal_strlit(".");
    }
    number.append(".");
    push_decimal(&mut number, (hundredths / 10) % 10);
    push_decimal(&mut number, hundredths % 10);
    assert(number@ =~= decimal((hundredths / 100) as nat) + seq![
        '.',
        digit_char(((hundredths / 10) % 10) as nat),
        digit_char((hundredths % 10) as nat),
    ]);
    let mut text = String::new();
    push_right_aligned(&mut text, number.as_str(), 5);
    assert(text@ =~= share_text(hundredths as nat));
    text
}

/// A share differs from the exact quotient by at most half a hundredth:
/// twice the distance between `total * share` and `10000 * size` is at most
/// `total`.
pub proof fn share_is_nearest(size: nat, total: nat)
    requires
        total > 0,
    ensures
        -(total as int) < 2 * (total * share(size, total) - 10000 * size) <= total as int,
{
    let n = (size * 10000) as int;
    let t = total as int;
    lemma_fundamental_div_mod(n, t);
    lemma_mod_pos_bound(n, t);
    let whole = n / t;
    let rest = n % t;
    assert(n == t * whole + rest);
    assert(t * (whole + 1) == t * whole + t) by (nonlinear_arith);
}

/// No entry of a level has a share above a hundred percent.
pub proof fn share_is_at_most_hundred(size: nat, total: nat)
    requires
        size <= total,
    ensures
        share(size, total) <= 10000,
{
    if total > 0 {
        share_is_nearest(size, total);
        let h = share(size, total) as int;
        let t = total as int;
        assert(h <= 10000) by (nonlinear_arith)
            requires
                2 * (t * h - 10000 * size) <= t,
                size <= t,
                t > 0,
                h >= 0,
        {
            if h >= 10001 {
                assert(t * h >= t * 10001);
            }
        }
    }
}

/// No entry is larger than the sum of all.
pub proof fn size_within_sum(entries: Seq<(TreeIndex, u64)>, i: int)
    requires
        0 <= i < entries.len(),
    ensures
        entries[i].1 <= sum_sizes(entries),
    decreases entries.len(),
{
    if i < entries.len() - 1 {
        size_within_sum(entries.drop_last(), i);
    }
}

/// Taking one entry out lowers the sum by its size.
proof fn sum_without(entries: Seq<(TreeIndex, u64)>, i: int)
    requires
        0 <= i < entries.len(),
    ensures
        sum_sizes(entries) == sum_sizes(entries.remove(i)) + entries[i].1,
    decreases entries.len(),
{
    if i == entries.len() - 1 {
        assert(entries.remove(i) =~= entries.drop_last());
    } else {
        sum_without(entries.drop_last(), i);
        assert(entries.remove(i).drop_last() =~= entries.drop_last().remove(i));
    }
}

/// The sum of a level does not depend on the order of its entries.
pub proof fn sum_ignores_order(a: Seq<(TreeIndex, u64)>, b: Seq<(TreeIndex, u64)>)
    requires
        a.to_multiset() == b.to_multiset(),
    ensures
        sum_sizes(a) == sum_sizes(b),
    decreases a.len(),
{
    broadcast use {group_to_multiset_ensures, group_multiset_axioms};

    if a.len() == 0 {
        to_multiset_len(a);
        to_multiset_len(b);
    } else {
        let x = a.last();
        assert(a.to_multiset().count(x) > 0) by {
            assert(a.contains(x));
        }
        assert(b.contains(x));
        let j = choose|j: int| 0 <= j < b.len() && b[j] == x;
        assert(a.remove(a.len() - 1) =~= a.drop_last());
        assert(a.drop_last().to_multiset() =~= a.to_multiset().remove(x));
        assert(b.remove(j).to_multiset() =~= b.to_multiset().remove(x));
        sum_ignores_order(a.drop_last(), b.remove(j));
        sum_without(b, j);
    }
}

/// An empty level, or one whose entries all have size zero, shows every share
/// as zero, written ` 0.00`.
pub proof fn share_of_nothing_is_zero(size: nat)
    ensures
        share(size, 0) == 0,
        share_text(0) == seq![' ', '0', '.', '0', '0'],
{
    assert(decimal(0) =~= seq!['0']);
    assert(decimal(0) + seq!['.', digit_char(0), digit_char(0)] =~= seq!['0', '.', '0', '0']);
    assert(blanks(1) + seq!['0', '.', '0', '0'] =~= seq![' ', '0', '.', '0', '0']);
}

/// Twice the distance between the shares of a part of a level, times the
/// total, and the exact shares of that part is at most the total for each
/// entry.
proof fn shares_track_sizes(entries: Seq<(TreeIndex, u64)>, total: nat)
    requires
        total > 0,
    ensures
        -(entries.len() * total) <= 2 * (total * sum_shares(entries, total) - 10000 * sum_sizes(
            entries,
        )) <= entries.len() * total,
    decreases entries.len(),
{
    if entries.len() > 0 {
        let rest = entries.drop_last();
        let size = entries.last().1 as nat;
        shares_track_sizes(rest, total);
        share_is_nearest(size, total);
        let a = sum_shares(rest, total) as int;
        let b = share(size, total) as int;
        let t = total as int;
        let k = rest.len() as int;
        assert(t * (a + b) == t * a + t * b) by (nonlinear_arith);
        assert((k + 1) * t == k * t + t) by (nonlinear_arith);
    } else {
        assert(total * 0 == 0) by (nonlinear_arith);
    }
}

/// The shares of a level whose total is not zero add up to a hundred percent,
/// give or take half a hundredth for each entry.
pub proof fn shares_add_up(entries: Seq<(TreeIndex, u64)>)
    requires
        sum_sizes(entries) > 0,
    ensures
        20000 - entries.len() <= 2 * sum_shares(entries, sum_sizes(entries)) <= 20000
            + entries.len(),
{
    let total = sum_sizes(entries);
    shares_track_sizes(entries, total);
    let t = total as int;
    let s = sum_shares(entries, total) as int;
    let k = entries.len() as int;
    assert(20000 - k <= 2 * s <= 20000 + k) by (nonlinear_arith)
        requires
            t > 0,
            -(k * t) <= 2 * (t * s - 10000 * t) <= k * t,
    {
        assert(2 * (t * s - 10000 * t) == t * (2 * s - 20000));
        assert(t * (2 * s - 20000) <= k * t);
        assert(t * (2 * s - 20000) >= -(k * t));
    }
}

} // verus!
