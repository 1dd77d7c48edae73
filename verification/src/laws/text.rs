//! What the functions on texts give back, by the characters.

use vstd::prelude::*;
use vstd::utf8::encode_utf8;

use crate::laws::reading::{lists_those, one_more};
use crate::model::{
    fqn_parts, fqn_parts_of_table_fqn, parts_plain, table_fqn, table_fqn_of_fqn_parts,
    FqnPartsView,
};
use crate::source::{line_at, newlines};
use crate::text::{
    decimal, digit, first_solid, is_blank, last_solid, split_text, split_upto,
    split_upto_nonempty, squeezed, squeezed_upto, text_lt, trimmed,
};

verus! {

proof fn pieces_plain(s: Seq<char>, sep: char, n: int)
    requires
        0 <= n <= s.len(),
    ensures
        forall|i: int|
            0 <= i < split_upto(s, sep, n).len() ==> !(#[trigger] split_upto(s, sep, n)[i]).contains(
                sep,
            ),
    decreases n,
{
    let p = split_upto(s, sep, n);
    if n > 0 {
        pieces_plain(s, sep, n - 1);
        split_upto_nonempty(s, sep, n - 1);
        let prev = split_upto(s, sep, n - 1);
        assert forall|i: int| 0 <= i < p.len() implies !(#[trigger] p[i]).contains(sep) by {
            if i < prev.len() - 1 {
                assert(p[i] == prev[i]);
            } else if s[n - 1] != sep {
                let last = prev[prev.len() - 1];
                assert(p[i] == last.push(s[n - 1]));
                if p[i].contains(sep) {
                    let k = choose|k: int| 0 <= k < p[i].len() && p[i][k] == sep;
                    assert(last[k] == sep);
                }
            } else if i < prev.len() {
                assert(p[i] == prev[i]);
            }
        }
    }
}

/// The pieces of a text hold no separator.
pub proof fn split_pieces_hold_no_separator(s: Seq<char>, sep: char)
    ensures
        split_text(s, sep).len() >= 1,
        forall|i: int|
            0 <= i < split_text(s, sep).len() ==> !(#[trigger] split_text(s, sep)[i]).contains(sep),
{
    pieces_plain(s, sep, s.len() as int);
    split_upto_nonempty(s, sep, s.len() as int);
}

/// A name has four parts exactly when it is made of four without dots, and
/// those are its parts.
pub proof fn four_parts_are_read(name: Seq<char>, p: FqnPartsView)
    ensures
        fqn_parts(name) == Some(p) <==> (parts_plain(p) && table_fqn(p) == name),
{
    split_pieces_hold_no_separator(name, '.');
    table_fqn_of_fqn_parts(name);
    if parts_plain(p) {
        fqn_parts_of_table_fqn(p);
    }
    if fqn_parts(name) == Some(p) {
        let s = split_text(name, '.');
        assert(p.service == s[0] && p.database == s[1] && p.schema == s[2] && p.table == s[3]);
    }
}


// ──────────────────────────────── blanks ──────────────────────────────

/// True when no character of the text is a blank.
pub open spec fn is_solid(s: Seq<char>) -> bool {
    forall|i: int| 0 <= i < s.len() ==> !is_blank(#[trigger] s[i])
}

proof fn squeezed_prefix(s: Seq<char>, t: Seq<char>, n: int)
    requires
        0 <= n <= s.len(),
        n <= t.len(),
        forall|i: int| 0 <= i < n ==> s[i] == t[i],
    ensures
        squeezed_upto(s, n) == squeezed_upto(t, n),
    decreases n,
{
    if n > 0 {
        squeezed_prefix(s, t, n - 1);
    }
}

proof fn solid_upto(s: Seq<char>, n: int)
    requires
        is_solid(s),
        0 <= n <= s.len(),
    ensures
        squeezed_upto(s, n) == (s.subrange(0, n), false),
    decreases n,
{
    if n > 0 {
        solid_upto(s, n - 1);
        assert(s.subrange(0, n) =~= s.subrange(0, n - 1).push(s[n - 1]));
    } else {
        assert(s.subrange(0, 0) =~= Seq::<char>::empty());
    }
}

/// A text without blanks is not squeezed.
pub proof fn solid_text_stays(s: Seq<char>)
    requires
        is_solid(s),
    ensures
        squeezed(s) == s,
{
    solid_upto(s, s.len() as int);
    assert(s.subrange(0, s.len() as int) =~= s);
}

/// Two texts with a space between them, or the one that is not empty.
pub open spec fn spaced(a: Seq<char>, b: Seq<char>) -> Seq<char> {
    if a.len() == 0 {
        b
    } else if b.len() == 0 {
        a
    } else {
        a + seq![' '] + b
    }
}

proof fn squeezed_behind(a: Seq<char>, c: char, b: Seq<char>, k: int)
    requires
        is_blank(c),
        0 <= k <= b.len(),
    ensures
        squeezed_upto(a + seq![c] + b, a.len() + 1 + k) == (
            spaced(squeezed(a), squeezed_upto(b, k).0),
            squeezed_upto(b, k).0.len() == 0 || squeezed_upto(b, k).1,
        ),
    decreases k,
{
    let x = a + seq![c] + b;
    if k == 0 {
        squeezed_prefix(x, a, a.len() as int);
        assert(x[a.len() as int] == c);
    } else {
        squeezed_behind(a, c, b, k - 1);
        let o = squeezed_upto(b, k - 1).0;
        let p = squeezed(a);
        assert(x[a.len() + k] == b[k - 1]);
        let now = squeezed_upto(x, a.len() + 1 + k).0;
        let want = spaced(p, squeezed_upto(b, k).0);
        assert(now =~= want);
    }
}

/// A text is squeezed piece by piece: at each blank it falls into two parts,
/// which are squeezed and have one space between them, or none where one of
/// them is empty.
pub proof fn squeezing_goes_word_by_word(a: Seq<char>, c: char, b: Seq<char>)
    requires
        is_blank(c),
    ensures
        squeezed(a + seq![c] + b) == spaced(squeezed(a), squeezed(b)),
{
    squeezed_behind(a, c, b, b.len() as int);
    assert((a + seq![c] + b).len() == a.len() + 1 + b.len());
}

proof fn first_solid_is_first(s: Seq<char>, k: int)
    requires
        0 <= k <= s.len(),
        forall|i: int| 0 <= i < k ==> is_blank(#[trigger] s[i]),
    ensures
        k <= first_solid(s, k) <= s.len(),
        forall|i: int| 0 <= i < first_solid(s, k) ==> is_blank(#[trigger] s[i]),
        first_solid(s, k) < s.len() ==> !is_blank(s[first_solid(s, k)]),
    decreases s.len() - k,
{
    if k < s.len() && is_blank(s[k]) {
        first_solid_is_first(s, k + 1);
    }
}

proof fn last_solid_is_last(s: Seq<char>, start: int, n: int)
    requires
        0 <= start <= n <= s.len(),
        forall|i: int| n <= i < s.len() ==> is_blank(#[trigger] s[i]),
    ensures
        start <= last_solid(s, start, n) <= n,
        forall|i: int| last_solid(s, start, n) <= i < s.len() ==> is_blank(#[trigger] s[i]),
        last_solid(s, start, n) > start ==> !is_blank(s[last_solid(s, start, n) - 1]),
    decreases n - start,
{
    if n > start && is_blank(s[n - 1]) {
        last_solid_is_last(s, start, n - 1);
    }
}

/// Trimming takes the blanks at both ends of a text off, and nothing else.
pub proof fn trimming_takes_blanks_off(s: Seq<char>)
    ensures
        exists|i: int, j: int|
            {
                &&& 0 <= i <= j <= s.len()
                &&& trimmed(s) == #[trigger] s.subrange(i, j)
                &&& is_blank_between(s, 0, i)
                &&& is_blank_between(s, j, s.len() as int)
                &&& i < j ==> !is_blank(s[i]) && !is_blank(s[j - 1])
            },
{
    let i = first_solid(s, 0);
    first_solid_is_first(s, 0);
    let j = last_solid(s, i, s.len() as int);
    last_solid_is_last(s, i, s.len() as int);
    assert(trimmed(s) == s.subrange(i, j));
}

/// True when all characters between two positions are blanks.
pub open spec fn is_blank_between(s: Seq<char>, i: int, j: int) -> bool {
    forall|k: int| i <= k < j ==> is_blank(#[trigger] s[k])
}

// ──────────────────────────────── numbers ─────────────────────────────

/// The number that a decimal digit stands for.
pub open spec fn digit_value(c: char) -> int {
    c as int - '0' as int
}

/// The number that decimal digits stand for.
pub open spec fn value_of(s: Seq<char>) -> int
    decreases s.len(),
{
    if s.len() == 0 {
        0
    } else {
        10 * value_of(s.drop_last()) + digit_value(s.last())
    }
}

/// A number is written in decimal digits that stand for it, the first of which
/// is no zero unless the number is.
pub proof fn decimal_is_read_back(n: nat)
    ensures
        value_of(decimal(n)) == n,
        decimal(n).len() > 0,
        forall|i: int| 0 <= i < decimal(n).len() ==> '0' <= #[trigger] decimal(n)[i] && decimal(
            n,
        )[i] <= '9',
        n > 0 ==> decimal(n)[0] != '0',
    decreases n,
{
    let s = decimal(n);
    if n < 10 {
        assert(s.drop_last() =~= Seq::<char>::empty());
        assert(value_of(s.drop_last()) == 0);
    } else {
        decimal_is_read_back(n / 10);
        assert(s.drop_last() =~= decimal(n / 10));
        assert(s.last() == digit((n % 10) as int));
        assert(s[0] == decimal(n / 10)[0]);
        assert forall|i: int| 0 <= i < s.len() implies '0' <= #[trigger] s[i] && s[i] <= '9' by {
            if i < s.len() - 1 {
                assert(s[i] == decimal(n / 10)[i]);
            }
        }
    }
}

/// Different numbers are written differently.
pub proof fn decimal_is_injective(a: nat, b: nat)
    requires
        decimal(a) == decimal(b),
    ensures
        a == b,
{
    decimal_is_read_back(a);
    decimal_is_read_back(b);
}

// ───────────────────────────────── order ──────────────────────────────

/// True when the texts are alike up to a position, where the first ends or has
/// the smaller character.
pub open spec fn differs_at(a: Seq<char>, b: Seq<char>, k: int) -> bool {
    &&& 0 <= k <= a.len()
    &&& k < b.len()
    &&& forall|i: int| 0 <= i < k ==> #[trigger] a[i] == b[i]
    &&& k == a.len() || a[k] < b[k]
}

/// Texts are ordered by the first character in which they differ, and a text
/// comes before those that it begins.
pub proof fn order_is_by_first_difference(a: Seq<char>, b: Seq<char>)
    ensures
        text_lt(a, b) <==> exists|k: int| #[trigger] differs_at(a, b, k),
    decreases a.len(),
{
    if b.len() > 0 {
        if a.len() == 0 {
            assert(differs_at(a, b, 0));
        } else if a[0] == b[0] {
            let x = a.drop_first();
            let y = b.drop_first();
            order_is_by_first_difference(x, y);
            if text_lt(x, y) {
                let k = choose|k: int| #[trigger] differs_at(x, y, k);
                assert forall|i: int| 0 <= i < k + 1 implies #[trigger] a[i] == b[i] by {
                    if i > 0 {
                        assert(x[i - 1] == y[i - 1]);
                    }
                }
                assert(differs_at(a, b, k + 1));
            }
            if exists|k: int| #[trigger] differs_at(a, b, k) {
                let k = choose|k: int| #[trigger] differs_at(a, b, k);
                assert(k > 0);
                assert forall|i: int| 0 <= i < k - 1 implies #[trigger] x[i] == y[i] by {
                    assert(a[i + 1] == b[i + 1]);
                }
                assert(differs_at(x, y, k - 1));
            }
        } else {
            if a[0] < b[0] {
                assert(differs_at(a, b, 0));
            }
            if exists|k: int| #[trigger] differs_at(a, b, k) {
                let k = choose|k: int| #[trigger] differs_at(a, b, k);
                if k > 0 {
                    assert(a[0] == b[0]);
                }
            }
        }
    }
}

// ───────────────────────────────── lines ──────────────────────────────

pub open spec fn ends_line(bytes: Seq<u8>) -> spec_fn(int) -> bool {
    |i: int| bytes[i] == 10
}

proof fn line_ends_in_turn(bytes: Seq<u8>, n: int) -> (chosen: Seq<int>)
    requires
        0 <= n <= bytes.len(),
    ensures
        lists_those(chosen, n, ends_line(bytes)),
        newlines(bytes, n) == chosen.len(),
    decreases n,
{
    if n > 0 {
        let before = line_ends_in_turn(bytes, n - 1);
        one_more(before, n, ends_line(bytes))
    } else {
        Seq::empty()
    }
}

/// A place in a source is on the line behind as many line ends as there are in
/// front of it.
pub proof fn line_counts_line_ends(source: Seq<char>, off: usize)
    requires
        off <= encode_utf8(source).len(),
        encode_utf8(source).len() < 0xffff_ffff,
    ensures
        exists|chosen: Seq<int>| #[trigger]
            lists_those(chosen, off as int, ends_line(encode_utf8(source))) && line_at(source, off)
                == chosen.len() + 1,
{
    let b = encode_utf8(source);
    let chosen = line_ends_in_turn(b, off as int);
    few_line_ends(b, off as int);
}

proof fn few_line_ends(bytes: Seq<u8>, n: int)
    requires
        0 <= n <= bytes.len(),
    ensures
        0 <= newlines(bytes, n) <= n,
    decreases n,
{
    if n > 0 {
        few_line_ends(bytes, n - 1);
    }
}

} // verus!
