//! Record addresses: a record of the document is named by an address
//! `a.b.c.d` of four decimal numbers, its id is `a·256³ + b·256² + c·256 + d`.

use vstd::prelude::*;
use crate::text::{
    decimal_string, is_digit, lemma_decimal_string_value, lemma_parse_decimal_string, parse_u64, parse_u64_spec,
};

verus! {

/// `s` cut at each `.` (`str::split('.')`): the pieces between dots, empty
/// ones included, so there is always one more piece than there are dots.
pub open spec fn split_dots(s: Seq<char>) -> Seq<Seq<char>>
    decreases s.len(),
{
    if s.len() == 0 {
        seq![Seq::<char>::empty()]
    } else {
        let p = split_dots(s.drop_last());
        if s.last() == '.' {
            p.push(Seq::<char>::empty())
        } else {
            p.update(p.len() - 1, p.last().push(s.last()))
        }
    }
}

/// The number of dots in `s`.
pub open spec fn dot_count(s: Seq<char>) -> nat
    decreases s.len(),
{
    if s.len() == 0 {
        0
    } else {
        dot_count(s.drop_last()) + if s.last() == '.' {
            1nat
        } else {
            0nat
        }
    }
}

/// There is one piece more than there are dots.
pub proof fn lemma_split_len(s: Seq<char>)
    ensures
        split_dots(s).len() == dot_count(s) + 1,
    decreases s.len(),
{
    if s.len() > 0 {
        lemma_split_len(s.drop_last());
    }
}

/// A piece of an address counts as its decimal value, or as 0 where it is
/// not a number (`parse().unwrap_or(0)`).
pub open spec fn part_value(p: Seq<char>) -> int {
    match parse_u64_spec(p) {
        Some(v) => v as int,
        None => 0,
    }
}

/// The id that the four pieces of an address denote.
pub open spec fn address_value(parts: Seq<Seq<char>>) -> int {
    part_value(parts[0]) * 16777216 + part_value(parts[1]) * 65536 + part_value(parts[2]) * 256
        + part_value(parts[3])
}

/// The id of the address `s`: `None` unless `s` has exactly four pieces
/// (three dots) and the id fits in a `u64`.
pub open spec fn address_id(s: Seq<char>) -> Option<u64> {
    let parts = split_dots(s);
    if parts.len() == 4 && address_value(parts) <= u64::MAX {
        Some(address_value(parts) as u64)
    } else {
        None
    }
}

/// The pieces of `s` as the ranges `ranges`, and then the open piece that
/// starts at `start`.
spec fn pieces(s: Seq<char>, ranges: Seq<(usize, usize)>, start: int, end: int) -> Seq<Seq<char>> {
    ranges.map_values(|r: (usize, usize)| s.subrange(r.0 as int, r.1 as int)).push(
        s.subrange(start, end),
    )
}

/// The start and end of each piece of `s`, in order.
fn piece_ranges(s: &str) -> (r: Vec<(usize, usize)>)
    ensures
        r@.len() == split_dots(s@).len(),
        forall|k: int|
            0 <= k < r@.len() ==> {
                &&& 0 <= (#[trigger] r@[k]).0 <= r@[k].1 <= s@.len()
                &&& s@.subrange(r@[k].0 as int, r@[k].1 as int) == split_dots(s@)[k]
            },
{
    let n = s.unicode_len();
    let mut ranges: Vec<(usize, usize)> = Vec::new();
    let mut start: usize = 0;
    let mut i: usize = 0;
    assert(s@.take(0) =~= Seq::<char>::empty());
    assert(pieces(s@, ranges@, 0, 0) =~= split_dots(s@.take(0)));
    while i < n
        invariant
            n == s@.len(),
            start <= i <= n,
            forall|k: int| 0 <= k < ranges@.len() ==> 0 <= (#[trigger] ranges@[k]).0 <= ranges@[k].1 <= start,
            pieces(s@, ranges@, start as int, i as int) == split_dots(s@.take(i as int)),
        decreases n - i,
    {
        let c = s.get_char(i);
        let ghost before = pieces(s@, ranges@, start as int, i as int);
        assert(s@.take(i + 1).drop_last() =~= s@.take(i as int));
        assert(s@.take(i + 1).last() == c);
        if c == '.' {
            let ghost old_ranges = ranges@;
            ranges.push((start, i));
            let ghost f = |r: (usize, usize)| s@.subrange(r.0 as int, r.1 as int);
            assert(ranges@.map_values(f) =~= old_ranges.map_values(f).push(s@.subrange(start as int, i as int)));
            start = i + 1;
            assert(s@.subrange(start as int, i + 1) =~= Seq::<char>::empty());
            assert(pieces(s@, ranges@, start as int, i + 1) =~= before.push(Seq::<char>::empty()));
        } else {
            assert(s@.subrange(start as int, i + 1) =~= s@.subrange(start as int, i as int).push(c));
            assert(pieces(s@, ranges@, start as int, i + 1) =~= before.update(
                before.len() - 1,
                before.last().push(c),
            ));
        }
        i = i + 1;
    }
    assert(s@.take(n as int) =~= s@);
    let ghost final_pieces = pieces(s@, ranges@, start as int, n as int);
    ranges.push((start, n));
    assert forall|k: int| 0 <= k < ranges@.len() implies s@.subrange(
        (#[trigger] ranges@[k]).0 as int,
        ranges@[k].1 as int,
    ) == split_dots(s@)[k] by {
        assert(final_pieces[k] == split_dots(s@)[k]);
    }
    ranges
}

/// The id of the address `addr`, or `None` when it does not have four pieces
/// or its id does not fit in a `u64`.
pub fn address_to_id(addr: &str) -> (r: Option<u64>)
    ensures
        r == address_id(addr@),
{
    let ranges = piece_ranges(addr);
    if ranges.len() != 4 {
        return None;
    }
    let ghost parts = split_dots(addr@);
    let mut values: [u64; 4] = [0, 0, 0, 0];
    let mut k: usize = 0;
    while k < 4
        invariant
            ranges@.len() == 4,
            parts == split_dots(addr@),
            parts.len() == 4,
            k <= 4,
            forall|m: int|
                0 <= m < 4 ==> {
                    &&& 0 <= (#[trigger] ranges@[m]).0 <= ranges@[m].1 <= addr@.len()
                    &&& addr@.subrange(ranges@[m].0 as int, ranges@[m].1 as int) == parts[m]
                },
            forall|m: int| 0 <= m < k ==> #[trigger] values@[m] as int == part_value(parts[m]),
        decreases 4 - k,
    {
        let (a, b) = ranges[k];
        let piece = addr.substring_char(a, b);
        assert(piece@ == parts[k as int]);
        let v = match parse_u64(piece) {
            Some(v) => v,
            None => 0,
        };
        values[k] = v;
        k = k + 1;
    }
    assert(values@[0] as int == part_value(parts[0]));
    assert(values@[1] as int == part_value(parts[1]));
    assert(values@[2] as int == part_value(parts[2]));
    assert(values@[3] as int == part_value(parts[3]));
    let a = values[0];
    let b = values[1];
    let c = values[2];
    let d = values[3];
    let x = match a.checked_mul(16777216) {
        Some(x) => x,
        None => {
            assert(address_value(parts) > u64::MAX) by (nonlinear_arith)
                requires
                    address_value(parts) == a * 16777216 + b * 65536 + c * 256 + d,
                    a * 16777216 > u64::MAX,
                    b >= 0,
                    c >= 0,
                    d >= 0,
            ;
            return None;
        },
    };
    let y = match b.checked_mul(65536) {
        Some(y) => y,
        None => {
            assert(address_value(parts) > u64::MAX) by (nonlinear_arith)
                requires
                    address_value(parts) == a * 16777216 + b * 65536 + c * 256 + d,
                    b * 65536 > u64::MAX,
                    a >= 0,
                    c >= 0,
                    d >= 0,
            ;
            return None;
        },
    };
    let z = match c.checked_mul(256) {
        Some(z) => z,
        None => {
            assert(address_value(parts) > u64::MAX) by (nonlinear_arith)
                requires
                    address_value(parts) == a * 16777216 + b * 65536 + c * 256 + d,
                    c * 256 > u64::MAX,
                    a >= 0,
                    b >= 0,
                    d >= 0,
            ;
            return None;
        },
    };
    assert(address_value(parts) == x + y + z + d);
    match x.checked_add(y) {
        Some(xy) => match xy.checked_add(z) {
            Some(xyz) => match xyz.checked_add(d) {
                Some(total) => Some(total),
                None => None,
            },
            None => None,
        },
        None => None,
    }
}

/// Cutting `s`, a dot and `t` gives the pieces of `s`, then those of `t`.
proof fn lemma_split_joined(s: Seq<char>, t: Seq<char>)
    ensures
        split_dots(s + seq!['.'] + t) == split_dots(s) + split_dots(t),
    decreases t.len(),
{
    let w = s + seq!['.'] + t;
    if t.len() == 0 {
        assert(w.drop_last() =~= s);
        assert(split_dots(s) + split_dots(t) =~= split_dots(s).push(Seq::<char>::empty()));
    } else {
        lemma_split_joined(s, t.drop_last());
        lemma_split_len(t.drop_last());
        assert(w.drop_last() =~= s + seq!['.'] + t.drop_last());
        assert(w.last() == t.last());
        let p = split_dots(s);
        let q = split_dots(t.drop_last());
        if t.last() == '.' {
            assert((p + q).push(Seq::<char>::empty()) =~= p + q.push(Seq::<char>::empty()));
        } else {
            assert((p + q).update((p + q).len() - 1, (p + q).last().push(t.last())) =~= p + q.update(
                q.len() - 1,
                q.last().push(t.last()),
            ));
        }
    }
}

/// Text without a dot is a single piece.
proof fn lemma_split_no_dot(t: Seq<char>)
    requires
        forall|i: int| 0 <= i < t.len() ==> t[i] != '.',
    ensures
        split_dots(t) == seq![t],
    decreases t.len(),
{
    if t.len() > 0 {
        lemma_split_no_dot(t.drop_last());
        assert(t.drop_last().push(t.last()) =~= t);
    } else {
        assert(t =~= Seq::<char>::empty());
    }
}

/// The address `a.b.c.d` written with the four numbers in decimal.
pub open spec fn dotted_address(a: u64, b: u64, c: u64, d: u64) -> Seq<char> {
    decimal_string(a as nat) + seq!['.'] + decimal_string(b as nat) + seq!['.'] + decimal_string(c as nat)
        + seq!['.'] + decimal_string(d as nat)
}

/// The numeral of `n` is a single piece, whose value is `n`.
proof fn lemma_numeral_piece(n: u64)
    ensures
        split_dots(decimal_string(n as nat)) == seq![decimal_string(n as nat)],
        part_value(decimal_string(n as nat)) == n,
{
    lemma_decimal_string_value(n as nat);
    lemma_parse_decimal_string(n);
    let t = decimal_string(n as nat);
    assert forall|i: int| 0 <= i < t.len() implies t[i] != '.' by {
        assert(is_digit(t[i]));
    }
    lemma_split_no_dot(t);
}

/// Four numbers below 256 written as an address `a.b.c.d` give the id
/// `a·256³ + b·256² + c·256 + d`.
pub proof fn lemma_address_of_four_numbers(a: u64, b: u64, c: u64, d: u64)
    requires
        a <= 255,
        b <= 255,
        c <= 255,
        d <= 255,
    ensures
        address_id(dotted_address(a, b, c, d)) == Some((a * 16777216 + b * 65536 + c * 256 + d) as u64),
{
    let (sa, sb, sc, sd) = (
        decimal_string(a as nat),
        decimal_string(b as nat),
        decimal_string(c as nat),
        decimal_string(d as nat),
    );
    lemma_numeral_piece(a);
    lemma_numeral_piece(b);
    lemma_numeral_piece(c);
    lemma_numeral_piece(d);
    lemma_split_joined(sa, sb);
    lemma_split_joined(sa + seq!['.'] + sb, sc);
    lemma_split_joined(sa + seq!['.'] + sb + seq!['.'] + sc, sd);
    let parts = split_dots(dotted_address(a, b, c, d));
    assert(parts =~= seq![sa, sb, sc, sd]);
    assert(a * 16777216 + b * 65536 + c * 256 + d <= u64::MAX) by (nonlinear_arith)
        requires
            a <= 255,
            b <= 255,
            c <= 255,
            d <= 255,
    ;
}

/// Different numbers below 256 give different ids: `a.b.c.d` names one
/// record.
pub proof fn lemma_address_ids_distinct(a: u64, b: u64, c: u64, d: u64, e: u64, f: u64, g: u64, h: u64)
    requires
        a <= 255,
        b <= 255,
        c <= 255,
        d <= 255,
        e <= 255,
        f <= 255,
        g <= 255,
        h <= 255,
        (a, b, c, d) != (e, f, g, h),
    ensures
        address_id(dotted_address(a, b, c, d)) != address_id(dotted_address(e, f, g, h)),
{
    lemma_address_of_four_numbers(a, b, c, d);
    lemma_address_of_four_numbers(e, f, g, h);
    assert(a * 16777216 + b * 65536 + c * 256 + d != e * 16777216 + f * 65536 + g * 256 + h) by (bit_vector)
        requires
            a <= 255,
            b <= 255,
            c <= 255,
            d <= 255,
            e <= 255,
            f <= 255,
            g <= 255,
            h <= 255,
            a != e || b != f || c != g || d != h,
    ;
}

/// The id of the address `addr`. `location` says where the address was
/// found; it plays no part in the result.
pub fn convert_from_address_to_id(addr: String, location: &str) -> (r: u64)
    requires
        address_id(addr@) is Some,
    ensures
        Some(r) == address_id(addr@),
{
    match address_to_id(addr.as_str()) {
        Some(v) => v,
        None => 0,
    }
}

} // verus!
