//! Tiles: the text form of a tilemap's solid tile set, the palette colour of
//! a tile index and the cell of a tile inside a tileset image.
use std::collections::BTreeSet;
use vstd::prelude::*;
use vstd::string::*;
use vstd::std_specs::btree::{increasing_seq, spec_btree_keys_iter};
use vstd::std_specs::iter::IteratorSpec;
use vstd::std_specs::cmp::OrdSpec;

verus! {

broadcast use vstd::std_specs::btree::group_btree_axioms;

/// `q` is strictly increasing.
pub open spec fn strictly_increasing(q: Seq<u32>) -> bool {
    forall|i: int, j: int| 0 <= i < j < q.len() ==> q[i] < q[j]
}

/// The elements of `tiles` in increasing order.
pub fn sorted_tiles(tiles: &BTreeSet<u32>) -> (v: Vec<u32>)
    ensures
        v@.to_set() == tiles@,
        strictly_increasing(v@),
{
    let ghost all = spec_btree_keys_iter(tiles).remaining().map_values(|x: &u32| *x);
    let mut v: Vec<u32> = Vec::new();
    for t in it: tiles.iter()
        invariant
            it.seq() == spec_btree_keys_iter(tiles).remaining(),
            all == it.seq().map_values(|x: &u32| *x),
            v@ == all.take(it.index()),
    {
        v.push(*t);
        assert(v@ =~= all.take(it.index() + 1));
    }
    assert(v@ =~= all);
    proof {
        broadcast use vstd::laws_cmp::group_laws_cmp;
        vstd::std_specs::btree::axiom_spec_btree_keys_iter(tiles);
        let r = spec_btree_keys_iter(tiles).remaining();
        assert(r.unref() =~= all);
        assert(vstd::laws_cmp::obeys_cmp::<u32>());
        assert(vstd::laws_cmp::obeys_cmp::<&u32>());
        assert(increasing_seq(r));
        vstd::std_specs::btree::axiom_increasing_seq_meaning(r);
        assert forall|i: int, j: int| 0 <= i < j < all.len() implies all[i] < all[j] by {
            assert((&r[i]).cmp_spec(&r[j]) is Less);
        }
    }
    v
}

} // verus!

verus! {

/// The char of a decimal digit.
pub open spec fn digit_char(d: int) -> char {
    (d + 48) as char
}

/// The decimal text of `n`, without sign or leading zeros (`u32::to_string`).
pub open spec fn decimal(n: nat) -> Seq<char>
    decreases n,
{
    if n < 10 {
        seq![digit_char(n as int)]
    } else {
        decimal(n / 10).push(digit_char((n % 10) as int))
    }
}

/// The values of `q` in decimal, separated by `", "`.
pub open spec fn join_decimals(q: Seq<u32>) -> Seq<char>
    decreases q.len(),
{
    if q.len() == 0 {
        Seq::empty()
    } else if q.len() == 1 {
        decimal(q[0] as nat)
    } else {
        join_decimals(q.drop_last()) + seq![',', ' '] + decimal(q.last() as nat)
    }
}

/// The elements of a tile set in increasing order.
pub open spec fn sorted_seq(tiles: Set<u32>) -> Seq<u32> {
    choose|q: Seq<u32>| strictly_increasing(q) && q.to_set() == tiles
}

/// The text form of a solid tile set: its tiles in increasing order, in
/// decimal, separated by `", "`.
pub open spec fn solid_tiles_text(tiles: Set<u32>) -> Seq<char> {
    join_decimals(sorted_seq(tiles))
}

pub open spec fn is_digit(c: char) -> bool {
    '0' <= c && c <= '9'
}

pub open spec fn all_digits(d: Seq<char>) -> bool {
    forall|i: int| 0 <= i < d.len() ==> is_digit(#[trigger] d[i])
}

/// The number written by the decimal digits `d`.
pub open spec fn digits_value(d: Seq<char>) -> nat
    decreases d.len(),
{
    if d.len() == 0 {
        0
    } else {
        digits_value(d.drop_last()) * 10 + ((d.last() as int - 48) as nat)
    }
}

/// What `str::parse::<u32>` accepts: an optional `+` followed by one or more
/// ASCII digits whose value fits in a `u32`.
pub open spec fn parse_u32_text(p: Seq<char>) -> Option<u32> {
    let d = if p.len() > 0 && p[0] == '+' {
        p.drop_first()
    } else {
        p
    };
    if d.len() > 0 && all_digits(d) && digits_value(d) <= u32::MAX {
        Some(digits_value(d) as u32)
    } else {
        None
    }
}

/// What `str::parse::<u64>` accepts: an optional `+` followed by one or more
/// ASCII digits whose value fits in a `u64`.
pub open spec fn parse_u64_text(p: Seq<char>) -> Option<u64> {
    let d = if p.len() > 0 && p[0] == '+' {
        p.drop_first()
    } else {
        p
    };
    if d.len() > 0 && all_digits(d) && digits_value(d) <= u64::MAX {
        Some(digits_value(d) as u64)
    } else {
        None
    }
}

/// `s` cut at every `,` (`str::split(',')`): always at least one part.
pub open spec fn split_commas(s: Seq<char>) -> Seq<Seq<char>>
    decreases s.len(),
{
    if s.len() == 0 {
        seq![Seq::<char>::empty()]
    } else if s.last() == ',' {
        split_commas(s.drop_last()).push(Seq::<char>::empty())
    } else {
        let init = split_commas(s.drop_last());
        init.update(init.len() - 1, init.last().push(s.last()))
    }
}

/// The tiles written in `parts`: each part is trimmed, blank parts are
/// skipped, and the first part that is not a tile index is the error.
pub open spec fn parse_parts(parts: Seq<Seq<char>>) -> Result<Set<u32>, Seq<char>>
    decreases parts.len(),
{
    if parts.len() == 0 {
        Ok(Set::empty())
    } else {
        match parse_parts(parts.drop_last()) {
            Err(e) => Err(e),
            Ok(s) => {
                let t = crate::text::trim_seq(parts.last());
                if t.len() == 0 {
                    Ok(s)
                } else {
                    match parse_u32_text(t) {
                        None => Err(t),
                        Some(v) => Ok(s.insert(v)),
                    }
                }
            },
        }
    }
}

pub open spec fn invalid_tile_prefix() -> Seq<char> {
    seq![
        'I', 'n', 'v', 'a', 'l', 'i', 'd', ' ', 't', 'i', 'l', 'e', ' ', 'i', 'n', 'd', 'e', 'x', ':',
        ' '
    ]
}

/// The tile set written in `input`, or the message naming the first part
/// that is not a tile index.
pub open spec fn parsed_solid_tiles(input: Seq<char>) -> Result<Set<u32>, Seq<char>> {
    match parse_parts(split_commas(input)) {
        Ok(s) => Ok(s),
        Err(part) => Err(invalid_tile_prefix() + part),
    }
}

proof fn lemma_sorted_unique(a: Seq<u32>, b: Seq<u32>)
    requires
        strictly_increasing(a),
        strictly_increasing(b),
        a.to_set() == b.to_set(),
    ensures
        a == b,
    decreases a.len(),
{
    if a.len() == 0 {
        if b.len() > 0 {
            assert(b.to_set().contains(b[0]));
        }
        assert(a =~= b);
    } else {
        assert(a.to_set().contains(a.last()));
        assert(b.to_set().contains(a.last()));
        assert(b.len() > 0);
        assert(a.to_set().contains(b.last()));
        let ka = choose|k: int| 0 <= k < a.len() && a[k] == b.last();
        let kb = choose|k: int| 0 <= k < b.len() && b[k] == a.last();
        assert(a.last() == b.last()) by {
            if ka < a.len() - 1 {
                assert(a[ka] < a.last());
            }
            if kb < b.len() - 1 {
                assert(b[kb] < b.last());
            }
        }
        let x = a.last();
        assert(a.drop_last().to_set() =~= b.drop_last().to_set()) by {
            assert forall|y: u32| a.drop_last().to_set().contains(y) implies b.drop_last().to_set().contains(y) by {
                let i = choose|i: int| 0 <= i < a.len() - 1 && a[i] == y;
                assert(a[i] < x);
                assert(b.to_set().contains(y));
                let j = choose|j: int| 0 <= j < b.len() && b[j] == y;
                assert(j != b.len() - 1);
                assert(b.drop_last()[j] == y);
            }
            assert forall|y: u32| b.drop_last().to_set().contains(y) implies a.drop_last().to_set().contains(y) by {
                let i = choose|i: int| 0 <= i < b.len() - 1 && b[i] == y;
                assert(b[i] < x);
                assert(a.to_set().contains(y));
                let j = choose|j: int| 0 <= j < a.len() && a[j] == y;
                assert(j != a.len() - 1);
                assert(a.drop_last()[j] == y);
            }
        }
        lemma_sorted_unique(a.drop_last(), b.drop_last());
        assert(a =~= a.drop_last().push(x));
        assert(b =~= b.drop_last().push(x));
    }
}

/// Appends the decimal text of `n` to `out`.
fn push_decimal(n: u32, out: &mut Vec<char>)
    ensures
        final(out)@ == old(out)@ + decimal(n as nat),
    decreases n,
{
    if n >= 10 {
        push_decimal(n / 10, out);
    }
    let d: u32 = n % 10;
    let c: char = if d == 0 {
        '0'
    } else if d == 1 {
        '1'
    } else if d == 2 {
        '2'
    } else if d == 3 {
        '3'
    } else if d == 4 {
        '4'
    } else if d == 5 {
        '5'
    } else if d == 6 {
        '6'
    } else if d == 7 {
        '7'
    } else if d == 8 {
        '8'
    } else {
        '9'
    };
    assert(c == digit_char(d as int));
    out.push(c);
}

/// The text form of a solid tile set: its tiles in increasing order,
/// separated by `", "` (empty for an empty set).
pub fn format_solid_tiles(solid_tiles: &BTreeSet<u32>) -> (r: String)
    ensures
        r@ == solid_tiles_text(solid_tiles@),
{
    let q = sorted_tiles(solid_tiles);
    proof {
        let c = sorted_seq(solid_tiles@);
        assert(strictly_increasing(c) && c.to_set() == solid_tiles@);
        lemma_sorted_unique(q@, c);
    }
    let mut out: Vec<char> = Vec::new();
    let mut i: usize = 0;
    while i < q.len()
        invariant
            i <= q.len(),
            out@ == join_decimals(q@.take(i as int)),
        decreases q.len() - i,
    {
        proof {
            let t = q@.take(i as int + 1);
            assert(t.drop_last() =~= q@.take(i as int));
            assert(t.last() == q@[i as int]);
            if i == 0 {
                assert(t.len() == 1);
            }
        }
        if i > 0 {
            out.push(',');
            out.push(' ');
        }
        let ghost before = out@;
        push_decimal(q[i], &mut out);
        proof {
            if i > 0 {
                assert(out@ =~= join_decimals(q@.take(i as int)) + seq![',', ' '] + decimal(
                    q@[i as int] as nat,
                ));
            } else {
                assert(q@.take(0) =~= Seq::<u32>::empty());
                assert(out@ =~= decimal(q@[0] as nat));
            }
        }
        i = i + 1;
    }
    assert(q@.take(q@.len() as int) =~= q@);
    crate::text::string_of(&out)
}

} // verus!

verus! {

/// The views of a sequence of char vectors.
pub open spec fn char_views(v: Seq<Vec<char>>) -> Seq<Seq<char>> {
    v.map_values(|x: Vec<char>| x@)
}

/// `chars` cut at every `,`.
fn split_at_commas(chars: &Vec<char>) -> (parts: Vec<Vec<char>>)
    ensures
        char_views(parts@) == split_commas(chars@),
{
    let mut done: Vec<Vec<char>> = Vec::new();
    let mut cur: Vec<char> = Vec::new();
    let mut i: usize = 0;
    assert(chars@.take(0) =~= Seq::<char>::empty());
    assert(char_views(done@).push(cur@) =~= split_commas(chars@.take(0)));
    while i < chars.len()
        invariant
            i <= chars.len(),
            char_views(done@).push(cur@) == split_commas(chars@.take(i as int)),
        decreases chars.len() - i,
    {
        let c = chars[i];
        proof {
            let t = chars@.take(i as int + 1);
            assert(t.drop_last() =~= chars@.take(i as int));
            assert(t.last() == c);
        }
        if c == ',' {
            let finished = cur;
            done.push(finished);
            cur = Vec::new();
            assert(char_views(done@).push(cur@) =~= split_commas(chars@.take(i as int)).push(
                Seq::<char>::empty(),
            ));
        } else {
            let ghost init = split_commas(chars@.take(i as int));
            cur.push(c);
            assert(char_views(done@).push(cur@) =~= init.update(
                init.len() - 1,
                init.last().push(c),
            ));
        }
        i = i + 1;
    }
    assert(chars@.take(chars@.len() as int) =~= chars@);
    done.push(cur);
    assert(char_views(done@) =~= split_commas(chars@));
    done
}

proof fn lemma_digits_prefix_monotone(d: Seq<char>, k: int)
    requires
        0 <= k <= d.len(),
    ensures
        digits_value(d.take(k)) <= digits_value(d),
    decreases d.len(),
{
    if k < d.len() {
        lemma_digits_prefix_monotone(d.drop_last(), k);
        assert(d.drop_last().take(k) =~= d.take(k));
    } else {
        assert(d.take(k) =~= d);
    }
}

/// The tile index written in `chars[a..b]`, if it is one.
fn parse_tile_index(chars: &Vec<char>, a: usize, b: usize) -> (r: Option<u32>)
    requires
        a <= b <= chars.len(),
    ensures
        r == parse_u32_text(chars@.subrange(a as int, b as int)),
{
    let ghost p = chars@.subrange(a as int, b as int);
    let start: usize = if a < b && chars[a] == '+' {
        a + 1
    } else {
        a
    };
    let ghost d = chars@.subrange(start as int, b as int);
    assert(d =~= (if p.len() > 0 && p[0] == '+' {
        p.drop_first()
    } else {
        p
    }));
    if start == b {
        return None;
    }
    let mut value: u64 = 0;
    let mut i: usize = start;
    while i < b
        invariant
            start <= i <= b <= chars.len(),
            d == chars@.subrange(start as int, b as int),
            p == chars@.subrange(a as int, b as int),
            d == (if p.len() > 0 && p[0] == '+' {
                p.drop_first()
            } else {
                p
            }),
            d.len() > 0,
            value == digits_value(d.take(i - start)),
            all_digits(d.take(i - start)),
            value <= u32::MAX,
        decreases b - i,
    {
        let c = chars[i];
        let ghost t = d.take(i - start + 1);
        proof {
            assert(t.drop_last() =~= d.take(i - start));
            assert(t.last() == c);
        }
        if !('0' <= c && c <= '9') {
            assert(!is_digit(d[i - start]));
            return None;
        }
        let digit: u64 = (c as u32 - 48) as u64;
        value = value * 10 + digit;
        assert(all_digits(t));
        if value > 0xffff_ffff {
            proof {
                if all_digits(d) {
                    lemma_digits_prefix_monotone(d, i - start + 1);
                }
            }
            return None;
        }
        i = i + 1;
    }
    assert(d.take(d.len() as int) =~= d);
    Some(value as u32)
}

/// The `u64` written in `chars[a..b]`, if it is one.
pub(crate) fn parse_u64_range(chars: &Vec<char>, a: usize, b: usize) -> (r: Option<u64>)
    requires
        a <= b <= chars.len(),
    ensures
        r == parse_u64_text(chars@.subrange(a as int, b as int)),
{
    let ghost p = chars@.subrange(a as int, b as int);
    let start: usize = if a < b && chars[a] == '+' {
        a + 1
    } else {
        a
    };
    let ghost d = chars@.subrange(start as int, b as int);
    assert(d =~= (if p.len() > 0 && p[0] == '+' {
        p.drop_first()
    } else {
        p
    }));
    if start == b {
        return None;
    }
    let mut value: u128 = 0;
    let mut i: usize = start;
    while i < b
        invariant
            start <= i <= b <= chars.len(),
            d == chars@.subrange(start as int, b as int),
            p == chars@.subrange(a as int, b as int),
            d == (if p.len() > 0 && p[0] == '+' {
                p.drop_first()
            } else {
                p
            }),
            d.len() > 0,
            value == digits_value(d.take(i - start)),
            all_digits(d.take(i - start)),
            value <= u64::MAX,
        decreases b - i,
    {
        let c = chars[i];
        let ghost t = d.take(i - start + 1);
        proof {
            assert(t.drop_last() =~= d.take(i - start));
            assert(t.last() == c);
        }
        if !('0' <= c && c <= '9') {
            assert(!is_digit(d[i - start]));
            return None;
        }
        let digit: u128 = (c as u32 - 48) as u128;
        value = value * 10 + digit;
        assert(all_digits(t));
        if value > 0xffff_ffff_ffff_ffff {
            proof {
                if all_digits(d) {
                    lemma_digits_prefix_monotone(d, i - start + 1);
                }
            }
            return None;
        }
        i = i + 1;
    }
    assert(d.take(d.len() as int) =~= d);
    Some(value as u64)
}

/// The solid tile set written in `input`: tile indices separated by
/// commas, each with optional surrounding whitespace; blank entries are
/// skipped. The first entry that is not a `u32` gives the error
/// `Invalid tile index: <entry>`.
pub fn parse_solid_tiles(input: &str) -> (r: Result<BTreeSet<u32>, String>)
    ensures
        match r {
            Ok(tiles) => parsed_solid_tiles(input@) == Ok::<Set<u32>, Seq<char>>(tiles@),
            Err(message) => parsed_solid_tiles(input@) == Err::<Set<u32>, Seq<char>>(message@),
        },
{
    let chars = crate::text::chars_of(input);
    let parts = split_at_commas(&chars);
    let ghost all = char_views(parts@);
    let mut tiles: BTreeSet<u32> = BTreeSet::new();
    let mut k: usize = 0;
    assert(all.take(0) =~= Seq::<Seq<char>>::empty());
    while k < parts.len()
        invariant
            k <= parts.len(),
            all == char_views(parts@),
            all == split_commas(chars@),
            chars@ == input@,
            parse_parts(all.take(k as int)) == Ok::<Set<u32>, Seq<char>>(tiles@),
        decreases parts.len() - k,
    {
        let part = &parts[k];
        let (a, b) = crate::text::trim_bounds(part);
        let ghost t = all.take(k as int + 1);
        proof {
            assert(t.drop_last() =~= all.take(k as int));
            assert(t.last() == part@);
        }
        if a < b {
            match parse_tile_index(part, a, b) {
                Some(v) => {
                    tiles.insert(v);
                },
                None => {
                    proof {
                        lemma_parse_parts_error_sticks(all, k as int + 1);
                        assert(all.take(all.len() as int) =~= all);
                    }
                    let mut message = String::from_str("Invalid tile index: ");
                    let bad = crate::text::string_of_range(part, a, b);
                    message.append(bad.as_str());
                    proof {
                        reveal_strlit("Invalid tile index: ");
                        assert("Invalid tile index: "@ =~= invalid_tile_prefix());
                    }
                    return Err(message);
                },
            }
        }
        k = k + 1;
    }
    assert(all.take(all.len() as int) =~= all);
    Ok(tiles)
}

/// Once a prefix of the parts fails, every longer prefix fails the same way.
proof fn lemma_parse_parts_error_sticks(parts: Seq<Seq<char>>, k: int)
    requires
        0 <= k <= parts.len(),
        parse_parts(parts.take(k)) is Err,
    ensures
        parse_parts(parts) == parse_parts(parts.take(k)),
    decreases parts.len() - k,
{
    if k < parts.len() {
        assert(parts.take(k + 1).drop_last() =~= parts.take(k));
        lemma_parse_parts_error_sticks(parts, k + 1);
    } else {
        assert(parts.take(k) =~= parts);
    }
}

} // verus!

verus! {

proof fn lemma_digit_char(k: int)
    requires
        0 <= k < 10,
    ensures
        digit_char(k) as int == k + 48,
        is_digit(digit_char(k)),
{
    assert(digit_char(k) as int == k + 48);
}

proof fn lemma_decimal(n: nat)
    ensures
        decimal(n).len() > 0,
        all_digits(decimal(n)),
        digits_value(decimal(n)) == n,
    decreases n,
{
    lemma_digit_char((n % 10) as int);
    if n >= 10 {
        lemma_decimal(n / 10);
        let d = decimal(n);
        assert(d.drop_last() =~= decimal(n / 10));
        assert(all_digits(d)) by {
            assert forall|i: int| 0 <= i < d.len() implies is_digit(#[trigger] d[i]) by {
                if i < d.len() - 1 {
                    assert(d[i] == decimal(n / 10)[i]);
                }
            }
        }
        assert(d.last() == digit_char((n % 10) as int));
        assert(digits_value(d) == digits_value(decimal(n / 10)) * 10 + (n % 10));
        assert((n / 10) * 10 + n % 10 == n);
    } else {
        let d = decimal(n);
        assert(d.drop_last() =~= Seq::<char>::empty());
        assert(n % 10 == n);
        assert(d.last() == digit_char(n as int));
        assert(digits_value(d) == digits_value(d.drop_last()) * 10 + (n % 10));
    }
}

proof fn lemma_split_comma_free(y: Seq<char>)
    requires
        forall|i: int| 0 <= i < y.len() ==> #[trigger] y[i] != ',',
    ensures
        split_commas(y) == seq![y],
    decreases y.len(),
{
    if y.len() > 0 {
        lemma_split_comma_free(y.drop_last());
        assert(y.drop_last().push(y.last()) =~= y);
        assert(seq![y.drop_last()].update(0, y.drop_last().push(y.last())) =~= seq![y]);
    } else {
        assert(y =~= Seq::<char>::empty());
    }
}

proof fn lemma_split_after_comma(x: Seq<char>, y: Seq<char>)
    requires
        forall|i: int| 0 <= i < y.len() ==> #[trigger] y[i] != ',',
    ensures
        split_commas(x + seq![','] + y) == split_commas(x).push(y),
    decreases y.len(),
{
    let s = x + seq![','] + y;
    if y.len() == 0 {
        assert(s =~= x + seq![',']);
        assert(s.drop_last() =~= x);
        assert(y =~= Seq::<char>::empty());
    } else {
        lemma_split_after_comma(x, y.drop_last());
        assert(s.drop_last() =~= x + seq![','] + y.drop_last());
        assert(s.last() == y.last());
        let init = split_commas(x).push(y.drop_last());
        assert(y.drop_last().push(y.last()) =~= y);
        assert(init.update(init.len() - 1, y) =~= split_commas(x).push(y));
    }
}

/// The parts that the text of `q` splits into at commas.
pub open spec fn decimal_parts(q: Seq<u32>) -> Seq<Seq<char>>
    decreases q.len(),
{
    if q.len() == 0 {
        seq![Seq::<char>::empty()]
    } else if q.len() == 1 {
        seq![decimal(q[0] as nat)]
    } else {
        decimal_parts(q.drop_last()).push(seq![' '] + decimal(q.last() as nat))
    }
}

proof fn lemma_split_join(q: Seq<u32>)
    ensures
        split_commas(join_decimals(q)) == decimal_parts(q),
    decreases q.len(),
{
    if q.len() == 0 {
    } else if q.len() == 1 {
        lemma_decimal(q[0] as nat);
        lemma_split_comma_free(decimal(q[0] as nat));
    } else {
        lemma_split_join(q.drop_last());
        let y = seq![' '] + decimal(q.last() as nat);
        lemma_decimal(q.last() as nat);
        assert forall|i: int| 0 <= i < y.len() implies #[trigger] y[i] != ',' by {
            if i > 0 {
                assert(y[i] == decimal(q.last() as nat)[i - 1]);
                assert(is_digit(decimal(q.last() as nat)[i - 1]));
            }
        }
        assert(join_decimals(q) =~= join_decimals(q.drop_last()) + seq![','] + y);
        lemma_split_after_comma(join_decimals(q.drop_last()), y);
    }
}

proof fn lemma_trim_decimal(n: nat)
    ensures
        crate::text::trim_seq(decimal(n)) == decimal(n),
        crate::text::trim_seq(seq![' '] + decimal(n)) == decimal(n),
{
    lemma_decimal(n);
    let d = decimal(n);
    assert(is_digit(d[0]));
    assert(is_digit(d.last()));
    assert(crate::text::trim_start_seq(d) == d);
    assert(crate::text::trim_end_seq(d) == d);
    let s = seq![' '] + d;
    assert(s.drop_first() =~= d);
    assert(crate::text::trim_start_seq(s) == crate::text::trim_start_seq(d));
}

proof fn lemma_parse_decimal(n: u32)
    ensures
        parse_u32_text(decimal(n as nat)) == Some(n),
{
    lemma_decimal(n as nat);
    assert(is_digit(decimal(n as nat)[0]));
}

proof fn lemma_parse_parts_of_decimals(q: Seq<u32>)
    ensures
        parse_parts(decimal_parts(q)) == Ok::<Set<u32>, Seq<char>>(q.to_set()),
    decreases q.len(),
{
    if q.len() == 0 {
        let p = decimal_parts(q);
        assert(p.drop_last() =~= Seq::<Seq<char>>::empty());
        assert(crate::text::trim_seq(p.last()) =~= Seq::<char>::empty());
        assert(parse_parts(p.drop_last()) == Ok::<Set<u32>, Seq<char>>(Set::empty()));
        assert(q.to_set() =~= Set::<u32>::empty());
        assert(parse_parts(p) == Ok::<Set<u32>, Seq<char>>(Set::empty()));
    } else if q.len() == 1 {
        let p = decimal_parts(q);
        assert(p.drop_last() =~= Seq::<Seq<char>>::empty());
        lemma_trim_decimal(q[0] as nat);
        lemma_decimal(q[0] as nat);
        lemma_parse_decimal(q[0]);
        assert(parse_parts(p.drop_last()) == Ok::<Set<u32>, Seq<char>>(Set::empty()));
        assert(p.last() == decimal(q[0] as nat));
        assert(q.to_set() =~= Set::<u32>::empty().insert(q[0]));
        assert(parse_parts(p) == Ok::<Set<u32>, Seq<char>>(Set::empty().insert(q[0])));
    } else {
        lemma_parse_parts_of_decimals(q.drop_last());
        let p = decimal_parts(q);
        assert(p.drop_last() =~= decimal_parts(q.drop_last()));
        lemma_trim_decimal(q.last() as nat);
        lemma_decimal(q.last() as nat);
        lemma_parse_decimal(q.last());
        assert(p.last() == seq![' '] + decimal(q.last() as nat));
        assert(parse_parts(p) == Ok::<Set<u32>, Seq<char>>(q.drop_last().to_set().insert(q.last())));
        assert(q.to_set() =~= q.drop_last().to_set().insert(q.last())) by {
            assert(q =~= q.drop_last().push(q.last()));
            assert forall|x: u32| q.to_set().contains(x) implies q.drop_last().to_set().insert(q.last()).contains(x) by {
                let i = choose|i: int| 0 <= i < q.len() && q[i] == x;
                if i < q.len() - 1 {
                    assert(q.drop_last()[i] == x);
                }
            }
            assert forall|x: u32| q.drop_last().to_set().insert(q.last()).contains(x) implies q.to_set().contains(x) by {
                if x != q.last() {
                    let i = choose|i: int| 0 <= i < q.len() - 1 && q.drop_last()[i] == x;
                    assert(q[i] == x);
                }
            }
        }
    }
}

/// Writing a tile set out and reading the text back gives the same set:
/// `parse_solid_tiles(format_solid_tiles(s))` is `Ok(s)` for every solid tile set `s`.
pub proof fn law_solid_tiles_text_parses_back(tiles: BTreeSet<u32>)
    ensures
        parsed_solid_tiles(solid_tiles_text(tiles@)) == Ok::<Set<u32>, Seq<char>>(tiles@),
{
    broadcast use vstd::laws_cmp::group_laws_cmp;
    vstd::std_specs::btree::axiom_spec_btree_keys_iter(&tiles);
    let r = spec_btree_keys_iter(&tiles).remaining();
    let w = r.unref();
    assert(vstd::laws_cmp::obeys_cmp::<u32>());
    assert(vstd::laws_cmp::obeys_cmp::<&u32>());
    vstd::std_specs::btree::axiom_increasing_seq_meaning(r);
    assert forall|i: int, j: int| 0 <= i < j < w.len() implies w[i] < w[j] by {
        assert((&r[i]).cmp_spec(&r[j]) is Less);
    }
    assert(w.to_set() == tiles@);
    let q = sorted_seq(tiles@);
    assert(strictly_increasing(q) && q.to_set() == tiles@);
    lemma_split_join(q);
    lemma_parse_parts_of_decimals(q);
}

} // verus!

verus! {

/// Where a tile lies in a tileset image of `columns` by `rows` tiles.
#[derive(Debug, Clone, Copy, PartialEq, Eq, Structural)]
pub struct TilesetCell {
    pub column: u32,
    pub row: u32,
    pub columns: u32,
    pub rows: u32,
}

/// The cell of `tile_index` in a tileset of `columns` by `rows` tiles
/// (each counted as at least one); indices past the last tile wrap around.
/// The texture coordinates of the cell are `column / columns` to
/// `(column + 1) / columns` across and `row / rows` to `(row + 1) / rows` down.
pub fn tileset_cell(tile_index: u32, columns: u32, rows: u32) -> (c: TilesetCell)
    requires
        (if columns > 0 { columns as int } else { 1 }) * (if rows > 0 { rows as int } else { 1 })
            <= u32::MAX,
    ensures
        c.columns == (if columns > 0 { columns } else { 1 }),
        c.rows == (if rows > 0 { rows } else { 1 }),
        c.column == (tile_index % (c.columns * c.rows) as u32) % c.columns,
        c.row == (tile_index % (c.columns * c.rows) as u32) / c.columns,
        c.column < c.columns,
        c.row < c.rows,
{
    let columns: u32 = if columns > 0 { columns } else { 1 };
    let rows: u32 = if rows > 0 { rows } else { 1 };
    let count: u32 = columns * rows;
    assert(count > 0) by (nonlinear_arith)
        requires
            count == columns * rows,
            columns > 0,
            rows > 0,
    ;
    let index: u32 = tile_index % count;
    let column: u32 = index % columns;
    let row: u32 = index / columns;
    assert(row < rows) by (nonlinear_arith)
        requires
            index < count,
            count == columns * rows,
            row == index / columns,
            columns > 0,
    ;
    TilesetCell { column, row, columns, rows }
}

} // verus!
