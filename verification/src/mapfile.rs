//! The city map file: comma-separated numeric tile codes, one map row per
//! line, with the bottom row of the city on the last line.
//!
//! A field parses as a tile code exactly when it is a decimal integer
//! literal — an optional sign followed by one or more digits whose value
//! fits a 32-bit signed integer. Fields that do not parse are skipped.

use crate::tilemap::TileType;
use vstd::prelude::*;

verus! {

/// `b` is an ASCII decimal digit.
pub open spec fn is_ascii_digit(b: u8) -> bool {
    48 <= b <= 57
}

/// Every byte of `s` is a digit.
pub open spec fn all_digits(s: Seq<u8>) -> bool {
    forall|i: int| 0 <= i < s.len() ==> is_ascii_digit(#[trigger] s[i])
}

/// The value of a digit string read in base ten.
pub open spec fn digits_value(s: Seq<u8>) -> int
    decreases s.len(),
{
    if s.len() == 0 {
        0
    } else {
        digits_value(s.drop_last()) * 10 + (s.last() - 48)
    }
}

/// The value of a digit string under a sign, when the digits are well formed
/// and the signed value fits a 32-bit integer.
pub open spec fn signed_field_value(sign: int, ds: Seq<u8>) -> Option<i32> {
    if ds.len() > 0 && all_digits(ds) && i32::MIN <= sign * digits_value(ds) <= i32::MAX {
        Some((sign * digits_value(ds)) as i32)
    } else {
        None
    }
}

/// What a map field parses to: the value of an optionally signed decimal
/// integer literal that fits 32 bits, `None` for anything else.
pub open spec fn int_field_value(s: Seq<u8>) -> Option<i32> {
    if s.len() > 0 && s[0] == 45 {
        signed_field_value(-1, s.skip(1))
    } else if s.len() > 0 && s[0] == 43 {
        signed_field_value(1, s.skip(1))
    } else {
        signed_field_value(1, s)
    }
}

proof fn lemma_digits_value_nonneg(s: Seq<u8>)
    requires
        all_digits(s),
    ensures
        digits_value(s) >= 0,
    decreases s.len(),
{
    if s.len() > 0 {
        assert(all_digits(s.drop_last()));
        lemma_digits_value_nonneg(s.drop_last());
    }
}

/// Appending digits never shrinks the value of a digit string.
proof fn lemma_digits_value_prefix(s: Seq<u8>, n: int)
    requires
        all_digits(s),
        0 <= n <= s.len(),
    ensures
        digits_value(s) >= digits_value(s.subrange(0, n)),
    decreases s.len() - n,
{
    if n < s.len() {
        lemma_digits_value_prefix(s, n + 1);
        let shorter = s.subrange(0, n);
        let longer = s.subrange(0, n + 1);
        assert(longer.drop_last() =~= shorter);
        assert(all_digits(shorter));
        lemma_digits_value_nonneg(shorter);
        assert(digits_value(longer) == digits_value(shorter) * 10 + (longer.last() - 48));
    } else {
        assert(s.subrange(0, n) =~= s);
    }
}

/// Parses one map field as the map format reads it: an optional sign, then
/// one or more decimal digits, the whole value fitting a 32-bit signed
/// integer. Anything else gives `None`.
pub fn parse_int_field(s: &[u8]) -> (r: Option<i32>)
    ensures
        r == int_field_value(s@),
{
    let n = s.len();
    let mut start: usize = 0;
    let mut negative = false;
    if n > 0 && (s[0] == 43 || s[0] == 45) {
        negative = s[0] == 45;
        start = 1;
    }
    let ghost ds = s@.skip(start as int);
    let ghost sign: int = if negative {
        -1
    } else {
        1
    };
    proof {
        if start == 0 {
            assert(ds =~= s@);
        }
        assert(int_field_value(s@) == signed_field_value(sign, ds));
    }
    if start >= n {
        return None;
    }
    let mut acc: u64 = 0;
    let mut i = start;
    while i < n
        invariant
            start <= i <= n,
            n == s@.len(),
            start < n,
            ds == s@.skip(start as int),
            sign == if negative {
                -1int
            } else {
                1int
            },
            int_field_value(s@) == signed_field_value(sign, ds),
            all_digits(s@.subrange(start as int, i as int)),
            acc == digits_value(s@.subrange(start as int, i as int)),
            acc <= 0x8000_0000,
        decreases n - i,
    {
        let b = s[i];
        if b < 48 || b > 57 {
            proof {
                assert(ds[i - start] == b);
                assert(!all_digits(ds));
            }
            return None;
        }
        proof {
            let seen = s@.subrange(start as int, i as int);
            let more = s@.subrange(start as int, i + 1);
            assert(more.drop_last() =~= seen);
            assert(more.last() == b);
            assert(digits_value(more) == digits_value(seen) * 10 + (b - 48));
            assert forall|k: int| 0 <= k < more.len() implies is_ascii_digit(#[trigger] more[k]) by {
                if k < seen.len() {
                    assert(more[k] == seen[k]);
                    assert(is_ascii_digit(seen[k]));
                } else {
                    assert(more[k] == b);
                }
            }
        }
        acc = acc * 10 + (b - 48) as u64;
        i += 1;
        if acc > 0x8000_0000 {
            proof {
                if all_digits(ds) {
                    assert(s@.subrange(start as int, i as int) =~= ds.subrange(0, i - start));
                    lemma_digits_value_prefix(ds, i - start);
                    assert(digits_value(ds) > 0x8000_0000);
                }
                assert(signed_field_value(sign, ds) is None);
            }
            return None;
        }
    }
    proof {
        assert(s@.subrange(start as int, n as int) =~= ds);
        assert(all_digits(ds));
        assert(acc == digits_value(ds));
        assert(ds.len() > 0);
    }
    if negative {
        let v: i64 = -(acc as i64);
        proof {
            assert(sign * digits_value(ds) == v);
            assert(i32::MIN <= v <= i32::MAX);
        }
        Some(v as i32)
    } else {
        if acc == 0x8000_0000 {
            proof {
                assert(sign * digits_value(ds) > i32::MAX);
                assert(signed_field_value(sign, ds) is None);
            }
            return None;
        }
        proof {
            assert(sign * digits_value(ds) == acc);
        }
        Some(acc as i32)
    }
}

/// The least index of `sep` in `s`, if any.
pub open spec fn find_byte(s: Seq<u8>, sep: u8) -> Option<int>
    decreases s.len(),
{
    if s.len() == 0 {
        None
    } else if s[0] == sep {
        Some(0)
    } else {
        match find_byte(s.skip(1), sep) {
            Some(i) => Some(i + 1),
            None => None,
        }
    }
}

/// The pieces of `s` between occurrences of `sep`: always one more piece
/// than there are separators, so an empty input gives one empty piece.
pub open spec fn split_on(s: Seq<u8>, sep: u8) -> Seq<Seq<u8>>
    decreases s.len(),
        via split_on_decreases
{
    match find_byte(s, sep) {
        None => seq![s],
        Some(i) => seq![s.subrange(0, i)] + split_on(s.skip(i + 1), sep),
    }
}

#[via_fn]
proof fn split_on_decreases(s: Seq<u8>, sep: u8) {
    lemma_find_byte_spec(s, sep);
}

proof fn lemma_find_byte_spec(s: Seq<u8>, sep: u8)
    ensures
        match find_byte(s, sep) {
            Some(i) => 0 <= i < s.len() && s[i] == sep && forall|k: int|
                0 <= k < i ==> s[k] != sep,
            None => forall|k: int| 0 <= k < s.len() ==> s[k] != sep,
        },
    decreases s.len(),
{
    if s.len() > 0 && s[0] != sep {
        lemma_find_byte_spec(s.skip(1), sep);
        match find_byte(s.skip(1), sep) {
            Some(i) => {
                assert(s.skip(1)[i] == s[i + 1]);
                assert forall|k: int| 0 <= k < i + 1 implies s[k] != sep by {
                    if k > 0 {
                        assert(s.skip(1)[k - 1] == s[k]);
                    }
                }
            },
            None => {
                assert forall|k: int| 0 <= k < s.len() implies s[k] != sep by {
                    if k > 0 {
                        assert(s.skip(1)[k - 1] == s[k]);
                    }
                }
            },
        }
    }
}

/// Splits `s` at every occurrence of `sep`, as the map format splits a line
/// into fields.
pub fn split_bytes(s: &[u8], sep: u8) -> (r: Vec<Vec<u8>>)
    ensures
        r.deep_view() == split_on(s@, sep),
{
    let n = s.len();
    let mut r: Vec<Vec<u8>> = Vec::new();
    let mut pos: usize = 0;
    proof {
        assert(s@.skip(0) =~= s@);
        assert(r.deep_view() + split_on(s@, sep) =~~= split_on(s@, sep));
    }
    loop
        invariant
            pos <= n,
            n == s@.len(),
            split_on(s@, sep) == r.deep_view() + split_on(s@.skip(pos as int), sep),
        decreases n - pos,
    {
        let ghost rest = s@.skip(pos as int);
        let ghost r_before = r.deep_view();
        let mut j: usize = pos;
        while j < n && s[j] != sep
            invariant
                pos <= j <= n,
                n == s@.len(),
                forall|k: int| pos <= k < j ==> s@[k] != sep,
            decreases n - j,
        {
            j += 1;
        }
        let piece = vstd::slice::slice_to_vec(vstd::slice::slice_subrange(s, pos, j));
        r.push(piece);
        proof {
            lemma_find_byte_spec(rest, sep);
            assert(r.deep_view() =~~= r_before + seq![piece@]);
        }
        if j == n {
            proof {
                if find_byte(rest, sep) is Some {
                    let i = find_byte(rest, sep)->0;
                    assert(s@[pos + i] == rest[i]);
                    assert(false);
                }
                assert(piece@ =~= rest);
                assert(split_on(rest, sep) == seq![rest]);
                assert(r.deep_view() =~~= split_on(s@, sep));
            }
            return r;
        }
        proof {
            assert(rest[j - pos] == s@[j as int]);
            let i = match find_byte(rest, sep) {
                Some(i) => i,
                None => 0,
            };
            assert(find_byte(rest, sep) is Some);
            if i < j - pos {
                assert(s@[pos + i] == rest[i]);
                assert(false);
            }
            if i > j - pos {
                assert(false);
            }
            assert(i == j - pos);
            assert(split_on(rest, sep) == seq![rest.subrange(0, i)] + split_on(
                rest.skip(i + 1),
                sep,
            ));
            assert(piece@ =~= rest.subrange(0, i));
            assert(rest.skip(i + 1) =~= s@.skip(j + 1));
            assert(split_on(s@, sep) =~~= r.deep_view() + split_on(s@.skip(j + 1), sep));
        }
        pos = j + 1;
    }
}

/// A line with one trailing carriage return dropped, as the map format
/// reads lines.
pub open spec fn strip_cr(line: Seq<u8>) -> Seq<u8> {
    if line.len() > 0 && line.last() == 13 {
        line.drop_last()
    } else {
        line
    }
}

/// The lines of `s`: pieces between newline bytes, each with one trailing
/// carriage return dropped, and no final empty piece when `s` ends with a
/// newline. An empty input has no lines.
pub open spec fn lines_of(s: Seq<u8>) -> Seq<Seq<u8>> {
    if s.len() == 0 {
        Seq::empty()
    } else if s.last() == 10 {
        split_on(s.drop_last(), 10).map_values(|l: Seq<u8>| strip_cr(l))
    } else {
        split_on(s, 10).map_values(|l: Seq<u8>| strip_cr(l))
    }
}

/// Splits `s` into its lines.
pub fn split_lines(s: &[u8]) -> (r: Vec<Vec<u8>>)
    ensures
        r.deep_view() == lines_of(s@),
{
    let n = s.len();
    if n == 0 {
        let r: Vec<Vec<u8>> = Vec::new();
        proof {
            assert(r.deep_view() =~~= lines_of(s@));
        }
        return r;
    }
    let body: &[u8] = if s[n - 1] == 10 {
        vstd::slice::slice_subrange(s, 0, n - 1)
    } else {
        vstd::slice::slice_subrange(s, 0, n)
    };
    proof {
        if s@.last() == 10 {
            assert(body@ =~= s@.drop_last());
        } else {
            assert(body@ =~= s@);
        }
    }
    let ghost pieces = split_on(body@, 10);
    let raw = split_bytes(body, 10);
    let mut out: Vec<Vec<u8>> = Vec::new();
    let mut k: usize = 0;
    while k < raw.len()
        invariant
            k <= raw@.len(),
            out@.len() == k,
            raw.deep_view() == pieces,
            pieces.len() == raw@.len(),
            forall|t: int| 0 <= t < k ==> #[trigger] out@[t]@ == strip_cr(pieces[t]),
        decreases raw@.len() - k,
    {
        proof {
            assert(raw@[k as int].deep_view() =~= raw@[k as int]@);
            assert(raw@[k as int]@ == pieces[k as int]);
        }
        let piece: &Vec<u8> = &raw[k];
        let plen = piece.len();
        let stripped: Vec<u8> = if plen > 0 && *piece.get(plen - 1).unwrap() == 13 {
            vstd::slice::slice_to_vec(vstd::slice::slice_subrange(piece.as_slice(), 0, plen - 1))
        } else {
            vstd::slice::slice_to_vec(piece.as_slice())
        };
        proof {
            assert(stripped@ =~= strip_cr(pieces[k as int]));
        }
        out.push(stripped);
        k += 1;
    }
    proof {
        assert(out.deep_view() =~~= lines_of(s@));
    }
    out
}

/// The tiles of one line: each comma-separated field that parses as an
/// integer, in order, read as its tile kind.
pub open spec fn row_tiles(fields: Seq<Seq<u8>>) -> Seq<TileType>
    decreases fields.len(),
{
    if fields.len() == 0 {
        Seq::empty()
    } else {
        let rest = row_tiles(fields.skip(1));
        match int_field_value(fields[0]) {
            Some(v) => match TileType::spec_from_code(v) {
                Some(t) => seq![t] + rest,
                None => rest,
            },
            None => rest,
        }
    }
}

/// Every field of the line that parses as an integer is a known tile code.
/// The map format has no meaning for other numbers.
pub open spec fn fields_supported(fields: Seq<Seq<u8>>) -> bool {
    forall|i: int|
        0 <= i < fields.len() ==> match int_field_value(#[trigger] fields[i]) {
            Some(v) => TileType::spec_from_code(v) is Some,
            None => true,
        }
}

/// Reads one map line: splits it at commas and keeps, in order, the tile
/// kind of every field that parses as an integer.
pub fn parse_row(line: &[u8]) -> (row: Vec<TileType>)
    requires
        fields_supported(split_on(line@, 44)),
    ensures
        row@ == row_tiles(split_on(line@, 44)),
{
    let fields = split_bytes(line, 44);
    let ghost all = fields.deep_view();
    let mut row: Vec<TileType> = Vec::new();
    let mut k: usize = 0;
    proof {
        assert(all.skip(0) =~= all);
    }
    while k < fields.len()
        invariant
            k <= fields@.len(),
            all == fields.deep_view(),
            all == split_on(line@, 44),
            fields_supported(all),
            all.len() == fields@.len(),
            row_tiles(all) == row@ + row_tiles(all.skip(k as int)),
        decreases fields@.len() - k,
    {
        let ghost rest = all.skip(k as int);
        proof {
            assert(rest[0] == all[k as int]);
            assert(rest.skip(1) =~= all.skip(k + 1));
            assert(fields@[k as int].deep_view() =~= fields@[k as int]@);
            assert(fields@[k as int]@ == all[k as int]);
        }
        let ghost row_before = row@;
        match parse_int_field(fields[k].as_slice()) {
            Some(v) => {
                match TileType::try_from_code(v) {
                    Some(t) => {
                        row.push(t);
                        proof {
                            assert(row_tiles(rest) == seq![t] + row_tiles(rest.skip(1)));
                            assert(row_before + (seq![t] + row_tiles(all.skip(k + 1))) =~= row@
                                + row_tiles(all.skip(k + 1)));
                        }
                    },
                    None => {
                        proof {
                            assert(false);
                        }
                    },
                }
            },
            None => {
                proof {
                    assert(row_tiles(rest) == row_tiles(rest.skip(1)));
                }
            },
        }
        k += 1;
    }
    proof {
        assert(all.skip(all.len() as int) =~= Seq::<Seq<u8>>::empty());
        assert(row@ + row_tiles(all.skip(all.len() as int)) =~= row@);
    }
    row
}

/// The whole map: one row of tiles per line, read bottom line first, so row
/// 0 of the result is the lowest row of the city.
pub open spec fn map_tiles(s: Seq<u8>) -> Seq<Seq<TileType>> {
    lines_of(s).reverse().map_values(|l: Seq<u8>| row_tiles(split_on(l, 44)))
}

/// Every line of the map only names known tile codes.
pub open spec fn map_supported(s: Seq<u8>) -> bool {
    forall|i: int|
        0 <= i < lines_of(s).len() ==> fields_supported(
            split_on(#[trigger] lines_of(s)[i], 44),
        )
}

/// Reads a whole map file: the lines in reverse order, each parsed as a row
/// of tiles.
pub fn load_map(src: &[u8]) -> (map: Vec<Vec<TileType>>)
    requires
        map_supported(src@),
    ensures
        map.deep_view() == map_tiles(src@),
{
    let ghost ls = lines_of(src@);
    let lines = split_lines(src);
    let mut map: Vec<Vec<TileType>> = Vec::new();
    let mut k: usize = lines.len();
    while k > 0
        invariant
            k <= lines@.len(),
            ls == lines_of(src@),
            lines.deep_view() == ls,
            ls.len() == lines@.len(),
            map_supported(src@),
            map@.len() == ls.len() - k,
            forall|t: int|
                0 <= t < map@.len() ==> #[trigger] map@[t]@ == row_tiles(
                    split_on(ls[ls.len() - 1 - t], 44),
                ),
        decreases k,
    {
        k -= 1;
        proof {
            assert(lines@[k as int].deep_view() =~= lines@[k as int]@);
            assert(lines@[k as int]@ == ls[k as int]);
            assert(fields_supported(split_on(lines_of(src@)[k as int], 44)));
        }
        let row = parse_row(lines[k].as_slice());
        map.push(row);
    }
    proof {
        assert(map.deep_view() =~~= map_tiles(src@));
    }
    map
}

/// The pieces put back together with the separator between them.
pub open spec fn join_with(pieces: Seq<Seq<u8>>, sep: u8) -> Seq<u8>
    decreases pieces.len(),
{
    if pieces.len() == 0 {
        Seq::empty()
    } else if pieces.len() == 1 {
        pieces[0]
    } else {
        pieces[0] + seq![sep] + join_with(pieces.skip(1), sep)
    }
}

/// Splitting loses nothing: joining the pieces of `split_on` with the
/// separator gives the input back.
pub proof fn lemma_split_on_round_trip(s: Seq<u8>, sep: u8)
    ensures
        join_with(split_on(s, sep), sep) == s,
    decreases s.len(),
{
    lemma_find_byte_spec(s, sep);
    match find_byte(s, sep) {
        None => {
            assert(join_with(seq![s], sep) == s);
        },
        Some(i) => {
            lemma_split_on_round_trip(s.skip(i + 1), sep);
            let rest = split_on(s.skip(i + 1), sep);
            assert(rest.len() >= 1);
            let pieces = seq![s.subrange(0, i)] + rest;
            assert(split_on(s, sep) == pieces);
            assert(pieces.len() >= 2);
            assert(pieces[0] == s.subrange(0, i));
            assert(pieces.skip(1) =~= rest);
            assert(join_with(pieces, sep) == s.subrange(0, i) + seq![sep] + s.skip(i + 1));
            assert(s.subrange(0, i) + seq![sep] + s.skip(i + 1) =~= s);
        },
    }
}

/// No piece of `split_on` contains the separator: together with the round
/// trip this pins `split_on` down as the splitting at that byte.
pub proof fn lemma_split_on_pieces_have_no_separator(s: Seq<u8>, sep: u8)
    ensures
        forall|p: int, k: int|
            0 <= p < split_on(s, sep).len() && 0 <= k < split_on(s, sep)[p].len()
                ==> #[trigger] split_on(s, sep)[p][k] != sep,
    decreases s.len(),
{
    lemma_find_byte_spec(s, sep);
    match find_byte(s, sep) {
        None => {
            assert forall|p: int, k: int|
                0 <= p < split_on(s, sep).len() && 0 <= k < split_on(s, sep)[p].len()
                    implies #[trigger] split_on(s, sep)[p][k] != sep by {
                assert(split_on(s, sep)[p] == s);
            }
        },
        Some(i) => {
            lemma_split_on_pieces_have_no_separator(s.skip(i + 1), sep);
            let rest = split_on(s.skip(i + 1), sep);
            assert forall|p: int, k: int|
                0 <= p < split_on(s, sep).len() && 0 <= k < split_on(s, sep)[p].len()
                    implies #[trigger] split_on(s, sep)[p][k] != sep by {
                if p == 0 {
                    assert(split_on(s, sep)[0] == s.subrange(0, i));
                    assert(s.subrange(0, i)[k] == s[k]);
                } else {
                    assert(split_on(s, sep)[p] == rest[p - 1]);
                    assert(rest[p - 1][k] != sep);
                }
            }
        },
    }
}

} // verus!
