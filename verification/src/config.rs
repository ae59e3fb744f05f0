//! Configuration parsing: comma-separated lists and decimal user ids.
//!
//! The surrounding binary reads the environment and hands the raw strings to
//! these functions; everything decided about their contents is decided here.

use vstd::prelude::*;

use crate::text::str_eq;

verus! {

/// A boolean configuration flag: set exactly when the configured value is
/// `"true"`.
pub fn parse_flag(value: &str) -> (r: bool)
    ensures
        r == (value@ == "true"@),
{
    str_eq(value, "true")
}

/// The pieces joined back with single commas between them.
pub open spec fn joined_csv(pieces: Seq<Seq<char>>) -> Seq<char>
    decreases pieces.len(),
{
    if pieces.len() == 0 {
        Seq::empty()
    } else if pieces.len() == 1 {
        pieces[0]
    } else {
        joined_csv(pieces.drop_last()) + seq![','] + pieces.last()
    }
}

/// Splits a comma-separated value into its pieces: the unique decomposition
/// into comma-free pieces that `joined_csv` maps back to the input. An empty
/// input yields one empty piece.
pub fn split_csv(s: &str) -> (r: Vec<String>)
    ensures
        r@.len() >= 1,
        joined_csv(r.deep_view()) == s@,
        forall|i: int| 0 <= i < r@.len() ==> !(#[trigger] r.deep_view()[i]).contains(','),
{
    let n = s.unicode_len();
    let mut out: Vec<String> = Vec::new();
    let mut start: usize = 0;
    let mut i: usize = 0;
    while i < n
        invariant
            0 <= start <= i <= n,
            n == s@.len(),
            out@.len() == 0 ==> start == 0,
            out@.len() > 0 ==> joined_csv(out.deep_view()) + seq![','] == s@.take(start as int),
            forall|j: int| 0 <= j < out@.len() ==> !(#[trigger] out.deep_view()[j]).contains(','),
            forall|j: int| start <= j < i ==> s@[j] != ',',
        decreases n - i,
    {
        let c = s.get_char(i);
        if c == ',' {
            let piece = s.substring_char(start, i).to_owned();
            let ghost before = out.deep_view();
            proof {
                assert(!piece@.contains(',')) by {
                    assert forall|j: int| 0 <= j < piece@.len() implies piece@[j] != ',' by {
                        assert(piece@[j] == s@[start + j]);
                    }
                }
            }
            out.push(piece);
            proof {
                assert(out.deep_view() =~= before.push(piece@));
                assert(out.deep_view().drop_last() =~= before);
                if before.len() == 0 {
                    assert(joined_csv(out.deep_view()) == piece@);
                    assert(piece@ =~= s@.take(i as int));
                } else {
                    assert(joined_csv(out.deep_view()) == joined_csv(before) + seq![','] + piece@);
                    assert(joined_csv(before) + seq![','] + piece@ =~= s@.take(i as int));
                }
                assert(joined_csv(out.deep_view()) + seq![','] =~= s@.take(i + 1));
            }
            i = i + 1;
            start = i;
        } else {
            i = i + 1;
        }
    }
    let piece = s.substring_char(start, n).to_owned();
    let ghost before = out.deep_view();
    proof {
        assert(!piece@.contains(',')) by {
            assert forall|j: int| 0 <= j < piece@.len() implies piece@[j] != ',' by {
                assert(piece@[j] == s@[start + j]);
            }
        }
    }
    out.push(piece);
    proof {
        assert(out.deep_view() =~= before.push(piece@));
        assert(out.deep_view().drop_last() =~= before);
        if before.len() == 0 {
            assert(joined_csv(out.deep_view()) == piece@);
            assert(piece@ =~= s@);
        } else {
            assert(joined_csv(out.deep_view()) == joined_csv(before) + seq![','] + piece@);
            assert(s@.take(n as int) =~= s@);
            assert(joined_csv(before) + seq![','] + piece@ =~= s@);
        }
    }
    out
}

/// A decimal digit.
pub open spec fn is_dec_digit(c: char) -> bool {
    '0' <= c && c <= '9'
}

/// The value of one decimal digit.
pub open spec fn digit_value(c: char) -> nat {
    (c as int - '0' as int) as nat
}

/// The value of a digit string, most significant digit first.
pub open spec fn dec_value(s: Seq<char>) -> nat
    decreases s.len(),
{
    if s.len() == 0 {
        0
    } else {
        dec_value(s.drop_last()) * 10 + digit_value(s.last())
    }
}

/// The decimal reading of a string: defined exactly when the string is
/// non-empty, all digits, and its value fits in a u64.
pub open spec fn parsed_u64(s: Seq<char>) -> Option<u64> {
    if s.len() > 0 && (forall|i: int| 0 <= i < s.len() ==> is_dec_digit(#[trigger] s[i]))
        && dec_value(s) <= u64::MAX {
        Option::Some(dec_value(s) as u64)
    } else {
        Option::None
    }
}

proof fn lemma_dec_value_take_le(s: Seq<char>, i: int)
    requires
        0 <= i <= s.len(),
    ensures
        dec_value(s.take(i)) <= dec_value(s),
    decreases s.len(),
{
    if i < s.len() {
        assert(s.drop_last().take(i) =~= s.take(i));
        lemma_dec_value_take_le(s.drop_last(), i);
        assert(dec_value(s.drop_last()) * 10 >= dec_value(s.drop_last())) by (nonlinear_arith);
    } else {
        assert(s.take(i) =~= s);
    }
}

/// Parses a decimal u64.
pub fn parse_u64(s: &str) -> (r: Option<u64>)
    ensures
        r == parsed_u64(s@),
{
    let n = s.unicode_len();
    if n == 0 {
        return Option::None;
    }
    let mut acc: u64 = 0;
    let mut i: usize = 0;
    while i < n
        invariant
            0 < n == s@.len(),
            i <= n,
            forall|j: int| 0 <= j < i ==> is_dec_digit(#[trigger] s@[j]),
            acc as nat == dec_value(s@.take(i as int)),
        decreases n - i,
    {
        let c = s.get_char(i);
        if c < '0' || c > '9' {
            return Option::None;
        }
        let d: u64 = (c as u32 - 48) as u64;
        proof {
            assert(d as nat == digit_value(s@[i as int]));
            assert(s@.take(i + 1).drop_last() =~= s@.take(i as int));
            assert(s@.take(i + 1).last() == s@[i as int]);
        }
        if acc > 1844674407370955161u64 || (acc == 1844674407370955161u64 && d > 5) {
            proof {
                assert(dec_value(s@.take(i + 1)) > u64::MAX);
                lemma_dec_value_take_le(s@, i + 1);
            }
            return Option::None;
        }
        acc = acc * 10 + d;
        i = i + 1;
    }
    proof {
        assert(s@.take(n as int) =~= s@);
    }
    Option::Some(acc)
}

/// Parses a list of decimal user ids; `None` as soon as any piece fails to
/// parse.
pub fn parse_ids(pieces: &Vec<String>) -> (r: Option<Vec<u64>>)
    ensures
        r is Some <==> (forall|i: int|
            0 <= i < pieces@.len() ==> parsed_u64(#[trigger] pieces@[i]@) is Some),
        r is Some ==> r->0@.len() == pieces@.len(),
        r is Some ==> forall|i: int|
            0 <= i < pieces@.len() ==> r->0@[i] == parsed_u64(#[trigger] pieces@[i]@)->0,
{
    let mut out: Vec<u64> = Vec::new();
    let mut k: usize = 0;
    while k < pieces.len()
        invariant
            k <= pieces@.len(),
            out@.len() == k,
            forall|i: int| 0 <= i < k ==> parsed_u64(#[trigger] pieces@[i]@) is Some,
            forall|i: int| 0 <= i < k ==> out@[i] == parsed_u64(#[trigger] pieces@[i]@)->0,
        decreases pieces@.len() - k,
    {
        match parse_u64(pieces[k].as_str()) {
            Option::Some(v) => {
                out.push(v);
            },
            Option::None => {
                return Option::None;
            },
        }
        k += 1;
    }
    Option::Some(out)
}

} // verus!
