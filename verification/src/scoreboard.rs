//! `DeathmatchScoreboardMessage`, the answer to a `score` command:
//! `b <rows> <axis> <allies>` and then ` <client> <score> <ping> <deaths>
//! <icon>` for each online client. The score and deaths come from the
//! script's client fields, the icon is the 1-based index of the client's
//! `.statusicon` among the precached status icons, and the ping is 0.

use vstd::prelude::*;
use crate::search::{first_index, lemma_first_index};
use crate::text::{parse_i64, parse_i64_of, push_char, str_eq};

verus! {

/// The ASCII digit for `d` in `0..10`.
pub open spec fn digit_char(d: int) -> char {
    (48 + d) as char
}

/// The decimal digits of `n`, most significant first, no leading zeros.
pub open spec fn digits_of(n: nat) -> Seq<char>
    decreases n,
{
    if n < 10 {
        seq![digit_char(n as int)]
    } else {
        digits_of(n / 10).push(digit_char((n % 10) as int))
    }
}

/// `n` as `format!("{n}")` writes an integer.
pub open spec fn decimal_of(n: int) -> Seq<char> {
    if n < 0 {
        seq!['-'] + digits_of((-n) as nat)
    } else {
        digits_of(n as nat)
    }
}

/// The decimal digits of `n` appended to `s`.
pub fn push_digits(s: &mut String, n: u64)
    ensures
        final(s)@ == old(s)@ + digits_of(n as nat),
    decreases n,
{
    if n >= 10 {
        push_digits(s, n / 10);
    }
    let d = (n % 10) as u8;
    push_char(s, (d + 48) as char);
    proof {
        if n >= 10 {
            assert(digits_of(n as nat) == digits_of((n / 10) as nat).push(digit_char((n % 10) as int)));
        }
    }
    assert(final(s)@ =~= old(s)@ + digits_of(n as nat));
}

/// `format!("{n}")` appended to `s`.
pub fn push_decimal(s: &mut String, n: i64)
    ensures
        final(s)@ == old(s)@ + decimal_of(n as int),
{
    if n < 0 {
        push_char(s, '-');
        let m: u64 = (0i128 - n as i128) as u64;
        push_digits(s, m);
        assert(final(s)@ =~= old(s)@ + decimal_of(n as int));
    } else {
        push_digits(s, n as u64);
    }
}

/// One online client's row.
#[derive(Clone, Copy, Debug, PartialEq, Eq, Structural)]
pub struct ScoreRow {
    pub slot: usize,
    pub score: i64,
    pub deaths: i64,
    /// The status icon's 1-based index, 0 for none.
    pub icon: usize,
}

/// ` <client> <score> 0 <deaths> <icon>`.
pub open spec fn row_text(r: ScoreRow) -> Seq<char> {
    seq![' '] + decimal_of(r.slot as int) + seq![' '] + decimal_of(r.score as int) + seq![
        ' ',
        '0',
        ' ',
    ] + decimal_of(r.deaths as int) + seq![' '] + decimal_of(r.icon as int)
}

/// The rows, in order.
pub open spec fn rows_text(rows: Seq<ScoreRow>) -> Seq<char>
    decreases rows.len(),
{
    if rows.len() == 0 {
        Seq::empty()
    } else {
        rows_text(rows.drop_last()) + row_text(rows.last())
    }
}

/// The scoreboard text: the row count, the two team scores axis first,
/// then the rows.
pub open spec fn scoreboard_of(axis: i64, allies: i64, rows: Seq<ScoreRow>) -> Seq<char> {
    seq!['b', ' '] + decimal_of(rows.len() as int) + seq![' '] + decimal_of(axis as int) + seq![
        ' ',
    ] + decimal_of(allies as int) + rows_text(rows)
}

/// `DeathmatchScoreboardMessage`'s text.
pub fn scoreboard_text(axis: i64, allies: i64, rows: &Vec<ScoreRow>) -> (r: String)
    ensures
        r@ == scoreboard_of(axis, allies, rows@),
{
    let mut out = String::new();
    push_char(&mut out, 'b');
    push_char(&mut out, ' ');
    push_digits(&mut out, rows.len() as u64);
    push_char(&mut out, ' ');
    push_decimal(&mut out, axis);
    push_char(&mut out, ' ');
    push_decimal(&mut out, allies);
    let ghost head = out@;
    assert(head =~= seq!['b', ' '] + decimal_of(rows@.len() as int) + seq![' '] + decimal_of(
        axis as int,
    ) + seq![' '] + decimal_of(allies as int));
    let mut i: usize = 0;
    assert(rows@.take(0) =~= Seq::<ScoreRow>::empty());
    while i < rows.len()
        invariant
            i <= rows@.len(),
            out@ == head + rows_text(rows@.take(i as int)),
        decreases rows@.len() - i,
    {
        let row = rows[i];
        let ghost before = out@;
        push_char(&mut out, ' ');
        push_digits(&mut out, row.slot as u64);
        push_char(&mut out, ' ');
        push_decimal(&mut out, row.score);
        push_char(&mut out, ' ');
        push_char(&mut out, '0');
        push_char(&mut out, ' ');
        push_decimal(&mut out, row.deaths);
        push_char(&mut out, ' ');
        push_digits(&mut out, row.icon as u64);
        proof {
            assert(rows@.take(i + 1).drop_last() =~= rows@.take(i as int));
            assert(out@ =~= before + row_text(row));
            assert(out@ =~= head + rows_text(rows@.take(i + 1)));
        }
        i = i + 1;
    }
    assert(rows@.take(i as int) =~= rows@);
    out
}

/// A client field as the scoreboard reads it: the text parsed as an
/// integer, 0 when the field is missing or not a number.
pub open spec fn field_number_of(text: Option<Seq<char>>) -> i64 {
    match text {
        Some(t) => match parse_i64_of(t) {
            Some(v) => v,
            None => 0,
        },
        None => 0,
    }
}

/// The score or deaths of a row, from the script's client field.
pub fn field_number(text: Option<&str>) -> (r: i64)
    ensures
        r == field_number_of(
            match text {
                Some(t) => Some(t@),
                None => None,
            },
        ),
{
    match text {
        Some(t) => match parse_i64(t) {
            Some(v) => v,
            None => 0,
        },
        None => 0,
    }
}

/// Which of the precached status icons are named `name`.
pub open spec fn icon_pred(icons: Seq<Seq<char>>, name: Seq<char>) -> spec_fn(int) -> bool {
    |k: int| icons[k] == name
}

/// A client's `.statusicon` as the row's icon: the 1-based position of the
/// first precached status icon with that name, 0 when the field is missing
/// or empty or names an icon nothing precached.
pub open spec fn icon_index_of(icons: Seq<Seq<char>>, name: Option<Seq<char>>) -> int {
    match name {
        Some(n) => if n.len() == 0 {
            0
        } else {
            match first_index(icons.len() as int, icon_pred(icons, n), 0) {
                Some(k) => k + 1,
                None => 0,
            }
        },
        None => 0,
    }
}

/// The views of the status icon configstrings.
pub open spec fn icon_views(icons: Seq<String>) -> Seq<Seq<char>> {
    Seq::new(icons.len(), |k: int| icons[k]@)
}

/// `status_icon_index`: the row's icon from the client's `.statusicon`
/// and the status icon configstrings.
pub fn status_icon_index(icons: &Vec<String>, name: Option<&str>) -> (r: usize)
    ensures
        r == icon_index_of(
            icon_views(icons@),
            match name {
                Some(n) => Some(n@),
                None => None,
            },
        ),
{
    let n = match name {
        Some(n) => n,
        None => {
            return 0;
        },
    };
    if n.unicode_len() == 0 {
        return 0;
    }
    let ghost v = icon_views(icons@);
    let ghost p = icon_pred(v, n@);
    let mut k: usize = 0;
    while k < icons.len()
        invariant
            k <= icons@.len(),
            n@.len() != 0,
            name == Some(n),
            v == icon_views(icons@),
            p == icon_pred(v, n@),
            forall|j: int| 0 <= j < k ==> !#[trigger] p(j),
        decreases icons@.len() - k,
    {
        if str_eq(icons[k].as_str(), n) {
            proof {
                    assert(p(k as int));
                lemma_first_index(v.len() as int, p, 0);
            }
            return k + 1;
        }
        k = k + 1;
    }
    proof {
        lemma_first_index(v.len() as int, p, 0);
    }
    0
}

} // verus!
