//! Utils module.

use vstd::prelude::*;
use vstd::utf8::{decode_utf8, valid_utf8};

verus! {

/// The text that `bytes` read as, with the replacement character in place
/// of each stretch that is no UTF-8.
pub uninterp spec fn lossy_text(bytes: Seq<u8>) -> Seq<char>;

/// `String::from_utf8_lossy` of std reads the bytes as UTF-8 and puts the
/// replacement character where they are none; bytes that are UTF-8 all
/// through read as the text they encode.
#[verifier::external_body]
fn decode_lossy(bytes: &[u8]) -> (text: String)
    ensures
        text@ == lossy_text(bytes@),
        valid_utf8(bytes@) ==> text@ == decode_utf8(bytes@),
{
    String::from_utf8_lossy(bytes).into_owned()
}

/// Convert bytes to string.
pub fn bytes_to_string(bytes: &[u8]) -> (text: String)
    ensures
        text@ == lossy_text(bytes@),
        valid_utf8(bytes@) ==> text@ == decode_utf8(bytes@),
{
    decode_lossy(bytes)
}

/// `buttons` cut into stretches of `size`, the last one as long as what is
/// left.
pub open spec fn chunks<T>(buttons: Seq<T>, size: int) -> Seq<Seq<T>>
    decreases buttons.len(),
{
    if buttons.len() == 0 {
        Seq::empty()
    } else if size <= 0 || buttons.len() <= size {
        seq![buttons]
    } else {
        seq![buttons.take(size)] + chunks(buttons.skip(size), size)
    }
}

/// The columns that `buttons` are split into, `per_column` to each: no
/// column where there is no button; with `per_column` at zero, an empty
/// column and one that holds every button.
pub open spec fn columns<T>(buttons: Seq<T>, per_column: int) -> Seq<Seq<T>> {
    if buttons.len() == 0 {
        Seq::empty()
    } else if per_column == 0 {
        seq![Seq::empty(), buttons]
    } else {
        chunks(buttons, per_column)
    }
}

/// What each of a list of columns holds.
pub open spec fn held<T>(list: Seq<Vec<T>>) -> Seq<Seq<T>> {
    Seq::new(list.len(), |i: int| list[i]@)
}

/// Splits a vector of buttons into columns with a specified number of
/// buttons per column.
pub fn split_btns_into_columns<T>(buttons: Vec<T>, per_column: usize) -> (out: Vec<Vec<T>>)
    ensures
        held(out@) == columns(buttons@, per_column as int),
{
    let mut out: Vec<Vec<T>> = Vec::new();
    if buttons.len() == 0 {
        assert(held(out@) =~= columns(buttons@, per_column as int));
        return out;
    }
    if per_column == 0 {
        out.push(Vec::new());
        out.push(buttons);
        assert(held(out@) =~= columns(buttons@, per_column as int));
        return out;
    }
    let mut rest = buttons;
    assert(held(out@) + chunks(rest@, per_column as int) =~= chunks(buttons@, per_column as int));
    while rest.len() > per_column
        invariant
            per_column > 0,
            rest.len() > 0,
            held(out@) + chunks(rest@, per_column as int) == chunks(buttons@, per_column as int),
        decreases rest.len(),
    {
        let ghost before = held(out@);
        let ghost whole = rest@;
        let later = rest.split_off(per_column);
        out.push(rest);
        rest = later;
        proof {
            assert(whole.subrange(0, per_column as int) =~= whole.take(per_column as int));
            assert(whole.subrange(per_column as int, whole.len() as int) =~= whole.skip(per_column as int));
            assert(held(out@) =~= before + seq![whole.take(per_column as int)]);
            assert(held(out@) + chunks(rest@, per_column as int) =~= before + chunks(whole, per_column as int));
        }
    }
    let ghost before = held(out@);
    let ghost last = rest@;
    out.push(rest);
    assert(held(out@) =~= before + chunks(last, per_column as int));
    out
}

/// The distance between two numbers.
pub open spec fn distance(a: int, b: int) -> int {
    if a >= b {
        a - b
    } else {
        b - a
    }
}

/// Splits a vector of buttons into rows: into columns of as many buttons as
/// the number of buttons and `row_count` lie apart.
pub fn split_btns_into_rows<T>(buttons: Vec<T>, row_count: usize) -> (out: Vec<Vec<T>>)
    ensures
        held(out@) == columns(buttons@, distance(buttons@.len() as int, row_count as int)),
{
    let count = buttons.len();
    let per_column = if count >= row_count {
        count - row_count
    } else {
        row_count - count
    };
    split_btns_into_columns(buttons, per_column)
}

} // verus!
