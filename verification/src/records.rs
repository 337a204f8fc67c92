//! How a batch text falls apart into its newline-terminated records.

use crate::data::batch_text;
use crate::data::is_batch;
use crate::data::is_batch_of;
use crate::data::lines_of;
use crate::point::bool_text;
use crate::point::float_body;
use crate::point::line_text;
use crate::point::record_text;
use crate::point::PointView;
use crate::text::decimal_text;
use crate::text::lemma_decimal_text_digits;
use crate::text::signed_decimal_text;
use vstd::prelude::*;

verus! {

/// True when `s` holds no newline.
pub open spec fn no_newline(s: Seq<char>) -> bool {
    forall|i: int| 0 <= i < s.len() ==> #[trigger] s[i] != '\n'
}

/// The index of the first newline of `s`, or the length of `s` where it
/// holds none.
pub open spec fn first_newline(s: Seq<char>) -> nat
    decreases s.len(),
{
    if s.len() == 0 || s[0] == '\n' {
        0
    } else {
        1 + first_newline(s.drop_first())
    }
}

/// The newline-terminated records of `s` in order, each with the newline
/// that ends it. What stands behind the last newline is no record.
pub open spec fn records(s: Seq<char>) -> Seq<Seq<char>>
    decreases s.len(),
{
    let k = first_newline(s) as int;
    if k >= s.len() {
        Seq::empty()
    } else {
        seq![s.take(k + 1)] + records(s.skip(k + 1))
    }
}

/// Two texts without newline, one after the other, hold no newline.
proof fn lemma_no_newline_add(a: Seq<char>, b: Seq<char>)
    requires
        no_newline(a),
        no_newline(b),
    ensures
        no_newline(a + b),
{
}

/// The fixed pieces of a record hold no newline.
proof fn lemma_pieces_have_no_newline()
    ensures
        no_newline("table,tag="@),
        no_newline(" field_s=\""@),
        no_newline("\",field_i="@),
        no_newline("i,field_u="@),
        no_newline("u,field_f="@),
        no_newline(",field_b="@),
        no_newline(" "@),
        no_newline("true"@),
        no_newline("false"@),
{
    reveal_strlit("table,tag=");
    reveal_strlit(" field_s=\"");
    reveal_strlit("\",field_i=");
    reveal_strlit("i,field_u=");
    reveal_strlit("u,field_f=");
    reveal_strlit(",field_b=");
    reveal_strlit(" ");
    reveal_strlit("true");
    reveal_strlit("false");
}

/// The record of a valid point holds no newline.
pub proof fn lemma_record_has_no_newline(p: PointView)
    requires
        p.valid(),
    ensures
        no_newline(record_text(p)),
{
    lemma_pieces_have_no_newline();
    lemma_decimal_text_digits(p.field_u);
    lemma_decimal_text_digits(p.time);
    if p.field_i < 0 {
        lemma_decimal_text_digits((-p.field_i) as nat);
    } else {
        lemma_decimal_text_digits(p.field_i as nat);
    }
    assert(no_newline(signed_decimal_text(p.field_i)));
    assert(no_newline(p.field_s));
    assert(no_newline(p.field_f)) by {
        let body = float_body(p.field_f);
        assert forall|i: int| 0 <= i < p.field_f.len() implies #[trigger] p.field_f[i] != '\n' by {
            if body.len() == p.field_f.len() {
                assert(body[i] == p.field_f[i]);
            } else if i > 0 {
                assert(body[i - 1] == p.field_f[i]);
            }
        }
    }
    let s1 = "table,tag="@.push(p.tag);
    assert(no_newline(s1));
    let s2 = s1 + " field_s=\""@;
    lemma_no_newline_add(s1, " field_s=\""@);
    let s3 = s2 + p.field_s;
    lemma_no_newline_add(s2, p.field_s);
    let s4 = s3 + "\",field_i="@;
    lemma_no_newline_add(s3, "\",field_i="@);
    let s5 = s4 + signed_decimal_text(p.field_i);
    lemma_no_newline_add(s4, signed_decimal_text(p.field_i));
    let s6 = s5 + "i,field_u="@;
    lemma_no_newline_add(s5, "i,field_u="@);
    let s7 = s6 + decimal_text(p.field_u);
    lemma_no_newline_add(s6, decimal_text(p.field_u));
    let s8 = s7 + "u,field_f="@;
    lemma_no_newline_add(s7, "u,field_f="@);
    let s9 = s8 + p.field_f;
    lemma_no_newline_add(s8, p.field_f);
    let s10 = s9 + ",field_b="@;
    lemma_no_newline_add(s9, ",field_b="@);
    let s11 = s10 + bool_text(p.field_b);
    lemma_no_newline_add(s10, bool_text(p.field_b));
    let s12 = s11 + " "@;
    lemma_no_newline_add(s11, " "@);
    lemma_no_newline_add(s12, decimal_text(p.time));
}

/// Where a text without newline is followed by a newline, that newline is
/// the first of the whole text.
pub proof fn lemma_first_newline_after(body: Seq<char>, rest: Seq<char>)
    requires
        no_newline(body),
    ensures
        first_newline(body.push('\n') + rest) == body.len(),
    decreases body.len(),
{
    let s = body.push('\n') + rest;
    if body.len() == 0 {
        assert(s[0] == '\n');
    } else {
        assert(s[0] == body[0]);
        assert(s.drop_first() =~= body.drop_first().push('\n') + rest);
        assert(no_newline(body.drop_first())) by {
            assert forall|i: int| 0 <= i < body.drop_first().len() implies #[trigger] body.drop_first()[i]
                != '\n' by {
                assert(body.drop_first()[i] == body[i + 1]);
            }
        }
        lemma_first_newline_after(body.drop_first(), rest);
    }
}

/// The records of a batch of valid points are the lines of the points, in
/// order.
pub proof fn lemma_batch_records(points: Seq<PointView>)
    requires
        forall|i: int| 0 <= i < points.len() ==> (#[trigger] points[i]).valid(),
    ensures
        records(batch_text(points)) == lines_of(points),
    decreases points.len(),
{
    let lines = lines_of(points);
    let text = batch_text(points);
    if points.len() == 0 {
        assert(text =~= Seq::<char>::empty());
        assert(records(text) =~= lines);
    } else {
        let p = points[0];
        let tail = points.drop_first();
        assert(lines.drop_first() =~= lines_of(tail));
        assert(text == line_text(p) + batch_text(tail));
        lemma_record_has_no_newline(p);
        lemma_first_newline_after(record_text(p), batch_text(tail));
        let k = record_text(p).len() as int;
        assert(text.take(k + 1) =~= line_text(p));
        assert(text.skip(k + 1) =~= batch_text(tail));
        assert forall|i: int| 0 <= i < tail.len() implies (#[trigger] tail[i]).valid() by {
            assert(tail[i] == points[i + 1]);
        }
        lemma_batch_records(tail);
        assert(records(text) =~= seq![line_text(p)] + records(batch_text(tail)));
        assert(seq![line_text(p)] + lines_of(tail) =~= lines);
    }
}

/// True when `line` is the line of a valid point whose float field is
/// `float`.
pub open spec fn is_line_for(line: Seq<char>, float: Seq<char>) -> bool {
    exists|p: PointView|
        #![trigger line_text(p)]
        p.valid() && p.field_f == float && line == line_text(p)
}

/// A batch generated for `floats` falls apart into exactly as many
/// newline-terminated records as `floats` has entries, nothing stands
/// between or behind them, and the record at `i` is the line of a valid
/// point whose float field is `floats[i]`.
pub proof fn lemma_batch_shape(text: Seq<char>, floats: Seq<Seq<char>>)
    requires
        is_batch(text, floats),
    ensures
        records(text).len() == floats.len(),
        records(text).flatten() == text,
        forall|i: int| 0 <= i < floats.len() ==> #[trigger] is_line_for(records(text)[i], floats[i]),
{
    let points = choose|points: Seq<PointView>| #[trigger] is_batch_of(text, points, floats);
    lemma_batch_records(points);
    assert forall|i: int| 0 <= i < floats.len() implies #[trigger] is_line_for(
        records(text)[i],
        floats[i],
    ) by {
        let p = points[i];
        assert(p.valid() && p.field_f == floats[i] && records(text)[i] == line_text(p));
    }
}

} // verus!
