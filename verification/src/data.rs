//! Batch generation: random points, one record each, written one after
//! another into a single text.

use crate::point::all_letters;
use crate::point::check_float_text;
use crate::point::encode_line;
use crate::point::is_float_text;
use crate::point::is_letter;
use crate::point::line_text;
use crate::point::Point;
use crate::point::PointView;
use crate::random::clock_now;
use crate::random::duration_nanos;
use crate::random::random_bool;
use crate::random::random_i64;
use crate::random::random_u64;
use crate::random::sample_letter;
use crate::random::since_unix_epoch;
use crate::random::thread_rng;
use rand::rngs::ThreadRng;
use vstd::prelude::*;

verus! {

/// Why one record could not be generated.
#[derive(Clone, Copy, Debug, PartialEq, Eq)]
pub enum LineError {
    /// The text given for the float field is no float text.
    FloatText,
    /// The wall clock reads a moment before the Unix epoch.
    Clock,
}

/// Why a batch could not be generated.
#[derive(Clone, Copy, Debug, PartialEq, Eq)]
pub enum GenerationError {
    /// The number of float texts differs from the number of lines asked for.
    FloatCount { expected: usize, given: usize },
    /// The float text for the record at `line` is no float text.
    FloatText { line: usize },
    /// The wall clock failed while the record at `line` was made.
    Clock { line: usize },
}

/// The lines of a sequence of points, in order.
pub open spec fn lines_of(points: Seq<PointView>) -> Seq<Seq<char>> {
    points.map_values(|p: PointView| line_text(p))
}

/// The text of a batch: the lines of its points, one after another.
pub open spec fn batch_text(points: Seq<PointView>) -> Seq<char> {
    lines_of(points).flatten()
}

/// The texts that a vector of strings holds.
pub open spec fn texts_of(fields: Seq<String>) -> Seq<Seq<char>> {
    fields.map_values(|s: String| s@)
}

/// True when `text` is the batch of `points`, every point meets the record
/// schema, and the float field of the point at `i` is `floats[i]`.
pub open spec fn is_batch_of(text: Seq<char>, points: Seq<PointView>, floats: Seq<Seq<char>>) -> bool {
    &&& points.len() == floats.len()
    &&& forall|i: int|
        0 <= i < points.len() ==> (#[trigger] points[i]).valid() && points[i].field_f == floats[i]
    &&& text == batch_text(points)
}

/// True when `text` is a batch of as many valid records as `floats` has
/// entries, the float field of the record at `i` being `floats[i]`.
pub open spec fn is_batch(text: Seq<char>, floats: Seq<Seq<char>>) -> bool {
    exists|points: Seq<PointView>| #[trigger] is_batch_of(text, points, floats)
}

/// Draws the random parts of a point and joins them with the float text and
/// the timestamp given.
pub fn random_point(rng: &mut ThreadRng, field_f: &str, time: u128) -> (p: Point)
    ensures
        is_letter(p@.tag),
        p@.field_s.len() == 8,
        all_letters(p@.field_s),
        p@.field_f == field_f@,
        p@.time == time,
        is_float_text(field_f@) ==> p@.valid(),
{
    let tag: char = sample_letter(rng) as char;
    let mut field_s = String::new();
    let mut k: usize = 0;
    while k < 8
        invariant
            k <= 8,
            field_s@.len() == k,
            all_letters(field_s@),
        decreases 8 - k,
    {
        let letter: char = sample_letter(rng) as char;
        field_s.push(letter);
        k += 1;
    }
    let field_i: i64 = random_i64(rng);
    let field_u: u64 = random_u64(rng);
    let field_b: bool = random_bool(rng);
    Point { tag, field_s, field_i, field_u, field_f: field_f.to_owned(), field_b, time }
}

/// The time since the Unix epoch in nanoseconds, as the wall clock reads
/// it, or nothing when the clock reads a moment before the epoch.
fn unix_nanos() -> (time: Option<u128>) {
    let now = clock_now();
    match since_unix_epoch(&now) {
        Ok(elapsed) => Some(duration_nanos(&elapsed)),
        Err(_) => None,
    }
}

/// Appends one freshly generated record to `w`, with `field_f` as its float
/// field and `time` as its timestamp, the reading of the clock.
///
/// Fails, leaving `w` as it was, when `field_f` is no float text, and
/// otherwise when the clock gave no reading.
pub fn gen_line_at(w: &mut String, rng: &mut ThreadRng, field_f: &str, time: Option<u128>) -> (r:
    Result<(), LineError>)
    ensures
        !is_float_text(field_f@) ==> r == Err::<(), LineError>(LineError::FloatText),
        is_float_text(field_f@) && time is None ==> r == Err::<(), LineError>(LineError::Clock),
        is_float_text(field_f@) && time is Some ==> r is Ok,
        r is Ok ==> exists|p: PointView|
            #![trigger line_text(p)]
            p.valid() && p.field_f == field_f@ && final(w)@ == old(w)@ + line_text(p) && (
            time matches Some(t) && p.time == t),
        r is Err ==> final(w)@ == old(w)@,
{
    if !check_float_text(field_f) {
        return Err(LineError::FloatText);
    }
    match time {
        Some(nanos) => {
            let p = random_point(rng, field_f, nanos);
            encode_line(w, &p);
            proof {
                assert(p@.valid() && p@.field_f == field_f@ && p@.time == nanos && w@ == old(w)@
                    + line_text(p@));
            }
            Ok(())
        },
        None => Err(LineError::Clock),
    }
}

/// Appends one freshly generated record to `w`. The float field is
/// `field_f`; the timestamp is read from the wall clock.
///
/// Fails, leaving `w` as it was, when `field_f` is no float text or the
/// clock reads a moment before the Unix epoch.
pub fn gen_line(w: &mut String, rng: &mut ThreadRng, field_f: &str) -> (r: Result<(), LineError>)
    ensures
        !is_float_text(field_f@) ==> r == Err::<(), LineError>(LineError::FloatText),
        r is Ok ==> exists|p: PointView|
            #![trigger line_text(p)]
            p.valid() && p.field_f == field_f@ && final(w)@ == old(w)@ + line_text(p),
        r is Err ==> final(w)@ == old(w)@,
        r == Err::<(), LineError>(LineError::FloatText) ==> !is_float_text(field_f@),
{
    gen_line_at(w, rng, field_f, unix_nanos())
}

/// Generates a batch of `batch_lines` records. The float field of the
/// record at `i` is `float_fields[i]`; everything else is drawn at random or
/// read from the clock.
///
/// Fails when the number of float texts is not `batch_lines`, when one of
/// them is no float text (the first such is named), or when the clock fails.
pub fn generate_batch(batch_lines: usize, float_fields: &Vec<String>) -> (r: Result<
    String,
    GenerationError,
>)
    ensures
        r matches Ok(text) ==> float_fields.len() == batch_lines && is_batch(
            text@,
            texts_of(float_fields@),
        ),
        r matches Err(GenerationError::FloatCount { expected, given }) ==> expected == batch_lines
            && given == float_fields.len() && given != expected,
        r matches Err(GenerationError::FloatText { line }) ==> float_fields.len() == batch_lines
            && line < batch_lines && !is_float_text(float_fields@[line as int]@) && forall|k: int|
            0 <= k < line ==> is_float_text(#[trigger] float_fields@[k]@),
        r matches Err(GenerationError::Clock { line }) ==> float_fields.len() == batch_lines && line
            < batch_lines && forall|k: int|
            0 <= k < batch_lines ==> is_float_text(#[trigger] float_fields@[k]@),
{
    if float_fields.len() != batch_lines {
        return Err(GenerationError::FloatCount { expected: batch_lines, given: float_fields.len() });
    }
    let mut checked: usize = 0;
    while checked < batch_lines
        invariant
            checked <= batch_lines,
            float_fields.len() == batch_lines,
            forall|k: int| 0 <= k < checked ==> is_float_text(#[trigger] float_fields@[k]@),
        decreases batch_lines - checked,
    {
        if !check_float_text(float_fields[checked].as_str()) {
            return Err(GenerationError::FloatText { line: checked });
        }
        checked += 1;
    }
    let mut rng = thread_rng();
    let mut text = String::new();
    let ghost mut points: Seq<PointView> = Seq::empty();
    let mut line: usize = 0;
    proof {
        assert(batch_text(points) =~= Seq::<char>::empty());
    }
    while line < batch_lines
        invariant
            line <= batch_lines,
            float_fields.len() == batch_lines,
            forall|k: int| 0 <= k < batch_lines ==> is_float_text(#[trigger] float_fields@[k]@),
            points.len() == line,
            forall|k: int|
                0 <= k < line ==> (#[trigger] points[k]).valid() && points[k].field_f
                    == float_fields@[k]@,
            text@ == batch_text(points),
        decreases batch_lines - line,
    {
        let ghost before = text@;
        let field_f = float_fields[line].as_str();
        match gen_line(&mut text, &mut rng, field_f) {
            Ok(()) => {
                proof {
                    let p = choose|p: PointView|
                        #![trigger line_text(p)]
                        p.valid() && p.field_f == field_f@ && text@ == before + line_text(p);
                    lemma_batch_text_push(points, p);
                    points = points.push(p);
                }
            },
            Err(LineError::Clock) => {
                return Err(GenerationError::Clock { line });
            },
            Err(LineError::FloatText) => {
                return Err(GenerationError::FloatText { line });
            },
        }
        line += 1;
    }
    proof {
        assert(texts_of(float_fields@).len() == points.len());
        assert(is_batch_of(text@, points, texts_of(float_fields@)));
        assert(is_batch(text@, texts_of(float_fields@)));
    }
    Ok(text)
}

/// The batch of `points` followed by one more point is the batch of
/// `points` followed by that point's line.
pub proof fn lemma_batch_text_push(points: Seq<PointView>, p: PointView)
    ensures
        batch_text(points.push(p)) == batch_text(points) + line_text(p),
{
    assert(lines_of(points.push(p)) =~= lines_of(points).push(line_text(p)));
    lines_of(points).lemma_flatten_push(line_text(p));
}

} // verus!
