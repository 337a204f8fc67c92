use influx_loadgen::data::gen_line;
use influx_loadgen::data::gen_line_at;
use influx_loadgen::data::generate_batch;
use influx_loadgen::data::random_point;
use influx_loadgen::data::GenerationError;
use influx_loadgen::data::LineError;
use influx_loadgen::point::check_float_text;
use influx_loadgen::point::check_letters;
use influx_loadgen::point::encode_line;
use influx_loadgen::point::Point;
use influx_loadgen::text::push_decimal;
use influx_loadgen::text::push_signed_decimal;

fn take<'a>(rest: &'a str, prefix: &str) -> Option<&'a str> {
    rest.strip_prefix(prefix)
}

fn take_while<'a>(rest: &'a str, keep: fn(char) -> bool) -> (&'a str, &'a str) {
    let end = rest.find(|c: char| !keep(c)).unwrap_or(rest.len());
    rest.split_at(end)
}

fn letter(c: char) -> bool {
    c.is_ascii_alphabetic()
}

fn integer_char(c: char) -> bool {
    c.is_ascii_digit() || c == '-'
}

fn float_char(c: char) -> bool {
    c.is_ascii_digit() || c == '-' || c == '.'
}

/// Tells whether `line` is one record of the schema, newline included.
fn matches_schema(line: &str) -> bool {
    let Some(rest) = take(line, "table,tag=") else { return false };
    let (tag, rest) = take_while(rest, letter);
    if tag.len() != 1 {
        return false;
    }
    let Some(rest) = take(rest, " field_s=\"") else { return false };
    let (field_s, rest) = take_while(rest, letter);
    if field_s.len() != 8 {
        return false;
    }
    let Some(rest) = take(rest, "\",field_i=") else { return false };
    let (field_i, rest) = take_while(rest, integer_char);
    if field_i.parse::<i64>().is_err() {
        return false;
    }
    let Some(rest) = take(rest, "i,field_u=") else { return false };
    let (field_u, rest) = take_while(rest, integer_char);
    if field_u.parse::<u64>().is_err() {
        return false;
    }
    let Some(rest) = take(rest, "u,field_f=") else { return false };
    let (field_f, rest) = take_while(rest, float_char);
    if field_f.parse::<f64>().is_err() {
        return false;
    }
    let Some(rest) = take(rest, ",field_b=") else { return false };
    let rest = match take(rest, "true").or_else(|| take(rest, "false")) {
        Some(rest) => rest,
        None => return false,
    };
    let Some(rest) = take(rest, " ") else { return false };
    let (time, rest) = take_while(rest, |c| c.is_ascii_digit());
    time.parse::<u128>().is_ok() && rest == "\n"
}

fn floats(n: usize) -> Vec<String> {
    (0..n).map(|i| format!("{}", (i as f64) / 8.0)).collect()
}

fn sample_point() -> Point {
    Point {
        tag: 'q',
        field_s: "AbCdEfGh".to_string(),
        field_i: -42,
        field_u: 7,
        field_f: "0.25".to_string(),
        field_b: true,
        time: 1_700_000_000_123_456_789,
    }
}

#[test]
fn decimal_text_of_zero_and_small_numbers() {
    let mut w = String::new();
    push_decimal(&mut w, 0);
    w.push(' ');
    push_decimal(&mut w, 9);
    w.push(' ');
    push_decimal(&mut w, 10);
    w.push(' ');
    push_decimal(&mut w, 1234567890);
    assert_eq!(w, "0 9 10 1234567890");
}

#[test]
fn decimal_text_of_the_largest_number() {
    let mut w = String::from("t=");
    push_decimal(&mut w, u128::MAX);
    assert_eq!(w, format!("t={}", u128::MAX));
}

#[test]
fn signed_decimal_text_at_the_ends_of_the_range() {
    let mut w = String::new();
    push_signed_decimal(&mut w, i64::MIN);
    w.push(',');
    push_signed_decimal(&mut w, -1);
    w.push(',');
    push_signed_decimal(&mut w, 0);
    w.push(',');
    push_signed_decimal(&mut w, i64::MAX);
    assert_eq!(w, "-9223372036854775808,-1,0,9223372036854775807");
}

#[test]
fn line_of_a_point_is_bit_exact() {
    let mut w = String::new();
    encode_line(&mut w, &sample_point());
    assert_eq!(
        w,
        "table,tag=q field_s=\"AbCdEfGh\",field_i=-42i,field_u=7u,field_f=0.25,field_b=true 1700000000123456789\n"
    );
    assert!(matches_schema(&w));
}

#[test]
fn line_is_appended_to_what_is_there() {
    let mut w = String::from("before\n");
    let mut p = sample_point();
    p.field_b = false;
    p.field_i = i64::MAX;
    p.field_u = u64::MAX;
    p.time = 0;
    encode_line(&mut w, &p);
    assert_eq!(
        w,
        "before\ntable,tag=q field_s=\"AbCdEfGh\",field_i=9223372036854775807i,field_u=18446744073709551615u,field_f=0.25,field_b=false 0\n"
    );
}

#[test]
fn letters_are_told_from_other_characters() {
    assert!(check_letters("AZaz"));
    assert!(check_letters(""));
    assert!(!check_letters("abc1"));
    assert!(!check_letters("ab c"));
    assert!(!check_letters("@"));
    assert!(!check_letters("["));
    assert!(!check_letters("`"));
    assert!(!check_letters("{"));
    assert!(!check_letters("é"));
}

#[test]
fn float_texts_are_told_from_other_texts() {
    for good in ["0", "1", "0.5", "-0.5", "12.125", "-7", "0.0000001", "123456789.987654321"] {
        assert!(check_float_text(good), "{good}");
    }
    for bad in ["", "-", ".", ".5", "5.", "1.2.3", "1e5", "NaN", "inf", "-inf", "+1", "1 ", " 1", "--1", "1-", "0.5\n", "٣"] {
        assert!(!check_float_text(bad), "{bad:?}");
    }
}

#[test]
fn float_texts_of_rust_are_float_texts() {
    for value in [0.0f64, 0.5, 0.1, 1.0 / 3.0, 0.999_999_999_999, 1e-7, 123.456, -2.5] {
        assert!(check_float_text(&format!("{value}")), "{value}");
    }
    assert!(!check_float_text(&format!("{}", f64::NAN)));
    assert!(!check_float_text(&format!("{}", f64::INFINITY)));
}

#[test]
fn validity_of_points() {
    assert!(sample_point().is_valid());
    let mut p = sample_point();
    p.tag = '1';
    assert!(!p.is_valid());
    let mut p = sample_point();
    p.field_s = "short".to_string();
    assert!(!p.is_valid());
    let mut p = sample_point();
    p.field_s = "abcdefg1".to_string();
    assert!(!p.is_valid());
    let mut p = sample_point();
    p.field_s = "abcdefgé".to_string();
    assert!(!p.is_valid());
    let mut p = sample_point();
    p.field_f = "NaN".to_string();
    assert!(!p.is_valid());
}

#[test]
fn random_points_meet_the_schema() {
    let mut rng = rand::rng();
    for round in 0..200u128 {
        let p = random_point(&mut rng, "0.75", round);
        assert!(p.tag.is_ascii_alphabetic());
        assert_eq!(p.field_s.len(), 8);
        assert!(p.field_s.chars().all(|c| c.is_ascii_alphabetic()));
        assert_eq!(p.field_f, "0.75");
        assert_eq!(p.time, round);
        assert!(p.is_valid());
    }
}

#[test]
fn random_points_differ() {
    let mut rng = rand::rng();
    let first = random_point(&mut rng, "0", 0);
    let mut differs = false;
    for _ in 0..50 {
        let next = random_point(&mut rng, "0", 0);
        differs = differs || next != first;
    }
    assert!(differs);
}

#[test]
fn generated_line_matches_the_schema() {
    let mut rng = rand::rng();
    let mut w = String::from("x");
    assert_eq!(gen_line(&mut w, &mut rng, "0.125"), Ok(()));
    assert!(w.starts_with('x'));
    let line = &w[1..];
    assert!(matches_schema(line), "{line:?}");
    assert!(line.contains(",field_f=0.125,"));
}

#[test]
fn generated_line_carries_the_time_of_its_making() {
    let before = std::time::SystemTime::now()
        .duration_since(std::time::UNIX_EPOCH)
        .unwrap()
        .as_nanos();
    let mut rng = rand::rng();
    let mut w = String::new();
    assert_eq!(gen_line(&mut w, &mut rng, "1"), Ok(()));
    let after = std::time::SystemTime::now()
        .duration_since(std::time::UNIX_EPOCH)
        .unwrap()
        .as_nanos();
    let time: u128 = w.trim_end().rsplit(' ').next().unwrap().parse().unwrap();
    let slack = 5_000_000_000u128;
    assert!(before <= time + slack && time <= after + slack);
}

#[test]
fn line_carries_the_time_it_is_given() {
    let mut rng = rand::rng();
    let mut w = String::new();
    assert_eq!(gen_line_at(&mut w, &mut rng, "0.5", Some(1_700_000_000_000_000_001)), Ok(()));
    assert!(matches_schema(&w), "{w:?}");
    assert!(w.ends_with(",field_f=0.5,field_b=true 1700000000000000001\n")
        || w.ends_with(",field_f=0.5,field_b=false 1700000000000000001\n"));
}

#[test]
fn line_without_a_reading_of_the_clock_is_refused() {
    let mut rng = rand::rng();
    let mut w = String::from("kept");
    assert_eq!(gen_line_at(&mut w, &mut rng, "0.5", None), Err(LineError::Clock));
    assert_eq!(w, "kept");
    assert_eq!(gen_line_at(&mut w, &mut rng, "x", None), Err(LineError::FloatText));
    assert_eq!(w, "kept");
}

#[test]
fn line_with_a_bad_float_text_is_refused() {
    let mut rng = rand::rng();
    let mut w = String::from("kept");
    assert_eq!(gen_line(&mut w, &mut rng, "NaN"), Err(LineError::FloatText));
    assert_eq!(w, "kept");
}

#[test]
fn batch_has_one_record_per_line_asked_for() {
    for n in [0usize, 1, 2, 3, 17, 250] {
        let given = floats(n);
        let text = generate_batch(n, &given).unwrap();
        assert_eq!(text.matches('\n').count(), n);
        assert!(text.is_empty() || text.ends_with('\n'));
        let lines: Vec<&str> = text.split_inclusive('\n').collect();
        assert_eq!(lines.len(), n);
        for (i, line) in lines.iter().enumerate() {
            assert!(matches_schema(line), "{line:?}");
            assert!(line.contains(&format!(",field_f={},", given[i])));
        }
    }
}

#[test]
fn empty_batch_is_empty() {
    assert_eq!(generate_batch(0, &Vec::new()), Ok(String::new()));
}

#[test]
fn batch_with_the_wrong_number_of_floats_is_refused() {
    assert_eq!(
        generate_batch(3, &floats(2)),
        Err(GenerationError::FloatCount { expected: 3, given: 2 })
    );
    assert_eq!(
        generate_batch(0, &floats(1)),
        Err(GenerationError::FloatCount { expected: 0, given: 1 })
    );
}

#[test]
fn batch_names_its_first_bad_float() {
    let mut given = floats(5);
    given[3] = "inf".to_string();
    given[4] = "".to_string();
    assert_eq!(generate_batch(5, &given), Err(GenerationError::FloatText { line: 3 }));
}
