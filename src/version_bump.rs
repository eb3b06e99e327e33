//! The version-bump transformation on text: find the version line, read
//! `MAJOR.MINOR.PATCH` from it, and write the line back with MINOR one higher.
use vstd::prelude::*;

use crate::app_errors::VersionFailure;
use crate::text::{
    all_digits, decimal_chars, digit_char, digit_value, digits_value, extend_chars, find_char_from, find_from,
    first_index_from, first_occurrence_from, format_u64, digit_run, is_digit, is_digit_run,
    lemma_split_on_concat, lemma_split_on_nonempty, lemma_split_on_without_sep, literal_digits,
    occurs_at, parse_u32, split_on, sub_chars, trim_quotes, trim_quotes_bounds,
};

verus! {

/// The pieces of a version value, read as `MAJOR.MINOR.PATCH`.
pub open spec fn version_parts(raw: Seq<char>) -> Seq<Seq<char>> {
    split_on(raw, '.')
}

/// Exactly three pieces, each a non-empty run of decimal digits. Only MINOR
/// is read as a number; MAJOR and PATCH are copied as they are, of any length.
pub open spec fn is_version_shape(parts: Seq<Seq<char>>) -> bool {
    &&& parts.len() == 3
    &&& is_digit_run(parts[0])
    &&& is_digit_run(parts[1])
    &&& is_digit_run(parts[2])
}

/// MAJOR and PATCH as they were, MINOR one higher.
pub open spec fn bumped_version(parts: Seq<Seq<char>>) -> Seq<char> {
    parts[0] + seq!['.'] + decimal_chars(digits_value(parts[1]) + 1) + seq!['.'] + parts[2]
}

/// The line written back: `<pattern> "<version>"`.
pub open spec fn version_line(pattern: Seq<char>, version: Seq<char>) -> Seq<char> {
    pattern + seq![' ', '"'] + version + seq!['"']
}

/// Where the value after the first occurrence of the pattern at `pos` ends:
/// at the next line break, or at the end of the text.
pub open spec fn value_end(text: Seq<char>, pattern: Seq<char>, pos: int) -> int {
    first_index_from(text, '\n', pos + pattern.len())
}

/// The version value that follows the pattern at `pos`, without the spaces
/// and quotes around it.
pub open spec fn raw_version(text: Seq<char>, pattern: Seq<char>, pos: int) -> Seq<char> {
    trim_quotes(text.subrange(pos + pattern.len(), value_end(text, pattern, pos)))
}

/// The new text and the new version, or why there is none.
///
/// The version line runs from the first occurrence of `pattern` to the next
/// line break after it (or to the end of the text). It is replaced by
/// `<pattern> "<version>"`; the text before and after it is kept.
pub open spec fn version_bump(text: Seq<char>, pattern: Seq<char>) -> Result<
    (Seq<char>, Seq<char>),
    VersionFailure,
> {
    match first_occurrence_from(text, pattern, 0) {
        None => Err(VersionFailure::PatternNotFound),
        Some(pos) => {
            let parts = version_parts(raw_version(text, pattern, pos));
            if !is_version_shape(parts) {
                Err(VersionFailure::MalformedVersion)
            } else if digits_value(parts[1]) + 1 > u32::MAX {
                Err(VersionFailure::MinorOverflow)
            } else {
                let version = bumped_version(parts);
                let end = value_end(text, pattern, pos);
                Ok(
                    (
                        text.subrange(0, pos) + version_line(pattern, version) + text.subrange(
                            end,
                            text.len() as int,
                        ),
                        version,
                    ),
                )
            }
        },
    }
}

/// How `raw` splits at dots, given the first three dots found in it (each
/// `raw.len()` where there is none).
proof fn lemma_dot_pieces(raw: Seq<char>, d1: int, d2: int, d3: int)
    requires
        0 <= d1 <= raw.len(),
        d1 < raw.len() ==> d1 < d2 <= raw.len(),
        d1 < raw.len() && d2 < raw.len() ==> d2 < d3 <= raw.len(),
        d1 < raw.len() ==> raw[d1] == '.',
        d1 < raw.len() && d2 < raw.len() ==> raw[d2] == '.',
        d1 < raw.len() && d2 < raw.len() && d3 < raw.len() ==> raw[d3] == '.',
        forall|j: int| 0 <= j < d1 ==> raw[j] != '.',
        d1 < raw.len() ==> forall|j: int| d1 < j < d2 ==> raw[j] != '.',
        d1 < raw.len() && d2 < raw.len() ==> forall|j: int| d2 < j < d3 ==> raw[j] != '.',
    ensures
        (d1 < raw.len() && d2 < raw.len() && d3 == raw.len()) <==> split_on(raw, '.').len() == 3,
        d1 < raw.len() && d2 < raw.len() && d3 == raw.len() ==> split_on(raw, '.') == seq![
            raw.subrange(0, d1),
            raw.subrange(d1 + 1, d2),
            raw.subrange(d2 + 1, raw.len() as int),
        ],
{
    let n = raw.len() as int;
    let piece0 = raw.subrange(0, d1);
    assert(!piece0.contains('.')) by {
        if piece0.contains('.') {
            let k = choose|k: int| 0 <= k < piece0.len() && piece0[k] == '.';
            assert(raw[k] == '.');
        }
    }
    lemma_split_on_without_sep(piece0, '.');
    if d1 == n {
        assert(raw =~= piece0);
    } else {
        let rest1 = raw.subrange(d1 + 1, n);
        assert(raw =~= piece0 + seq!['.'] + rest1);
        lemma_split_on_concat(piece0, rest1, '.');
        let piece1 = raw.subrange(d1 + 1, d2);
        assert(!piece1.contains('.')) by {
            if piece1.contains('.') {
                let k = choose|k: int| 0 <= k < piece1.len() && piece1[k] == '.';
                assert(raw[d1 + 1 + k] == '.');
            }
        }
        lemma_split_on_without_sep(piece1, '.');
        if d2 == n {
            assert(rest1 =~= piece1);
        } else {
            let rest2 = raw.subrange(d2 + 1, n);
            assert(rest1 =~= piece1 + seq!['.'] + rest2);
            lemma_split_on_concat(piece1, rest2, '.');
            let piece2 = raw.subrange(d2 + 1, d3);
            assert(!piece2.contains('.')) by {
                if piece2.contains('.') {
                    let k = choose|k: int| 0 <= k < piece2.len() && piece2[k] == '.';
                    assert(raw[d2 + 1 + k] == '.');
                }
            }
            lemma_split_on_without_sep(piece2, '.');
            if d3 == n {
                assert(rest2 =~= piece2);
                assert(split_on(raw, '.') =~= seq![piece0, piece1, piece2]);
            } else {
                let rest3 = raw.subrange(d3 + 1, n);
                assert(rest2 =~= piece2 + seq!['.'] + rest3);
                lemma_split_on_concat(piece2, rest3, '.');
                lemma_split_on_nonempty(rest3, '.');
            }
        }
    }
}

/// Increases the MINOR number of the version on the first line of `text`
/// that holds `pattern`, and returns the new text and the new version.
pub fn bump_version(text: &Vec<char>, pattern: &Vec<char>) -> (r: Result<
    (Vec<char>, Vec<char>),
    VersionFailure,
>)
    ensures
        match version_bump(text@, pattern@) {
            Ok((new_text, version)) => r matches Ok((t, v)) && t@ == new_text && v@ == version,
            Err(e) => r == Err::<(Vec<char>, Vec<char>), VersionFailure>(e),
        },
{
    let pos = match find_from(text, pattern, 0) {
        Some(p) => p,
        None => {
            return Err(VersionFailure::PatternNotFound);
        },
    };
    let ghost gpos = pos as int;
    assert(occurs_at(text@, pattern@, gpos));
    assert(gpos + pattern@.len() <= text.len());
    let value_start: usize = pos + pattern.len();
    let end = find_char_from(text, '\n', value_start);
    let (a, b) = trim_quotes_bounds(text, value_start, end);
    let raw = sub_chars(text, a, b);
    assert(raw@ == raw_version(text@, pattern@, gpos));
    let d1 = find_char_from(&raw, '.', 0);
    let d2 = if d1 < raw.len() {
        find_char_from(&raw, '.', d1 + 1)
    } else {
        raw.len()
    };
    let d3 = if d1 < raw.len() && d2 < raw.len() {
        find_char_from(&raw, '.', d2 + 1)
    } else {
        raw.len()
    };
    proof {
        lemma_dot_pieces(raw@, d1 as int, d2 as int, d3 as int);
    }
    if !(d1 < raw.len() && d2 < raw.len() && d3 == raw.len()) {
        return Err(VersionFailure::MalformedVersion);
    }
    let major = sub_chars(&raw, 0, d1);
    let minor_text = sub_chars(&raw, d1 + 1, d2);
    let patch = sub_chars(&raw, d2 + 1, raw.len());
    let ghost parts = version_parts(raw@);
    assert(parts[0] == major@ && parts[1] == minor_text@ && parts[2] == patch@);
    if !digit_run(&major) || !digit_run(&minor_text) || !digit_run(&patch) {
        return Err(VersionFailure::MalformedVersion);
    }
    assert(literal_digits(minor_text@) == minor_text@);
    let minor = match parse_u32(&minor_text) {
        Some(m) => m,
        None => {
            return Err(VersionFailure::MinorOverflow);
        },
    };
    if minor == u32::MAX {
        return Err(VersionFailure::MinorOverflow);
    }
    let new_minor = format_u64(minor as u64 + 1);
    let mut version: Vec<char> = major;
    version.push('.');
    extend_chars(&mut version, &new_minor);
    version.push('.');
    extend_chars(&mut version, &patch);
    assert(version@ =~= bumped_version(parts));

    let mut new_text = sub_chars(text, 0, pos);
    extend_chars(&mut new_text, pattern);
    new_text.push(' ');
    new_text.push('"');
    extend_chars(&mut new_text, &version);
    new_text.push('"');
    let tail = sub_chars(text, end, text.len());
    extend_chars(&mut new_text, &tail);
    assert(new_text@ =~= text@.subrange(0, gpos) + version_line(pattern@, version@) + text@.subrange(
        end as int,
        text@.len() as int,
    ));
    Ok((new_text, version))
}

/// A version value that does not split at dots into exactly three runs of
/// digits (no sign, none empty) is refused, and the text is left alone.
pub proof fn lemma_malformed_version_refused(text: Seq<char>, pattern: Seq<char>, pos: int)
    requires
        first_occurrence_from(text, pattern, 0) == Some(pos),
        !is_version_shape(version_parts(raw_version(text, pattern, pos))),
    ensures
        version_bump(text, pattern) == Err::<(Seq<char>, Seq<char>), VersionFailure>(
            VersionFailure::MalformedVersion,
        ),
{
}

proof fn lemma_digit_char(d: nat)
    requires
        d < 10,
    ensures
        digit_value(digit_char(d)) == d,
{
    let b = (d + '0' as int) as u8;
    assert(b as int == d + 48);
    assert((b as char) as int == b as int);
}

proof fn lemma_decimal_chars(n: nat)
    ensures
        decimal_chars(n).len() > 0,
        all_digits(decimal_chars(n)),
        decimal_chars(n)[0] != '+',
        digits_value(decimal_chars(n)) == n,
    decreases n,
{
    let d = decimal_chars(n);
    if n < 10 {
        assert(d =~= seq![digit_char(n)]);
        assert(d.drop_last() =~= Seq::<char>::empty());
        assert(d.last() == digit_char(n));
        assert(digits_value(d.drop_last()) == 0);
        lemma_digit_char(n);
        assert(digits_value(d) == digits_value(d.drop_last()) * 10 + digit_value(d.last()));
    } else {
        lemma_digit_char(n % 10);
        assert(n == (n / 10) * 10 + n % 10);
        assert(d.last() == digit_char(n % 10));
        lemma_decimal_chars(n / 10);
        let init = decimal_chars(n / 10);
        assert(d.drop_last() =~= init);
        assert(d[0] == init[0]);
        assert(digits_value(d) == digits_value(init) * 10 + digit_value(d.last()));
        assert forall|i: int| 0 <= i < d.len() implies is_digit(#[trigger] d[i]) by {
            if i < init.len() {
                assert(d[i] == init[i]);
            }
        }
    }
}

proof fn lemma_digits_have_no_dot(s: Seq<char>)
    requires
        is_digit_run(s),
    ensures
        !s.contains('.'),
{
    if s.contains('.') {
        let k = choose|k: int| 0 <= k < s.len() && s[k] == '.';
        assert(is_digit(s[k]));
    }
}

/// The new version reads back as a version of the same shape: MAJOR and
/// PATCH as before, MINOR one higher.
pub proof fn lemma_bumped_version_reads_back(text: Seq<char>, pattern: Seq<char>, pos: int)
    requires
        first_occurrence_from(text, pattern, 0) == Some(pos),
        version_bump(text, pattern) is Ok,
    ensures
        version_bump(text, pattern) matches Ok((_, version)) && ({
            let old_parts = version_parts(raw_version(text, pattern, pos));
            let new_parts = version_parts(version);
            &&& is_version_shape(new_parts)
            &&& new_parts[0] == old_parts[0]
            &&& new_parts[2] == old_parts[2]
            &&& digits_value(new_parts[1]) == digits_value(old_parts[1]) + 1
        }),
{
    let parts = version_parts(raw_version(text, pattern, pos));
    let minor = decimal_chars(digits_value(parts[1]) + 1);
    lemma_decimal_chars(digits_value(parts[1]) + 1);
    lemma_digits_have_no_dot(parts[0]);
    lemma_digits_have_no_dot(parts[2]);
    lemma_digits_have_no_dot(minor);
    lemma_split_on_without_sep(parts[0], '.');
    lemma_split_on_without_sep(minor, '.');
    lemma_split_on_without_sep(parts[2], '.');
    let rest = minor + seq!['.'] + parts[2];
    lemma_split_on_concat(minor, parts[2], '.');
    lemma_split_on_concat(parts[0], rest, '.');
    assert(bumped_version(parts) =~= parts[0] + seq!['.'] + rest);
    assert(version_parts(bumped_version(parts)) =~= seq![parts[0], minor, parts[2]]);
}

} // verus!
