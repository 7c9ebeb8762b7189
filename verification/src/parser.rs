//! The line-oriented parser: maps the decoded response text onto the
//! metadata record. Known keywords with a malformed value are an error;
//! unknown keywords and tag names are ignored; blank lines are skipped.

use vstd::prelude::*;
use vstd::pervasive::unreached;
use vstd::string::{StrSliceExecFns, StringExecFns};
use crate::digits::{
    all_digits, digit_val, digits_val, is_digit, lemma_digits_val_nonneg, lemma_digits_val_prefix,
};
use crate::metadata::{Metadata, MetaSpec};
use crate::text::{find_char, idx_of, lemma_idx_of_bounds, lemma_idx_of_is, str_eq};

verus! {

/// Why a response was rejected. Any of these ends the run: the protocol
/// is trusted to be well formed, so a malformed record is surfaced, never
/// guessed around.
#[derive(Debug, Clone, Copy, PartialEq, Eq)]
pub enum ParseError {
    /// A known keyword or tag name stood alone on its line, with no value.
    MissingValue,
    /// A numeric field held something other than decimal digits.
    NotANumber,
    /// A numeric field held a value too large for the field.
    NumberTooLarge,
}

/// The meaning of a numeric field bounded by `max`: one or more decimal
/// digits whose value fits the bound; anything else is rejected, never
/// clamped.
pub open spec fn spec_parse_num(s: Seq<char>, max: int) -> Result<int, ParseError> {
    if s.len() == 0 || !all_digits(s) {
        Err(ParseError::NotANumber)
    } else if digits_val(s) > max {
        Err(ParseError::NumberTooLarge)
    } else {
        Ok(digits_val(s))
    }
}

/// The top-level keywords the parser knows.
pub open spec fn known_keyword(kw: Seq<char>) -> bool {
    kw == "status"@ || kw == "file"@ || kw == "duration"@ || kw == "position"@ || kw == "tag"@
}

/// The tag names the parser knows.
pub open spec fn known_tag(name: Seq<char>) -> bool {
    name == "title"@ || name == "artist"@ || name == "album"@ || name == "date"@ || name
        == "tracknumber"@ || name == "discnumber"@
}

/// The effect of the remainder of a `tag` record: `<tag-name> <value>`,
/// split on the first space. A known name without a value is an error; an
/// unknown name changes nothing.
pub open spec fn spec_apply_tag(m: MetaSpec, rest: Seq<char>) -> Result<MetaSpec, ParseError> {
    let j = idx_of(rest, ' ');
    let name = rest.subrange(0, j);
    if j == rest.len() {
        if known_tag(name) {
            Err(ParseError::MissingValue)
        } else {
            Ok(m)
        }
    } else {
        let value = rest.subrange(j + 1, rest.len() as int);
        if name == "title"@ {
            Ok(MetaSpec { title: value, ..m })
        } else if name == "artist"@ {
            Ok(MetaSpec { artist: value, ..m })
        } else if name == "album"@ {
            Ok(MetaSpec { album: value, ..m })
        } else if name == "date"@ {
            Ok(MetaSpec { date: value, ..m })
        } else if name == "tracknumber"@ {
            match spec_parse_num(value, 255) {
                Ok(v) => Ok(MetaSpec { tracknumber: v as u8, ..m }),
                Err(e) => Err(e),
            }
        } else if name == "discnumber"@ {
            match spec_parse_num(value, 255) {
                Ok(v) => Ok(MetaSpec { discnumber: v as u8, ..m }),
                Err(e) => Err(e),
            }
        } else {
            Ok(m)
        }
    }
}

/// The effect of one record line on the record built so far: split on the
/// first space into keyword and remainder. A blank line changes nothing;
/// a known keyword without a remainder is an error; an unknown keyword
/// changes nothing.
pub open spec fn spec_apply_line(m: MetaSpec, line: Seq<char>) -> Result<MetaSpec, ParseError> {
    if line.len() == 0 {
        Ok(m)
    } else {
        let j = idx_of(line, ' ');
        let kw = line.subrange(0, j);
        if j == line.len() {
            if known_keyword(kw) {
                Err(ParseError::MissingValue)
            } else {
                Ok(m)
            }
        } else {
            let rest = line.subrange(j + 1, line.len() as int);
            if kw == "status"@ {
                Ok(MetaSpec { status: rest, ..m })
            } else if kw == "file"@ {
                Ok(MetaSpec { file: rest, ..m })
            } else if kw == "duration"@ {
                match spec_parse_num(rest, 0xffff_ffff) {
                    Ok(v) => Ok(MetaSpec { duration: v as u32, ..m }),
                    Err(e) => Err(e),
                }
            } else if kw == "position"@ {
                match spec_parse_num(rest, 0xffff_ffff) {
                    Ok(v) => Ok(MetaSpec { position: v as u32, ..m }),
                    Err(e) => Err(e),
                }
            } else if kw == "tag"@ {
                spec_apply_tag(m, rest)
            } else {
                Ok(m)
            }
        }
    }
}

/// The meaning of the response text from `s` on, applied to the record
/// built so far: the text up to the next newline (or its end) is one
/// line, and the rest follows.
pub open spec fn spec_parse_from(m: MetaSpec, s: Seq<char>) -> Result<MetaSpec, ParseError>
    decreases s.len(),
    via spec_parse_from_decreases
{
    let j = idx_of(s, '\n');
    let line = s.subrange(0, j);
    match spec_apply_line(m, line) {
        Err(e) => Err(e),
        Ok(m2) => if j == s.len() {
            Ok(m2)
        } else {
            spec_parse_from(m2, s.subrange(j + 1, s.len() as int))
        },
    }
}

#[via_fn]
proof fn spec_parse_from_decreases(m: MetaSpec, s: Seq<char>) {
    lemma_idx_of_bounds(s, '\n');
}

/// The meaning of a whole response text: every line applied in order to
/// the freshly initialized record.
pub open spec fn spec_parse(text: Seq<char>) -> Result<MetaSpec, ParseError> {
    spec_parse_from(MetaSpec::init(), text)
}

/// A line the grammar does not recognize: a blank line, an unknown
/// top-level keyword (with or without a remainder), or a `tag` record
/// with an unknown tag name.
pub open spec fn unrecognized_line(line: Seq<char>) -> bool {
    let j = idx_of(line, ' ');
    let kw = line.subrange(0, j);
    if line.len() == 0 {
        true
    } else if j == line.len() {
        !known_keyword(kw)
    } else if kw == "tag"@ {
        let rest = line.subrange(j + 1, line.len() as int);
        !known_tag(rest.subrange(0, idx_of(rest, ' ')))
    } else {
        !known_keyword(kw)
    }
}

/// An unrecognized line leaves the record exactly as it was, whatever
/// else it holds: unknown keywords and tag names are tolerated, never
/// fatal.
pub proof fn lemma_unrecognized_inert(m: MetaSpec, line: Seq<char>)
    requires
        unrecognized_line(line),
    ensures
        spec_apply_line(m, line) == Ok::<MetaSpec, ParseError>(m),
{
    reveal_strlit("status");
    reveal_strlit("file");
    reveal_strlit("duration");
    reveal_strlit("position");
    reveal_strlit("tag");
    assert("tag"@.len() == 3);
    assert("status"@.len() == 6);
    assert("file"@.len() == 4);
    assert("duration"@.len() == 8);
    assert("position"@.len() == 8);
}

/// Removing an unrecognized record leaves the parse unchanged: a line
/// without a newline of its own may be dropped together with the newline
/// that ends it, at any point of the response.
pub proof fn lemma_unrecognized_line_removed(m: MetaSpec, line: Seq<char>, rest: Seq<char>)
    requires
        unrecognized_line(line),
        forall|k: int| 0 <= k < line.len() ==> line[k] != '\n',
    ensures
        spec_parse_from(m, line + seq!['\n'] + rest) == spec_parse_from(m, rest),
{
    let s = line + seq!['\n'] + rest;
    assert(s[line.len() as int] == '\n');
    assert forall|k: int| 0 <= k < line.len() implies s[k] != '\n' by {
        assert(s[k] == line[k]);
    }
    lemma_idx_of_is(s, '\n', line.len() as int);
    assert(s.subrange(0, line.len() as int) =~= line);
    lemma_unrecognized_inert(m, line);
    assert(s.subrange(line.len() as int + 1, s.len() as int) =~= rest);
}

/// The numeric value of a digit character, or nothing for any other
/// character.
fn char_digit(c: char) -> (r: Option<u64>)
    ensures
        match r {
            Some(d) => is_digit(c) && d == digit_val(c),
            None => !is_digit(c),
        },
{
    if c == '0' {
        Some(0)
    } else if c == '1' {
        Some(1)
    } else if c == '2' {
        Some(2)
    } else if c == '3' {
        Some(3)
    } else if c == '4' {
        Some(4)
    } else if c == '5' {
        Some(5)
    } else if c == '6' {
        Some(6)
    } else if c == '7' {
        Some(7)
    } else if c == '8' {
        Some(8)
    } else if c == '9' {
        Some(9)
    } else {
        None
    }
}

/// Parse a numeric field of at most `max`.
fn parse_num(s: &str, max: u64) -> (r: Result<u64, ParseError>)
    requires
        1 <= max <= 0xffff_ffff,
    ensures
        match r {
            Ok(v) => v <= max && spec_parse_num(s@, max as int) == Ok::<int, ParseError>(v as int),
            Err(e) => spec_parse_num(s@, max as int) == Err::<int, ParseError>(e),
        },
{
    let len = s.unicode_len();
    if len == 0 {
        return Err(ParseError::NotANumber);
    }
    let mut i: usize = 0;
    while i < len
        invariant
            i <= len,
            len == s@.len(),
            forall|k: int| 0 <= k < i ==> is_digit(s@[k]),
        decreases len - i,
    {
        match char_digit(s.get_char(i)) {
            Some(_) => {},
            None => {
                proof {
                    assert(!is_digit(s@[i as int]));
                }
                return Err(ParseError::NotANumber);
            },
        }
        i = i + 1;
    }
    assert(all_digits(s@));
    let mut acc: u64 = 0;
    i = 0;
    while i < len
        invariant
            i <= len,
            len == s@.len(),
            all_digits(s@),
            max <= 0xffff_ffff,
            acc <= max,
            acc as int == digits_val(s@.subrange(0, i as int)),
        decreases len - i,
    {
        let d = match char_digit(s.get_char(i)) {
            Some(d) => d,
            None => unreached(),
        };
        proof {
            assert(s@.subrange(0, i + 1).drop_last() =~= s@.subrange(0, i as int));
            assert(s@.subrange(0, i + 1).last() == s@[i as int]);
        }
        let next = acc * 10 + d;
        if next > max {
            proof {
                lemma_digits_val_prefix(s@, i + 1);
            }
            return Err(ParseError::NumberTooLarge);
        }
        acc = next;
        i = i + 1;
    }
    proof {
        assert(s@.subrange(0, len as int) =~= s@);
    }
    Ok(acc)
}

/// Apply the remainder of a `tag` record to the record being built.
fn apply_tag(m: &mut Metadata, rest: &str) -> (r: Result<(), ParseError>)
    ensures
        match r {
            Ok(()) => spec_apply_tag(old(m)@, rest@) == Ok::<MetaSpec, ParseError>(final(m)@),
            Err(e) => spec_apply_tag(old(m)@, rest@) == Err::<MetaSpec, ParseError>(e),
        },
{
    let len = rest.unicode_len();
    let j = find_char(rest, 0, ' ');
    proof {
        lemma_idx_of_is(rest@, ' ', j as int);
    }
    let name = rest.substring_char(0, j);
    if j == len {
        proof {
            assert(rest@.subrange(0, rest@.len() as int) =~= rest@);
        }
        if str_eq(name, "title") || str_eq(name, "artist") || str_eq(name, "album") || str_eq(
            name,
            "date",
        ) || str_eq(name, "tracknumber") || str_eq(name, "discnumber") {
            Err(ParseError::MissingValue)
        } else {
            Ok(())
        }
    } else {
        let value = rest.substring_char(j + 1, len);
        if str_eq(name, "title") {
            m.title = String::from_str(value);
            proof {
                assert(m@ =~= MetaSpec { title: value@, ..old(m)@ });
            }
            Ok(())
        } else if str_eq(name, "artist") {
            m.artist = String::from_str(value);
            proof {
                assert(m@ =~= MetaSpec { artist: value@, ..old(m)@ });
            }
            Ok(())
        } else if str_eq(name, "album") {
            m.album = String::from_str(value);
            proof {
                assert(m@ =~= MetaSpec { album: value@, ..old(m)@ });
            }
            Ok(())
        } else if str_eq(name, "date") {
            m.date = String::from_str(value);
            proof {
                assert(m@ =~= MetaSpec { date: value@, ..old(m)@ });
            }
            Ok(())
        } else if str_eq(name, "tracknumber") {
            match parse_num(value, 255) {
                Ok(v) => {
                    m.tracknumber = v as u8;
                    proof {
                        lemma_digits_val_nonneg(value@);
                        assert(m@ =~= MetaSpec { tracknumber: digits_val(value@) as u8, ..old(m)@ });
                    }
                    Ok(())
                },
                Err(e) => Err(e),
            }
        } else if str_eq(name, "discnumber") {
            match parse_num(value, 255) {
                Ok(v) => {
                    m.discnumber = v as u8;
                    proof {
                        lemma_digits_val_nonneg(value@);
                        assert(m@ =~= MetaSpec { discnumber: digits_val(value@) as u8, ..old(m)@ });
                    }
                    Ok(())
                },
                Err(e) => Err(e),
            }
        } else {
            Ok(())
        }
    }
}

/// Apply one record line to the record being built.
fn apply_line(m: &mut Metadata, line: &str) -> (r: Result<(), ParseError>)
    ensures
        match r {
            Ok(()) => spec_apply_line(old(m)@, line@) == Ok::<MetaSpec, ParseError>(final(m)@),
            Err(e) => spec_apply_line(old(m)@, line@) == Err::<MetaSpec, ParseError>(e),
        },
{
    let len = line.unicode_len();
    if len == 0 {
        return Ok(());
    }
    let j = find_char(line, 0, ' ');
    proof {
        lemma_idx_of_is(line@, ' ', j as int);
    }
    let kw = line.substring_char(0, j);
    if j == len {
        proof {
            assert(line@.subrange(0, line@.len() as int) =~= line@);
        }
        if str_eq(kw, "status") || str_eq(kw, "file") || str_eq(kw, "duration") || str_eq(
            kw,
            "position",
        ) || str_eq(kw, "tag") {
            Err(ParseError::MissingValue)
        } else {
            Ok(())
        }
    } else {
        let rest = line.substring_char(j + 1, len);
        if str_eq(kw, "status") {
            m.status = String::from_str(rest);
            proof {
                assert(m@ =~= MetaSpec { status: rest@, ..old(m)@ });
            }
            Ok(())
        } else if str_eq(kw, "file") {
            m.file = String::from_str(rest);
            proof {
                assert(m@ =~= MetaSpec { file: rest@, ..old(m)@ });
            }
            Ok(())
        } else if str_eq(kw, "duration") {
            match parse_num(rest, 0xffff_ffff) {
                Ok(v) => {
                    m.duration = v as u32;
                    proof {
                        lemma_digits_val_nonneg(rest@);
                        assert(m@ =~= MetaSpec { duration: digits_val(rest@) as u32, ..old(m)@ });
                    }
                    Ok(())
                },
                Err(e) => Err(e),
            }
        } else if str_eq(kw, "position") {
            match parse_num(rest, 0xffff_ffff) {
                Ok(v) => {
                    m.position = v as u32;
                    proof {
                        lemma_digits_val_nonneg(rest@);
                        assert(m@ =~= MetaSpec { position: digits_val(rest@) as u32, ..old(m)@ });
                    }
                    Ok(())
                },
                Err(e) => Err(e),
            }
        } else if str_eq(kw, "tag") {
            apply_tag(m, rest)
        } else {
            Ok(())
        }
    }
}

/// Parse a whole response text into a metadata record, or report the
/// first malformed record. Fields never set by the input keep their
/// defaults.
pub fn parse(data: &str) -> (r: Result<Metadata, ParseError>)
    ensures
        match r {
            Ok(m) => spec_parse(data@) == Ok::<MetaSpec, ParseError>(m@),
            Err(e) => spec_parse(data@) == Err::<MetaSpec, ParseError>(e),
        },
{
    let len = data.unicode_len();
    let mut m = Metadata::default();
    let mut i: usize = 0;
    proof {
        assert(data@.subrange(0, len as int) =~= data@);
    }
    loop
        invariant
            i <= len,
            len == data@.len(),
            spec_parse_from(m@, data@.subrange(i as int, len as int)) == spec_parse(data@),
        decreases len - i,
    {
        let ghost rem = data@.subrange(i as int, len as int);
        let j = find_char(data, i, '\n');
        let line = data.substring_char(i, j);
        proof {
            assert forall|k: int| 0 <= k < j - i implies rem[k] != '\n' by {
                assert(rem[k] == data@[i + k]);
            }
            lemma_idx_of_is(rem, '\n', j - i);
            assert(line@ =~= rem.subrange(0, j - i));
        }
        match apply_line(&mut m, line) {
            Err(e) => {
                return Err(e);
            },
            Ok(()) => {},
        }
        if j == len {
            return Ok(m);
        }
        proof {
            assert(data@.subrange(j + 1, len as int) =~= rem.subrange(j - i + 1, rem.len() as int));
        }
        i = j + 1;
    }
}

} // verus!
