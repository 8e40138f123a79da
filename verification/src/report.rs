//! How a match is presented: one line of text for each.

use crate::config::Config;
use crate::occurrence::MatchRecord;
use vstd::prelude::*;

verus! {

/// The text that `String::from_utf8_lossy` makes of `bytes`, as UTF-8: the
/// bytes themselves where they are valid UTF-8, and the replacement character
/// in place of each part that is not.
pub uninterp spec fn utf8_lossy(bytes: Seq<u8>) -> Seq<u8>;

/// `String::from_utf8_lossy`, with the text handed back as its bytes. The
/// conversion depends on `bytes` alone.
#[verifier::external_body]
pub(crate) fn lossy_text(bytes: &[u8]) -> (text: Vec<u8>)
    ensures
        text@ == utf8_lossy(bytes@),
{
    String::from_utf8_lossy(bytes).into_owned().into_bytes()
}

/// The width to which the offset is filled up in a padded line.
pub const OFFSET_WIDTH: usize = 4;

/// The character for the digit `digit`.
pub open spec fn digit_byte(digit: nat) -> u8 {
    ('0' as u8 + digit) as u8
}

/// The decimal numeral for `number`, without leading zeros.
pub open spec fn decimal_digits(number: nat) -> Seq<u8>
    decreases number,
{
    if number < 10 {
        seq![digit_byte(number)]
    } else {
        decimal_digits(number / 10).push(digit_byte(number % 10))
    }
}

/// `count` spaces.
pub open spec fn spaces(count: nat) -> Seq<u8> {
    Seq::new(count, |index: int| ' ' as u8)
}

/// `text`, with spaces in front of it where it is shorter than `width`.
pub open spec fn right_aligned(text: Seq<u8>, width: nat) -> Seq<u8> {
    if text.len() < width {
        spaces((width - text.len()) as nat) + text
    } else {
        text
    }
}

/// What stands between the offset and the context before the match.
pub open spec fn separator() -> Seq<u8> {
    seq![':' as u8, ' ' as u8]
}

/// What stands in the line in place of the match itself.
pub open spec fn marker() -> Seq<u8> {
    seq!['[' as u8, 'M' as u8, 'A' as u8, 'T' as u8, 'C' as u8, 'H' as u8, ']' as u8]
}

/// The line for a match at `offset` whose context reads `before_text` and
/// `after_text`. With a padding, the offset is filled up to
/// [`OFFSET_WIDTH`] and that many spaces stand in front of the context, so
/// that the markers of all lines stand in one column.
pub open spec fn match_line(
    offset: nat,
    before_text: Seq<u8>,
    after_text: Seq<u8>,
    padding: Option<nat>,
) -> Seq<u8> {
    match padding {
        Some(padding) => right_aligned(decimal_digits(offset), OFFSET_WIDTH as nat) + separator()
            + spaces(padding) + before_text + marker() + after_text,
        None => decimal_digits(offset) + separator() + before_text + marker() + after_text,
    }
}

/// The padding in front of a context of `before_length` bytes: what it lacks
/// to the configured size, counted in bytes of the stream. None if lines are
/// not padded.
pub open spec fn padding_for(config: Config, before_length: nat) -> Option<nat> {
    if config.pad {
        if before_length < config.before_context {
            Some((config.before_context - before_length) as nat)
        } else {
            Some(0)
        }
    } else {
        None
    }
}

/// Appends the decimal numeral for `number`.
pub fn push_decimal(line: &mut Vec<u8>, number: u64)
    ensures
        final(line)@ == old(line)@ + decimal_digits(number as nat),
    decreases number,
{
    if number >= 10 {
        push_decimal(line, number / 10);
    }
    line.push('0' as u8 + (number % 10) as u8);
    proof {
        if number >= 10 {
            assert(line@ =~= old(line)@ + decimal_digits(number as nat));
        } else {
            assert(line@ =~= old(line)@ + decimal_digits(number as nat));
        }
    }
}

/// Appends `count` spaces.
pub fn push_spaces(line: &mut Vec<u8>, count: usize)
    ensures
        final(line)@ == old(line)@ + spaces(count as nat),
{
    let mut pushed: usize = 0;
    proof {
        assert(line@ =~= old(line)@ + spaces(0));
    }
    while pushed < count
        invariant
            pushed <= count,
            line@ == old(line)@ + spaces(pushed as nat),
        decreases count - pushed,
    {
        line.push(' ' as u8);
        pushed += 1;
        proof {
            assert(line@ =~= old(line)@ + spaces(pushed as nat));
        }
    }
}

/// Puts the line for one match together from its parts.
pub fn format_line(
    offset: u64,
    before_text: &[u8],
    after_text: &[u8],
    padding: Option<usize>,
) -> (line: Vec<u8>)
    ensures
        line@ == match_line(
            offset as nat,
            before_text@,
            after_text@,
            match padding {
                Some(padding) => Some(padding as nat),
                None => None,
            },
        ),
{
    let mut number: Vec<u8> = Vec::new();
    push_decimal(&mut number, offset);
    let mut line: Vec<u8> = Vec::new();
    match padding {
        Some(padding) => {
            if number.len() < OFFSET_WIDTH {
                push_spaces(&mut line, OFFSET_WIDTH - number.len());
            }
            line.append(&mut number);
            line.push(':' as u8);
            line.push(' ' as u8);
            push_spaces(&mut line, padding);
        },
        None => {
            line.append(&mut number);
            line.push(':' as u8);
            line.push(' ' as u8);
        },
    }
    line.extend_from_slice(before_text);
    line.push('[' as u8);
    line.push('M' as u8);
    line.push('A' as u8);
    line.push('T' as u8);
    line.push('C' as u8);
    line.push('H' as u8);
    line.push(']' as u8);
    line.extend_from_slice(after_text);
    proof {
        assert(line@ =~= match_line(
            offset as nat,
            before_text@,
            after_text@,
            match padding {
                Some(padding) => Some(padding as nat),
                None => None,
            },
        ));
    }
    line
}

/// The line that reports `record` under the settings of `config`, as UTF-8.
/// Bytes of the context that are not valid UTF-8 are replaced as
/// `String::from_utf8_lossy` replaces them.
pub fn render_match(record: &MatchRecord, config: &Config) -> (line: Vec<u8>)
    ensures
        line@ == match_line(
            record.offset as nat,
            utf8_lossy(record.before@),
            utf8_lossy(record.after@),
            padding_for(*config, record.before@.len()),
        ),
{
    let before_text = lossy_text(record.before.as_slice());
    let after_text = lossy_text(record.after.as_slice());
    let padding = if config.pad {
        if record.before.len() < config.before_context {
            Some(config.before_context - record.before.len())
        } else {
            Some(0)
        }
    } else {
        None
    };
    format_line(record.offset, before_text.as_slice(), after_text.as_slice(), padding)
}

/// In padded lines the markers stand in one column: whatever the offset below
/// ten thousand and however short the context before the match, the marker
/// starts [`OFFSET_WIDTH`] plus two plus `before_context` bytes into the line.
/// This holds where the text of the context is as long as the context itself,
/// as it is for ASCII; the padding is counted in bytes of the stream.
pub proof fn law_padded_markers_stand_in_one_column(
    config: Config,
    offset: nat,
    before_length: nat,
    before_text: Seq<u8>,
    after_text: Seq<u8>,
)
    requires
        config.pad,
        offset < 10000,
        before_length <= config.before_context,
        before_text.len() == before_length,
    ensures
        ({
            let line = match_line(
                offset,
                before_text,
                after_text,
                padding_for(config, before_length),
            );
            let column = OFFSET_WIDTH + 2 + config.before_context;
            &&& line.len() == column + marker().len() + after_text.len()
            &&& line.subrange(column, column + marker().len()) == marker()
            &&& line.subrange(column - before_length, column) == before_text
        }),
{
    reveal_with_fuel(decimal_digits, 4);
    let number = right_aligned(decimal_digits(offset), OFFSET_WIDTH as nat);
    assert(number.len() == OFFSET_WIDTH);
    let padding = (config.before_context - before_length) as nat;
    let line = match_line(offset, before_text, after_text, Some(padding));
    let column = OFFSET_WIDTH + 2 + config.before_context;
    assert(line.subrange(column, column + marker().len()) =~= marker());
    assert(line.subrange(column - before_length, column) =~= before_text);
}

} // verus!
