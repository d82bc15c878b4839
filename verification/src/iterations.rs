//! The number of rounds to train for, as given on a command line.

use vstd::prelude::*;

verus! {

/// The number of rounds where none is given or what is given cannot be read.
pub const DEFAULT_NUM_ITERS: i32 = 100_000;

/// Why a text is not a 32-bit integer.
#[derive(Copy, Clone, Debug, PartialEq, Eq, Structural)]
pub enum ParseFailure {
    /// The text is empty.
    Empty,
    /// The text is a lone sign, or holds something that is not a decimal
    /// digit after the optional sign.
    InvalidDigit,
    /// The number is above `i32::MAX`.
    PosOverflow,
    /// The number is below `i32::MIN`.
    NegOverflow,
}

/// Where the number of rounds comes from.
#[derive(Copy, Clone, Debug, PartialEq, Eq, Structural)]
pub enum IterationChoice {
    /// The argument was read as this number.
    Given(i32),
    /// The argument could not be read, for this reason.
    Unparsable(ParseFailure),
    /// There was no argument.
    Missing,
}

/// Whether the byte is an ASCII decimal digit.
pub open spec fn is_digit(byte: u8) -> bool {
    48 <= byte <= 57
}

/// The number of sign bytes at the start of a text: one for a leading `+` or
/// `-`, else none.
pub open spec fn sign_length(text: Seq<u8>) -> int {
    if text.len() > 0 && (text[0] == 43 || text[0] == 45) {
        1
    } else {
        0
    }
}

/// Whether the text starts with `-`.
pub open spec fn is_negative(text: Seq<u8>) -> bool {
    text.len() > 0 && text[0] == 45
}

/// The end of the longest run of digits that starts at `from`.
pub open spec fn digit_run(text: Seq<u8>, from: int) -> int
    decreases text.len() - from,
{
    if from >= text.len() || !is_digit(text[from]) {
        from
    } else {
        digit_run(text, from + 1)
    }
}

/// The number that the digits from `from` up to `to` write in base ten.
pub open spec fn decimal(text: Seq<u8>, from: int, to: int) -> int
    decreases to - from,
{
    if to <= from {
        0
    } else {
        10 * decimal(text, from, to - 1) + (text[to - 1] - 48)
    }
}

/// What a text reads as.
///
/// After an optional sign the longest run of digits is taken. If the number
/// it writes does not fit 32 bits the text overflows, whatever follows;
/// otherwise anything left after the run is an invalid digit.
pub open spec fn parsed(text: Seq<u8>) -> Result<i32, ParseFailure> {
    let start = sign_length(text);
    let end = digit_run(text, start);
    let magnitude = decimal(text, start, end);
    if text.len() == 0 {
        Err(ParseFailure::Empty)
    } else if text.len() == start {
        Err(ParseFailure::InvalidDigit)
    } else if is_negative(text) && -magnitude < i32::MIN {
        Err(ParseFailure::NegOverflow)
    } else if !is_negative(text) && magnitude > i32::MAX {
        Err(ParseFailure::PosOverflow)
    } else if end < text.len() {
        Err(ParseFailure::InvalidDigit)
    } else if is_negative(text) {
        Ok((-magnitude) as i32)
    } else {
        Ok(magnitude as i32)
    }
}

/// The choice that an argument leads to.
pub open spec fn chosen(arg: Option<Seq<u8>>) -> IterationChoice {
    match arg {
        None => IterationChoice::Missing,
        Some(text) => match parsed(text) {
            Ok(count) => IterationChoice::Given(count),
            Err(failure) => IterationChoice::Unparsable(failure),
        },
    }
}

/// A run of digits that is known to reach `end` and to stop there ends at
/// `end`.
pub proof fn lemma_digit_run(text: Seq<u8>, from: int, end: int)
    requires
        0 <= from <= end <= text.len(),
        forall|i: int| from <= i < end ==> is_digit(#[trigger] text[i]),
        end == text.len() || !is_digit(text[end]),
    ensures
        digit_run(text, from) == end,
    decreases end - from,
{
    if from < end {
        lemma_digit_run(text, from + 1, end);
    }
}

/// A longer run of digits never writes a smaller number.
pub proof fn lemma_decimal_grows(text: Seq<u8>, from: int, mid: int, to: int)
    requires
        0 <= from <= mid <= to <= text.len(),
        forall|i: int| from <= i < to ==> is_digit(#[trigger] text[i]),
    ensures
        0 <= decimal(text, from, mid) <= decimal(text, from, to),
    decreases to - from,
{
    if mid < to {
        lemma_decimal_grows(text, from, mid, to - 1);
        assert(is_digit(text[to - 1]));
    } else if from < mid {
        lemma_decimal_grows(text, from, mid - 1, to - 1);
        assert(is_digit(text[mid - 1]));
    }
}

/// A run holds digits only, and ends at the end of the text or before a
/// byte that is no digit.
pub proof fn lemma_digit_run_holds_digits(text: Seq<u8>, from: int)
    requires
        0 <= from <= text.len(),
    ensures
        from <= digit_run(text, from) <= text.len(),
        forall|i: int| from <= i < digit_run(text, from) ==> is_digit(#[trigger] text[i]),
        digit_run(text, from) == text.len() || !is_digit(text[digit_run(text, from)]),
    decreases text.len() - from,
{
    if from < text.len() && is_digit(text[from]) {
        lemma_digit_run_holds_digits(text, from + 1);
    }
}

/// Reads a 32-bit integer in base ten: an optional `+` or `-`, then one or
/// more digits and nothing else.
pub fn parse_i32(text: &[u8]) -> (result: Result<i32, ParseFailure>)
    ensures
        result == parsed(text@),
{
    let len: usize = text.len();
    if len == 0 {
        return Err(ParseFailure::Empty);
    }
    let negative: bool = text[0] == 45;
    let start: usize = if text[0] == 43 || text[0] == 45 {
        1
    } else {
        0
    };
    if start == len {
        return Err(ParseFailure::InvalidDigit);
    }
    let limit: i64 = if negative {
        2_147_483_648
    } else {
        2_147_483_647
    };
    let mut magnitude: i64 = 0;
    let mut i: usize = start;
    while i < len
        invariant
            start <= i <= len,
            len == text@.len(),
            start == sign_length(text@),
            negative == is_negative(text@),
            limit == (if negative {
                2_147_483_648i64
            } else {
                2_147_483_647i64
            }),
            forall|j: int| start <= j < i ==> is_digit(#[trigger] text@[j]),
            magnitude == decimal(text@, start as int, i as int),
            0 <= magnitude <= limit,
        decreases len - i,
    {
        let byte: u8 = text[i];
        if byte < 48 || byte > 57 {
            proof {
                lemma_digit_run(text@, start as int, i as int);
            }
            return Err(ParseFailure::InvalidDigit);
        }
        magnitude = magnitude * 10 + (byte - 48) as i64;
        if magnitude > limit {
            proof {
                let end = digit_run(text@, start as int);
                lemma_digit_run_holds_digits(text@, start as int);
                if end < i + 1 {
                    assert(is_digit(text@[end]));
                }
                lemma_decimal_grows(text@, start as int, i as int + 1, end);
            }
            return Err(
                if negative {
                    ParseFailure::NegOverflow
                } else {
                    ParseFailure::PosOverflow
                },
            );
        }
        i = i + 1;
    }
    proof {
        lemma_digit_run(text@, start as int, len as int);
    }
    if negative {
        Ok((-magnitude) as i32)
    } else {
        Ok(magnitude as i32)
    }
}

/// The choice of the number of rounds, from the first argument of the
/// command line if there is one.
pub fn read_num_iters(arg: Option<&[u8]>) -> (choice: IterationChoice)
    ensures
        choice == chosen(
            match arg {
                Some(text) => Some(text@),
                None => None,
            },
        ),
{
    match arg {
        Some(text) => match parse_i32(text) {
            Ok(count) => IterationChoice::Given(count),
            Err(failure) => IterationChoice::Unparsable(failure),
        },
        None => IterationChoice::Missing,
    }
}

impl IterationChoice {
    /// The number of rounds that the choice stands for.
    pub open spec fn count(self) -> i32 {
        match self {
            IterationChoice::Given(count) => count,
            _ => DEFAULT_NUM_ITERS,
        }
    }

    /// The number of rounds to train for: the number given, or the default
    /// where none was given or it could not be read.
    pub fn num_iters(self) -> (count: i32)
        ensures
            count == self.count(),
            !(self is Given) ==> count == 100_000,
    {
        match self {
            IterationChoice::Given(count) => count,
            _ => DEFAULT_NUM_ITERS,
        }
    }
}

} // verus!
