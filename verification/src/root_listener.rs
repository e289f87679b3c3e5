//! The listener that the relay inherits from the process that started it.
//!
//! That process creates the loopback listener in the root network namespace and
//! hands it down as an open file descriptor, whose number it leaves in the
//! environment.

use crate::error::{Error, ErrorKind};
use crate::net::SocketAddr;
use vstd::prelude::*;

verus! {

/// The first descriptor after standard input, output and error.
pub const FIRST_INHERITABLE_FD: i32 = 3;

/// What the environment says about an inherited listener.
#[derive(Clone, Copy, Debug)]
pub enum ListenerVariable<'a> {
    NotPresent,
    NotUnicode,
    Value(&'a str),
}

/// The number that a sequence of decimal digits stands for.
pub open spec fn decimal_value(digits: Seq<char>) -> int
    decreases digits.len(),
{
    if digits.len() == 0 {
        0
    } else {
        decimal_value(digits.drop_last()) * 10 + (digits.last() as int - '0' as int)
    }
}

/// Every character is a decimal digit.
pub open spec fn are_digits(text: Seq<char>) -> bool {
    forall|i: int| 0 <= i < text.len() ==> '0' <= #[trigger] text[i] && text[i] <= '9'
}

/// The 32-bit number that a text stands for: digits, with at most one sign in
/// front of them.
pub open spec fn decimal_i32(text: Seq<char>) -> Option<int> {
    let signed = text.len() > 0 && (text[0] == '+' || text[0] == '-');
    let digits = if signed {
        text.skip(1)
    } else {
        text
    };
    let value = if signed && text[0] == '-' {
        -decimal_value(digits)
    } else {
        decimal_value(digits)
    };
    if digits.len() > 0 && are_digits(digits) && i32::MIN <= value <= i32::MAX {
        Some(value)
    } else {
        None
    }
}

/// A request that the environment makes and the relay refuses.
pub open spec fn invalid_input(message: &'static str) -> Error {
    Error { kind: ErrorKind::InvalidInput, message }
}

/// The descriptor that the environment hands down, if it hands one down.
pub open spec fn handed_down(variable: ListenerVariable) -> Result<Option<int>, Error> {
    match variable {
        ListenerVariable::NotPresent => Ok(None),
        ListenerVariable::NotUnicode => Err(invalid_input("invalid inherited listener")),
        ListenerVariable::Value(value) => match decimal_i32(value@) {
            None => Err(invalid_input("invalid listener fd")),
            Some(fd) => if fd < FIRST_INHERITABLE_FD {
                Err(invalid_input("listener fd must be at least 3"))
            } else {
                Ok(Some(fd))
            },
        },
    }
}

/// `str::parse` of std, for `i32`: an optional sign and then decimal digits, at
/// least one, whose value fits the type; anything else is an error.
#[verifier::external_body]
fn parse_i32(text: &str) -> (value: Option<i32>)
    ensures
        match value {
            Some(value) => decimal_i32(text@) == Some(value as int),
            None => decimal_i32(text@) is None,
        },
{
    text.parse::<i32>().ok()
}

/// The descriptor of the inherited listener, if there is one.
pub fn inherited_fd(variable: ListenerVariable<'_>) -> (result: Result<Option<i32>, Error>)
    ensures
        match result {
            Ok(Some(fd)) => handed_down(variable) == Ok::<Option<int>, Error>(Some(fd as int)),
            Ok(None) => handed_down(variable) == Ok::<Option<int>, Error>(None),
            Err(error) => handed_down(variable) == Err::<Option<int>, Error>(error),
        },
{
    let value: &str = match variable {
        ListenerVariable::NotPresent => return Ok(None),
        ListenerVariable::NotUnicode => return Err(
            Error { kind: ErrorKind::InvalidInput, message: "invalid inherited listener" },
        ),
        ListenerVariable::Value(value) => value,
    };
    match parse_i32(value) {
        None => Err(Error { kind: ErrorKind::InvalidInput, message: "invalid listener fd" }),
        Some(fd) => if fd < FIRST_INHERITABLE_FD {
            Err(
                Error { kind: ErrorKind::InvalidInput, message: "listener fd must be at least 3" },
            )
        } else {
            Ok(Some(fd))
        },
    }
}

/// Checks that an inherited listener listens where it should: on the loopback
/// interface and on the relay's port.
pub fn check_address(address: &SocketAddr, port: u16) -> (result: Result<(), Error>)
    ensures
        match result {
            Ok(()) => address@.is_loopback() && address@.port() == port,
            Err(error) => {
                &&& !(address@.is_loopback() && address@.port() == port)
                &&& error == invalid_input("inherited listener must match the loopback port")
            },
        },
{
    if !address.is_loopback() || address.port() != port {
        return Err(
            Error {
                kind: ErrorKind::InvalidInput,
                message: "inherited listener must match the loopback port",
            },
        );
    }
    Ok(())
}

/// Law: a digit behind digits makes them count tenfold; so every sequence of
/// digits has the value that it is written for.
pub proof fn law_digits_count_by_their_place(digits: Seq<char>, digit: char)
    ensures
        decimal_value(Seq::<char>::empty()) == 0,
        decimal_value(digits.push(digit)) == 10 * decimal_value(digits) + (digit as int - 48),
{
    assert(digits.push(digit).drop_last() =~= digits);
}

/// Law: digits alone, and with a plus in front, stand for their value, and with a
/// minus in front for its negative, as far as it fits 32 bits.
pub proof fn law_signs_of_numbers(digits: Seq<char>)
    requires
        digits.len() > 0,
        forall|i: int| 0 <= i < digits.len() ==> 48 <= #[trigger] digits[i] as int <= 57,
    ensures
        decimal_value(digits) >= 0,
        decimal_i32(digits) == if decimal_value(digits) <= 0x7fff_ffff {
            Some(decimal_value(digits))
        } else {
            None
        },
        decimal_i32(seq!['+'] + digits) == decimal_i32(digits),
        decimal_i32(seq!['-'] + digits) == if decimal_value(digits) <= 0x8000_0000 {
            Some(-decimal_value(digits))
        } else {
            None
        },
{
    lemma_digits_are_not_negative(digits);
    assert(digits[0] as int >= 48);
    assert((seq!['+'] + digits).skip(1) =~= digits);
    assert((seq!['-'] + digits).skip(1) =~= digits);
    assert((seq!['+'] + digits)[0] == '+');
    assert((seq!['-'] + digits)[0] == '-');
}

/// No sequence of digits is negative.
proof fn lemma_digits_are_not_negative(digits: Seq<char>)
    requires
        forall|i: int| 0 <= i < digits.len() ==> 48 <= #[trigger] digits[i] as int <= 57,
    ensures
        decimal_value(digits) >= 0,
    decreases digits.len(),
{
    if digits.len() > 0 {
        assert(digits.last() == digits[digits.len() - 1]);
        assert forall|i: int| 0 <= i < digits.drop_last().len() implies 48
            <= #[trigger] digits.drop_last()[i] as int <= 57 by {
            assert(digits.drop_last()[i] == digits[i]);
        }
        lemma_digits_are_not_negative(digits.drop_last());
    }
}

/// Law: a text with anything but digits behind its first character, or with
/// neither a digit nor a sign there, or without a digit, stands for no number.
pub proof fn law_other_texts_are_no_numbers(text: Seq<char>, at: int)
    requires
        ({
            ||| text.len() == 0
            ||| 0 < at < text.len() && !(48 <= text[at] as int <= 57)
            ||| !(48 <= text[0] as int <= 57) && text[0] != '+' && text[0] != '-'
            ||| !(48 <= text[0] as int <= 57) && text.len() == 1
        }),
    ensures
        decimal_i32(text) is None,
{
    let signed: bool = text.len() > 0 && (text[0] == '+' || text[0] == '-');
    let digits: Seq<char> = if signed {
        text.skip(1)
    } else {
        text
    };
    if 0 < at < text.len() && !(48 <= text[at] as int <= 57) {
        let place: int = if signed {
            at - 1
        } else {
            at
        };
        assert(digits[place] == text[at]);
    } else if text.len() > 0 && !signed {
        assert(digits[0] == text[0]);
    }
}

/// Law: every number from three on that the environment holds is the descriptor
/// that is taken over; a smaller one, another text and no text at all are refused,
/// each for its own reason, and without the variable there is no listener.
pub proof fn law_descriptor_is_the_number_in_the_environment(text: &str)
    ensures
        handed_down(ListenerVariable::NotPresent) == Ok::<Option<int>, Error>(None),
        handed_down(ListenerVariable::NotUnicode) == Err::<Option<int>, Error>(
            Error { kind: ErrorKind::InvalidInput, message: "invalid inherited listener" },
        ),
        decimal_i32(text@) is None ==> handed_down(ListenerVariable::Value(text)) == Err::<
            Option<int>,
            Error,
        >(Error { kind: ErrorKind::InvalidInput, message: "invalid listener fd" }),
        decimal_i32(text@) matches Some(fd) ==> if fd >= 3 {
            handed_down(ListenerVariable::Value(text)) == Ok::<Option<int>, Error>(Some(fd))
        } else {
            handed_down(ListenerVariable::Value(text)) == Err::<Option<int>, Error>(
                Error { kind: ErrorKind::InvalidInput, message: "listener fd must be at least 3" },
            )
        },
        invalid_input("inherited listener must match the loopback port") == (Error {
            kind: ErrorKind::InvalidInput,
            message: "inherited listener must match the loopback port",
        }),
{
}

} // verus!
