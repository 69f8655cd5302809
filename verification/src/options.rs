//! What the program takes from its command line: its own name, the two
//! addresses and the entry name.
//!
//! The command line is parsed by `getopts`. What a `getopts::Matches` holds
//! cannot be seen from here, so it is given a name, [`occurrences`], and the
//! two methods of it that are called here are described over that name.

use vstd::prelude::*;
use crate::entry_name::{entry_name_of, has_letter, sanitize};
use crate::hex::{address_arg, parse_address, AddressError};

verus! {

/// `getopts::Matches`, the outcome of parsing a command line. Nothing is
/// known of what is inside but what [`occurrences`] names.
#[verifier::external_type_specification]
#[verifier::external_body]
pub struct ExMatches(getopts::Matches);

/// What a parsed command line holds of its options: for every name under
/// which an option was declared, short or long, the occurrences of that
/// option on the command line, in their order, each with the argument that
/// was given to it, if any. A name under which nothing was declared is not
/// in the map.
pub uninterp spec fn occurrences(matches: getopts::Matches) -> Map<
    Seq<char>,
    Seq<Option<Seq<char>>>,
>;

/// `getopts::Matches::opt_defined` says whether an option was declared under
/// the name.
pub assume_specification[ getopts::Matches::opt_defined ](
    matches: &getopts::Matches,
    name: &str,
) -> (defined: bool)
    ensures
        defined == occurrences(*matches).dom().contains(name@),
;

/// `getopts::Matches::opt_str` gives the argument of the first occurrence of
/// the option, and nothing where the option does not occur or its first
/// occurrence has no argument. It panics where no option was declared under
/// the name, so the name must be a declared one.
pub assume_specification[ getopts::Matches::opt_str ](
    matches: &getopts::Matches,
    name: &str,
) -> (argument: Option<String>)
    requires
        occurrences(*matches).dom().contains(name@),
    ensures
        text_of(argument) == first_argument(occurrences(*matches)[name@]),
;

/// The characters of a string that may be missing.
pub open spec fn text_of(text: Option<String>) -> Option<Seq<char>> {
    match text {
        Some(text) => Some(text@),
        None => None,
    }
}

/// The argument of the first of an option's occurrences.
pub open spec fn first_argument(occurrences: Seq<Option<Seq<char>>>) -> Option<Seq<char>> {
    if occurrences.len() > 0 {
        occurrences[0]
    } else {
        None
    }
}

/// The argument that the command line gives for an option: that of its first
/// occurrence. There is none where the option does not occur, where it occurs
/// without an argument, and where no such option was declared.
pub open spec fn argument_of(matches: getopts::Matches, name: Seq<char>) -> Option<Seq<char>> {
    if occurrences(matches).dom().contains(name) {
        first_argument(occurrences(matches)[name])
    } else {
        None
    }
}

/// The address that an option gives: none where the option is missing, else
/// what its argument stands for.
pub open spec fn address_option(argument: Option<Seq<char>>) -> Result<Option<u16>, AddressError> {
    match argument {
        None => Ok(None),
        Some(text) => match address_arg(text) {
            Ok(address) => Ok(Some(address)),
            Err(error) => Err(error),
        },
    }
}

/// The text that an entry name is made from: the argument of the name
/// option, or the default where there is none.
pub open spec fn name_template(argument: Option<Seq<char>>, default: Seq<char>) -> Seq<char> {
    match argument {
        Some(text) => text,
        None => default,
    }
}

/// The name of the program: the file name by which it was called, or, where
/// there is none, the name it usually goes by.
pub open spec fn progname_of(file_name: Option<Seq<char>>) -> Seq<char> {
    match file_name {
        Some(name) => name,
        None => "trs80m1-mltl"@,
    }
}

/// Figures out the name of the program from the file name, if there is one,
/// of the path by which it was called.
pub fn get_progname(file_name: Option<String>) -> (progname: String)
    ensures
        progname@ == progname_of(text_of(file_name)),
{
    match file_name {
        Some(name) => name,
        None => "trs80m1-mltl".to_owned(),
    }
}

/// Looks up the argument that the command line gives for an option.
pub fn option_argument(matches: &getopts::Matches, name: &str) -> (argument: Option<String>)
    ensures
        text_of(argument) == argument_of(*matches, name@),
{
    if matches.opt_defined(name) {
        matches.opt_str(name)
    } else {
        None
    }
}

/// Reads the address that an option gives from the option's argument.
pub fn address_from(argument: Option<String>) -> (address: Result<Option<u16>, AddressError>)
    ensures
        address == address_option(text_of(argument)),
{
    match argument {
        None => Ok(None),
        Some(text) => match parse_address(text.as_str()) {
            Ok(address) => Ok(Some(address)),
            Err(error) => Err(error),
        },
    }
}

/// Makes the entry name from the argument of the name option, or from the
/// default where there is none. The flag says whether the name holds a
/// letter.
pub fn entry_name_from(argument: Option<String>, default: &str) -> (name: (Vec<u8>, bool))
    ensures
        name.0@ == entry_name_of(name_template(text_of(argument), default@)),
        name.1 == has_letter(name_template(text_of(argument), default@)),
{
    match argument {
        Some(text) => sanitize(text.as_str()),
        None => sanitize(default),
    }
}

/// Retrieves the base address, which option `b` gives.
pub fn retrieve_base_address(matches: &getopts::Matches) -> (address: Result<
    Option<u16>,
    AddressError,
>)
    ensures
        address == address_option(argument_of(*matches, "b"@)),
{
    address_from(option_argument(matches, "b"))
}

/// Retrieves the entry point, which option `s` gives.
pub fn retrieve_entry_point(matches: &getopts::Matches) -> (address: Result<
    Option<u16>,
    AddressError,
>)
    ensures
        address == address_option(argument_of(*matches, "s"@)),
{
    address_from(option_argument(matches, "s"))
}

/// Retrieves the entry name, which is made from the argument of option `n`,
/// or from the default where the option is missing.
pub fn retrieve_tape_entry_name(default: &str, matches: &getopts::Matches) -> (name: (
    Vec<u8>,
    bool,
))
    ensures
        name.0@ == entry_name_of(name_template(argument_of(*matches, "n"@), default@)),
        name.1 == has_letter(name_template(argument_of(*matches, "n"@), default@)),
{
    entry_name_from(option_argument(matches, "n"), default)
}

} // verus!
