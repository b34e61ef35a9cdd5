//! A small fizz-buzz style substitution library: an ordered set of named
//! predicate rules applied to values, concatenating the substitutions of every
//! rule that matches, and falling back to the value's decimal form when none
//! does.
pub mod render;
pub mod rules;
pub mod value;

pub use rules::fizz_buzz;
pub use rules::Fizzy;
pub use rules::Matcher;
pub use value::FizzValue;
