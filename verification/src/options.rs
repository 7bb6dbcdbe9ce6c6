//! Reading the options a user gave to a sub command.
use vstd::prelude::*;

use crate::commands::text_eq;

verus! {

/// The value of an option of a called command.
pub enum OptionValue {
    String(String),
    Boolean(bool),
    Integer(i64),
    /// A value of another kind (a user, a channel, a number with a fraction...).
    Other,
}

/// A named option of a called command.
pub struct CommandOption {
    pub name: String,
    pub value: OptionValue,
}

/// What a command was called with: the options of its sub command.
pub struct SubCommandData {
    pub options: Vec<CommandOption>,
}

/// The index of the first option named `name`, if any.
pub open spec fn option_index(opts: Seq<CommandOption>, name: Seq<char>, i: int) -> Option<int>
    decreases opts.len() - i,
{
    if i < 0 || i >= opts.len() {
        None
    } else if opts[i].name@ == name {
        Some(i)
    } else {
        option_index(opts, name, i + 1)
    }
}

/// Reading options by name.
pub trait GetOptionFromCommand {
    /// The text of the option named `name`, when it is there and holds a text.
    spec fn string_option(&self, name: Seq<char>) -> Option<Seq<char>>;

    /// `Some(None)` when there is no option named `name`, `Some(Some(b))` when it holds the
    /// boolean `b`, `None` when it holds something else.
    spec fn bool_option(&self, name: Seq<char>) -> Option<Option<bool>>;

    /// The text of the option named `name`.
    fn get_string(&self, name: &str) -> (s: String)
        requires
            self.string_option(name@) is Some,
        ensures
            self.string_option(name@) == Some(s@),
    ;

    /// The boolean of the option named `name`, if it was given.
    fn get_optional_bool(&self, name: &str) -> (r: Option<bool>)
        requires
            self.bool_option(name@) is Some,
        ensures
            self.bool_option(name@) == Some(r),
    ;
}

impl SubCommandData {
    fn find(&self, name: &str) -> (r: Option<usize>)
        ensures
            r matches Some(i) ==> option_index(self.options@, name@, 0) == Some(i as int) && i < self.options@.len(),
            r is None ==> option_index(self.options@, name@, 0) is None,
    {
        let mut i: usize = 0;
        while i < self.options.len()
            invariant
                i <= self.options@.len(),
                option_index(self.options@, name@, 0) == option_index(self.options@, name@, i as int),
            decreases self.options@.len() - i,
        {
            if text_eq(self.options[i].name.as_str(), name) {
                return Some(i);
            }
            i = i + 1;
        }
        None
    }
}

impl GetOptionFromCommand for SubCommandData {
    open spec fn string_option(&self, name: Seq<char>) -> Option<Seq<char>> {
        match option_index(self.options@, name, 0) {
            Some(i) => match self.options@[i].value {
                OptionValue::String(s) => Some(s@),
                _ => None,
            },
            None => None,
        }
    }

    open spec fn bool_option(&self, name: Seq<char>) -> Option<Option<bool>> {
        match option_index(self.options@, name, 0) {
            Some(i) => match self.options@[i].value {
                OptionValue::Boolean(b) => Some(Some(b)),
                _ => None,
            },
            None => Some(None),
        }
    }

    fn get_string(&self, name: &str) -> (s: String) {
        match self.find(name) {
            Some(i) => match &self.options[i].value {
                OptionValue::String(s) => s.clone(),
                _ => String::new(),
            },
            None => String::new(),
        }
    }

    fn get_optional_bool(&self, name: &str) -> (r: Option<bool>) {
        match self.find(name) {
            Some(i) => match &self.options[i].value {
                OptionValue::Boolean(b) => Some(*b),
                _ => None,
            },
            None => None,
        }
    }
}

/// A unit of time for an aggregation period.
pub struct PeriodUnit;

/// The data an aggregation step works on.
pub struct ProcessingData;

} // verus!
