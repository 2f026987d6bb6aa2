//! A person, made from two answers typed at a prompt.

use crate::decimal::{append_decimal, decimal, parse_unsigned, trim, trimmed, unsigned_value};
use vstd::prelude::*;

verus! {

/// A person with a name and an age in years.
#[derive(Debug)]
pub struct Person {
    pub name: String,
    pub age: u32,
}

/// The greeting for someone called `name` who is `age` years old.
pub open spec fn greeting_of(name: Seq<char>, age: nat) -> Seq<char> {
    "Hi "@ + name + ", you are "@ + decimal(age) + " years old!"@
}

impl Person {
    /// The person that two answers describe: the name is the first answer
    /// and the age the number that the second one writes, each without the
    /// whitespace around it. `None` where the second answer writes no
    /// number that an age can hold.
    pub fn from_answers(name: &str, age: &str) -> (person: Option<Person>)
        ensures
            person is Some <==> unsigned_value(trimmed(age@), u32::MAX as nat) is Some,
            person matches Some(p) ==> p.name@ == trimmed(name@) && unsigned_value(
                trimmed(age@),
                u32::MAX as nat,
            ) == Some(p.age as nat),
    {
        match parse_unsigned(trim(age), 0xFFFF_FFFF) {
            Some(years) => Some(Person { name: trim(name).to_owned(), age: years as u32 }),
            None => None,
        }
    }

    /// The greeting for this person.
    pub fn greeting(&self) -> (text: String)
        ensures
            text@ == greeting_of(self.name@, self.age as nat),
    {
        let mut text = "Hi ".to_owned();
        text.append(self.name.as_str());
        text.append(", you are ");
        append_decimal(&mut text, self.age as u64);
        text.append(" years old!");
        text
    }
}

} // verus!
