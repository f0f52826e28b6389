//! A person with a name, an age and an email address, with a setter and a few
//! questions about the email's provider.
use vstd::prelude::*;
use crate::text::{ends_with, has_suffix, GMAIL_SUFFIX};

verus! {

/// The domain of a Gmail address.
pub const GMAIL_DOMAIN: &'static str = "gmail.com";

/// The domain of a Yahoo address.
pub const YAHOO_DOMAIN: &'static str = "yahoo.com";

pub struct Human {
    pub name: String,
    pub age: usize,
    pub email: String,
}

impl Human {
    /// A newborn: age 0, the given name, and an email made of the name
    /// followed by `@gmail.com`.
    pub fn baby(name: String) -> (r: Human)
        ensures
            r.name@ == name@,
            r.age == 0,
            r.email@ == name@ + GMAIL_SUFFIX@,
    {
        let email = name.clone().concat(GMAIL_SUFFIX);
        Human { email, name, age: 0 }
    }

    /// Whether the email ends with `gmail.com`.
    pub fn uses_gmail(&self) -> (r: bool)
        ensures
            r == has_suffix(self.email@, GMAIL_DOMAIN@),
    {
        ends_with(self.email.as_str(), GMAIL_DOMAIN)
    }

    /// Whether the email ends with `yahoo.com`.
    pub fn uses_yahoo(&self) -> (r: bool)
        ensures
            r == has_suffix(self.email@, YAHOO_DOMAIN@),
    {
        ends_with(self.email.as_str(), YAHOO_DOMAIN)
    }

    /// Replaces the name, leaving the other fields as they were.
    pub fn set_name(&mut self, new_name: String)
        ensures
            final(self).name@ == new_name@,
            final(self).age == old(self).age,
            final(self).email@ == old(self).email@,
    {
        self.name = new_name;
    }

    /// Whether the two people have the same name.
    pub fn has_same_name(&self, other: &Human) -> (r: bool)
        ensures
            r == (self.name@ == other.name@),
    {
        self.name == other.name
    }
}

} // verus!
