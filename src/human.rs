//! A person with a name, an age, a weight and an email address.
use vstd::prelude::*;
use crate::text::GMAIL_SUFFIX;

verus! {

pub struct Human {
    pub name: String,
    pub age: usize,
    pub weight: i32,
    pub email: String,
}

impl Human {
    /// A newborn: age 0, the given name and weight, and an email made of the
    /// name followed by `@gmail.com`.
    pub fn baby(name: String, weight: i32) -> (r: Human)
        ensures
            r.name@ == name@,
            r.weight == weight,
            r.age == 0,
            r.email@ == name@ + GMAIL_SUFFIX@,
    {
        let email = name.clone().concat(GMAIL_SUFFIX);
        Human { email, name, weight, age: 0 }
    }
}

} // verus!
