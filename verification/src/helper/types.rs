use vstd::prelude::*;
use vstd::std_specs::cmp::PartialEqSpecImpl;

verus! {

/// The absent value. There is only one, so any two of them are equal.
#[derive(Debug, PartialEq, Eq, Structural)]
pub struct Null {}

impl Clone for Null {
    fn clone(&self) -> (copy: Null)
        ensures
            copy == *self,
    {
        Null {  }
    }
}

impl Null {
    pub fn new() -> (null: Null)
        ensures
            null == (Null {}),
    {
        Null {  }
    }

    /// The text that stands for the absent value.
    pub fn to_text(&self) -> (text: String)
        ensures
            text@ == "Null"@,
    {
        "Null".to_owned()
    }
}

/// The absent value is equal to no truth value, no integer and no text.
impl PartialEq<bool> for Null {
    fn eq(&self, _other: &bool) -> (equal: bool) {
        false
    }
}

impl PartialEqSpecImpl<bool> for Null {
    open spec fn obeys_eq_spec() -> bool {
        true
    }

    open spec fn eq_spec(&self, _other: &bool) -> bool {
        false
    }
}

impl PartialEq<Null> for bool {
    fn eq(&self, _other: &Null) -> (equal: bool) {
        false
    }
}

impl PartialEqSpecImpl<Null> for bool {
    open spec fn obeys_eq_spec() -> bool {
        true
    }

    open spec fn eq_spec(&self, _other: &Null) -> bool {
        false
    }
}

impl PartialEq<i32> for Null {
    fn eq(&self, _other: &i32) -> (equal: bool) {
        false
    }
}

impl PartialEqSpecImpl<i32> for Null {
    open spec fn obeys_eq_spec() -> bool {
        true
    }

    open spec fn eq_spec(&self, _other: &i32) -> bool {
        false
    }
}

impl PartialEq<Null> for i32 {
    fn eq(&self, _other: &Null) -> (equal: bool) {
        false
    }
}

impl PartialEqSpecImpl<Null> for i32 {
    open spec fn obeys_eq_spec() -> bool {
        true
    }

    open spec fn eq_spec(&self, _other: &Null) -> bool {
        false
    }
}

impl PartialEq<String> for Null {
    fn eq(&self, _other: &String) -> (equal: bool) {
        false
    }
}

impl PartialEqSpecImpl<String> for Null {
    open spec fn obeys_eq_spec() -> bool {
        true
    }

    open spec fn eq_spec(&self, _other: &String) -> bool {
        false
    }
}

impl PartialEq<Null> for String {
    fn eq(&self, _other: &Null) -> (equal: bool) {
        false
    }
}

impl PartialEqSpecImpl<Null> for String {
    open spec fn obeys_eq_spec() -> bool {
        true
    }

    open spec fn eq_spec(&self, _other: &Null) -> bool {
        false
    }
}

} // verus!
