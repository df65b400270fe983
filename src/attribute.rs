//! A name/value pair of a start tag, built one character at a time.
use vstd::prelude::*;

use crate::text::push_char;

verus! {

/// What an attribute holds: its name and its value, as sequences of scalar values.
pub struct AttributeModel {
    pub name: Seq<char>,
    pub value: Seq<char>,
}

#[derive(PartialEq, Debug)]
pub struct Attribute {
    name: String,
    value: String,
}

impl View for Attribute {
    type V = AttributeModel;

    closed spec fn view(&self) -> AttributeModel {
        AttributeModel { name: self.name@, value: self.value@ }
    }
}

impl Attribute {
    pub fn new() -> (r: Self)
        ensures
            r@ == (AttributeModel { name: Seq::empty(), value: Seq::empty() }),
    {
        Self { name: String::new(), value: String::new() }
    }

    /// Appends `ch` to the name when `is_name` holds, else to the value.
    pub fn add_char(&mut self, ch: char, is_name: bool)
        ensures
            is_name ==> final(self)@ == (AttributeModel {
                name: old(self)@.name.push(ch),
                value: old(self)@.value,
            }),
            !is_name ==> final(self)@ == (AttributeModel {
                name: old(self)@.name,
                value: old(self)@.value.push(ch),
            }),
    {
        if is_name {
            push_char(&mut self.name, ch);
        } else {
            push_char(&mut self.value, ch);
        }
    }

    pub fn name(&self) -> (r: String)
        ensures
            r@ == self@.name,
    {
        self.name.clone()
    }

    pub fn value(&self) -> (r: String)
        ensures
            r@ == self@.value,
    {
        self.value.clone()
    }
}

impl Default for Attribute {
    fn default() -> (r: Self)
        ensures
            r@ == (AttributeModel { name: Seq::empty(), value: Seq::empty() }),
    {
        Self::new()
    }
}

} // verus!
