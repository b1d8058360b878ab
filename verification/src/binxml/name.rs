//! Names of elements and attributes.

use crate::order::Order;
use crate::text::{clone_text, cow_str, lemma_text_order_equal, order_str, same_str, text_order};
use std::borrow::Cow;
use std::cmp::Ordering;
use vstd::prelude::*;

verus! {

/// The name of an element or of an attribute: a text that is either borrowed from the decoded
/// buffer or owned. Two names are equal when they hold the same characters, whichever way
/// they hold them, and they are ordered byte by byte.
#[derive(Debug)]
pub struct BinXmlName<'a> {
    text: Cow<'a, str>,
}

impl<'a> View for BinXmlName<'a> {
    type V = Seq<char>;

    closed spec fn view(&self) -> Seq<char> {
        self.text@
    }
}

impl<'a> BinXmlName<'a> {
    /// A name that holds `text`.
    pub fn new(text: Cow<'a, str>) -> (name: Self)
        ensures
            name@ == text@,
    {
        BinXmlName { text }
    }

    /// A name borrowed from `text`.
    pub fn from_str(text: &'a str) -> (name: Self)
        ensures
            name@ == text@,
    {
        BinXmlName { text: Cow::Borrowed(text) }
    }

    /// A name that owns `text`.
    pub fn from_string(text: String) -> (name: Self)
        ensures
            name@ == text@,
    {
        BinXmlName { text: Cow::Owned(text) }
    }

    /// The characters of the name.
    pub fn as_str(&self) -> (text: &str)
        ensures
            text@ == self@,
    {
        cow_str(&self.text)
    }

    /// Compares two names byte by byte.
    pub fn order(&self, other: &Self) -> (o: Order)
        ensures
            o == text_order(self@, other@),
    {
        order_str(self.as_str(), other.as_str())
    }
}

impl<'a> Clone for BinXmlName<'a> {
    /// A copy that holds the text the same way: borrowed from the same buffer, or owned.
    fn clone(&self) -> (copy: Self)
        ensures
            copy == *self,
    {
        BinXmlName { text: clone_text(&self.text) }
    }
}

impl<'a> PartialEq for BinXmlName<'a> {
    fn eq(&self, other: &Self) -> (same: bool) {
        same_str(self.as_str(), other.as_str())
    }
}

impl<'a> vstd::std_specs::cmp::PartialEqSpecImpl for BinXmlName<'a> {
    open spec fn obeys_eq_spec() -> bool {
        true
    }

    open spec fn eq_spec(&self, other: &Self) -> bool {
        self@ == other@
    }
}

impl<'a> PartialOrd for BinXmlName<'a> {
    fn partial_cmp(&self, other: &Self) -> (o: Option<Ordering>) {
        Some(self.order(other).to_ordering())
    }
}

impl<'a> vstd::std_specs::cmp::PartialOrdSpecImpl for BinXmlName<'a> {
    open spec fn obeys_partial_cmp_spec() -> bool {
        true
    }

    open spec fn partial_cmp_spec(&self, other: &Self) -> Option<Ordering> {
        Some(text_order(self@, other@).std_ordering())
    }
}

} // verus!
