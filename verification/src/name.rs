//! Filter names.

use vstd::prelude::*;

verus! {

/// The name under which a subscriber asked for a filter.
#[derive(Debug, PartialEq, Eq)]
pub struct FilterName {
    name: String,
}

impl View for FilterName {
    type V = Seq<char>;

    closed spec fn view(&self) -> Seq<char> {
        self.name@
    }
}

impl Clone for FilterName {
    fn clone(&self) -> (r: Self)
        ensures
            r@ == self@,
    {
        FilterName { name: self.name.clone() }
    }
}

impl FilterName {
    pub fn new(name: &str) -> (r: Self)
        ensures
            r@ == name@,
    {
        FilterName { name: name.to_owned() }
    }

    pub fn as_str(&self) -> (r: &str)
        ensures
            r@ == self@,
    {
        self.name.as_str()
    }
}

#[derive(Debug, Clone, Copy, PartialEq, Eq, Structural)]
pub enum FilterNameError {
    /// The name has more bytes than the limit allows.
    Oversized { limit: usize, size: usize },
}

/// The number of bytes of a text.
pub open spec fn byte_len(text: Seq<char>) -> usize {
    vstd::utf8::encode_utf8(text).len() as usize
}

/// Which filter names are taken.
#[derive(Debug, Clone, Copy)]
pub struct FilterNames {
    pub name_size_limit: usize,
}

impl FilterNames {
    pub fn new(name_size_limit: usize) -> (r: Self)
        ensures
            r.name_size_limit == name_size_limit,
    {
        FilterNames { name_size_limit }
    }

    /// A text is a filter name where it is not larger than the limit allows.
    pub open spec fn checked(self, name: Seq<char>) -> Result<Seq<char>, FilterNameError> {
        if byte_len(name) > self.name_size_limit {
            Err(
                FilterNameError::Oversized { limit: self.name_size_limit, size: byte_len(name) },
            )
        } else {
            Ok(name)
        }
    }

    pub fn get(&self, name: &str) -> (r: Result<FilterName, FilterNameError>)
        ensures
            match (r, self.checked(name@)) {
                (Ok(name), Ok(wanted)) => name@ == wanted,
                (Err(e), Err(wanted)) => e == wanted,
                _ => false,
            },
    {
        let size: usize = name.len();
        if size > self.name_size_limit {
            Err(FilterNameError::Oversized { limit: self.name_size_limit, size })
        } else {
            Ok(FilterName::new(name))
        }
    }
}

/// The names of a list.
pub open spec fn names_of(names: Seq<FilterName>) -> Seq<Seq<char>> {
    names.map_values(|n: FilterName| n@)
}

} // verus!
