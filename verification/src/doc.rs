//! Per-argument documentation: a body of text and an optional value name,
//! plus the measured layout of one rendered argument line.

use vstd::prelude::*;
use vstd::string::StrSliceExecFns;
use vstd::string::StringExecFns;

verus! {

/// The measured layout of one rendered argument line.
#[derive(Debug, Clone, Copy, PartialEq, Eq)]
pub struct ArgFmt {
    /// The width of the string, in characters.
    pub width: usize,
    /// The number of lines used.
    pub height: usize,
    /// The width of the long variant, if any, without the leading dashes.
    pub long_width: Option<usize>,
    /// Whether or not the argument has a short form.
    pub short: bool,
}

impl ArgFmt {
    /// A fresh layout: nothing measured yet, only whether a short form
    /// exists.
    pub fn new(short: bool) -> (r: Self)
        ensures
            r == (ArgFmt { width: 0, height: 0, long_width: None::<usize>, short }),
    {
        ArgFmt { width: 0, height: 0, long_width: None, short }
    }
}

/// Documentation for one argument: a body of text, and optionally the name
/// of the value the argument takes.
#[derive(Debug, Clone, PartialEq, Eq)]
pub struct Doc {
    body: String,
    val: Option<String>,
}

impl Doc {
    /// The body text, as a character sequence.
    pub closed spec fn spec_body(&self) -> Seq<char> {
        self.body@
    }

    /// The value name, as a character sequence.
    pub closed spec fn spec_val(&self) -> Option<Seq<char>> {
        match self.val {
            None => None,
            Some(ref v) => Some(v@),
        }
    }

    /// Create a new `Doc` with a body. To add a value name, see
    /// [`Doc::val`].
    pub fn new(body: &str) -> (r: Self)
        ensures
            r.spec_body() == body@,
            r.spec_val() is None,
    {
        Doc { body: String::from_str(body), val: None }
    }

    /// Update the body of this documentation.
    pub fn body(self, body: &str) -> (r: Self)
        ensures
            r.spec_body() == body@,
            r.spec_val() == self.spec_val(),
    {
        Doc { body: String::from_str(body), ..self }
    }

    /// Update the name of the value associated with this argument.
    pub fn val(self, val: &str) -> (r: Self)
        ensures
            r.spec_body() == self.spec_body(),
            r.spec_val() == Some(val@),
    {
        Doc { val: Some(String::from_str(val)), ..self }
    }

    /// Delete the value associated with this argument, if any, and hand it
    /// back.
    pub fn no_val(&mut self) -> (r: Option<String>)
        ensures
            final(self).spec_val() is None,
            final(self).spec_body() == old(self).spec_body(),
            match r {
                None => old(self).spec_val() is None,
                Some(v) => old(self).spec_val() == Some(v@),
            },
    {
        self.val.take()
    }

    /// Formats the documentation: the value name, if any, followed by the
    /// body.
    pub fn format(&self) -> (r: String)
        ensures
            r@ == match self.spec_val() {
                Some(v) => v + self.spec_body(),
                None => self.spec_body(),
            },
    {
        match &self.val {
            Some(v) => v.clone().concat(self.body.as_str()),
            None => self.body.clone(),
        }
    }
}

} // verus!
