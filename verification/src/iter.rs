//! Walking token slices by hand: a cursor over the positional tokens among
//! raw arguments, and a cursor over a remainder's leading run.

use vstd::prelude::*;
use vstd::string::StrSliceExecFns;

use crate::model::is_positional_token;

verus! {

/// The first positional token of `args` at or after `from`, if any.
pub open spec fn find_positional_from(args: Seq<Seq<char>>, from: int) -> Option<int>
    decreases args.len() - from,
{
    if from < 0 || from >= args.len() {
        None
    } else if is_positional_token(args[from]) {
        Some(from)
    } else {
        find_positional_from(args, from + 1)
    }
}

/// A cursor over the positional tokens of a slice of raw arguments: tokens
/// that look like flags are skipped, `-` and `--` alone are handed out.
pub struct ArgumentIter<'arg> {
    args: &'arg [String],
    i: usize,
}

impl<'arg> ArgumentIter<'arg> {
    /// The tokens being walked.
    pub closed spec fn spec_args(&self) -> Seq<Seq<char>> {
        self.args.deep_view()
    }

    /// The current position.
    pub closed spec fn spec_pos(&self) -> int {
        self.i as int
    }

    /// Create a new cursor over the given arguments.
    pub fn new(args: &'arg [String]) -> (r: Self)
        ensures
            r.spec_args() == args.deep_view(),
            r.spec_pos() == 0,
    {
        ArgumentIter { args, i: 0 }
    }

    /// The next positional token, skipping anything that looks like a flag.
    pub fn next(&mut self) -> (r: Option<&'arg str>)
        ensures
            final(self).spec_args() == old(self).spec_args(),
            match r {
                Some(s) => {
                    &&& find_positional_from(old(self).spec_args(), old(self).spec_pos())
                        == Some(final(self).spec_pos() - 1)
                    &&& 0 < final(self).spec_pos() <= old(self).spec_args().len()
                    &&& s@ == old(self).spec_args()[final(self).spec_pos() - 1]
                },
                None => find_positional_from(old(self).spec_args(), old(self).spec_pos()) is None,
            },
    {
        let n = self.args.len();
        proof {
            assert(self.args.deep_view().len() == self.args@.len());
        }
        while self.i < n
            invariant
                n == self.args@.len(),
                self.args == old(self).args,
                find_positional_from(self.args.deep_view(), old(self).i as int)
                    == find_positional_from(self.args.deep_view(), self.i as int),
            decreases n - self.i,
        {
            let arg: &'arg String = &self.args[self.i];
            proof {
                assert(self.args.deep_view()[self.i as int] == self.args@[self.i as int]@);
            }
            let s = arg.as_str();
            let sn = s.unicode_len();
            let flagish = sn >= 2 && s.get_char(0) == '-' && !(sn == 2 && s.get_char(1) == '-');
            if !flagish {
                self.i = self.i + 1;
                return Some(s);
            }
            self.i = self.i + 1;
        }
        None
    }
}

/// A cursor over runs of positional tokens: hands tokens out in order and
/// answers `None` at one that looks like a flag, but still steps past it,
/// so the walk can resume on the run behind it.
pub struct RemainderIter<'a> {
    args: &'a [String],
    i: usize,
}

impl<'a> RemainderIter<'a> {
    /// The tokens being walked.
    pub closed spec fn spec_args(&self) -> Seq<Seq<char>> {
        self.args.deep_view()
    }

    /// The current position.
    pub closed spec fn spec_pos(&self) -> int {
        self.i as int
    }

    /// Create a new cursor over the given tokens.
    pub fn new(args: &'a [String]) -> (r: Self)
        ensures
            r.spec_args() == args.deep_view(),
            r.spec_pos() == 0,
    {
        RemainderIter { args, i: 0 }
    }

    /// The next token, unless the walk is past the end or the token at the
    /// cursor looks like a flag. A flag-shaped token answers `None` but is
    /// stepped past all the same.
    pub fn next(&mut self) -> (r: Option<&'a str>)
        ensures
            final(self).spec_args() == old(self).spec_args(),
            match r {
                Some(s) => {
                    &&& old(self).spec_pos() < old(self).spec_args().len()
                    &&& is_positional_token(old(self).spec_args()[old(self).spec_pos()])
                    &&& s@ == old(self).spec_args()[old(self).spec_pos()]
                    &&& final(self).spec_pos() == old(self).spec_pos() + 1
                },
                None => {
                    &&& (old(self).spec_pos() < old(self).spec_args().len() ==> {
                        &&& !is_positional_token(old(self).spec_args()[old(self).spec_pos()])
                        &&& final(self).spec_pos() == old(self).spec_pos() + 1
                    })
                    &&& (old(self).spec_pos() >= old(self).spec_args().len()
                        ==> final(self).spec_pos() == old(self).spec_pos())
                },
            },
    {
        let n = self.args.len();
        if self.i >= n {
            return None;
        }
        let arg: &'a String = &self.args[self.i];
        proof {
            assert(self.args.deep_view()[self.i as int] == self.args@[self.i as int]@);
        }
        let s = arg.as_str();
        let sn = s.unicode_len();
        let flagish = sn >= 2 && s.get_char(0) == '-' && !(sn == 2 && s.get_char(1) == '-');
        self.i = self.i + 1;
        if flagish {
            None
        } else {
            Some(s)
        }
    }
}

} // verus!
