//! Tags: the names by which an argument slot is reached.
//!
//! A slot's CLI identity is a [`Cli`] value (short flag, long flag, or both);
//! a [`Full`] tag joins an optional CLI identity with an optional
//! environment-variable name plus presentation metadata (documentation and a
//! rendered default value) that plays no part in resolution.

use vstd::prelude::*;
use vstd::string::StrSliceExecFns;
use vstd::string::StringExecFns;

verus! {

/// A CLI argument tag: `Short` means one dash and one character (`-h`),
/// `Long` means two dashes and a name (`--help`), `Both` means both.
#[derive(Debug, Clone)]
pub enum Cli {
    /// A short-form tag, e.g. `-h`.
    Short(char),
    /// A long-form tag, e.g. `--help`.
    Long(String),
    /// Both a short- and a long-form tag.
    Both(char, String),
}

/// The mathematical shape of a [`Cli`] tag: strings become char sequences.
pub enum CliView {
    /// View of [`Cli::Short`].
    Short(char),
    /// View of [`Cli::Long`].
    Long(Seq<char>),
    /// View of [`Cli::Both`].
    Both(char, Seq<char>),
}

impl View for Cli {
    type V = CliView;

    open spec fn view(&self) -> CliView {
        match self {
            Cli::Short(c) => CliView::Short(*c),
            Cli::Long(l) => CliView::Long(l@),
            Cli::Both(c, l) => CliView::Both(*c, l@),
        }
    }
}

/// Whether a CLI tag has a long component equal to `long`.
pub open spec fn cli_matches_long(t: CliView, long: Seq<char>) -> bool {
    match t {
        CliView::Short(_) => false,
        CliView::Long(l) => l == long,
        CliView::Both(_, l) => l == long,
    }
}

/// Whether a CLI tag has a short component equal to `short`.
pub open spec fn cli_matches_short(t: CliView, short: char) -> bool {
    match t {
        CliView::Short(s) => s == short,
        CliView::Long(_) => false,
        CliView::Both(s, _) => s == short,
    }
}

/// Whether a raw token (dashes still present) matches a CLI tag: `--name`
/// against the long component, `-c` — a single dash with exactly one
/// character remaining — against the short component, anything else not at
/// all.
pub open spec fn cli_matches_token(t: CliView, tok: Seq<char>) -> bool {
    if tok.len() >= 2 && tok[0] == '-' && tok[1] == '-' {
        cli_matches_long(t, tok.subrange(2, tok.len() as int))
    } else if tok.len() == 2 && tok[0] == '-' {
        cli_matches_short(t, tok[1])
    } else {
        false
    }
}

impl Cli {
    /// Create a [`Full`] from a [`Cli`], attaching an environment name.
    pub fn env(self, env: String) -> (r: Full)
        ensures
            r@ == (FullView {
                cli: Some(self@),
                env: Some(env@),
                doc: None::<Seq<char>>,
                default: None::<Seq<char>>,
            }),
    {
        Full { cli: Some(self), env: Some(env), doc: None, default: None }
    }

    /// Returns whether or not the given tag matches, leading dashes included.
    /// Automatically determines if it is a short or long tag.
    pub fn matches(&self, tag: &str) -> (r: bool)
        ensures
            r == cli_matches_token(self@, tag@),
    {
        let n = tag.unicode_len();
        if n >= 2 && tag.get_char(0) == '-' {
            if tag.get_char(1) == '-' {
                self.matches_long(tag.substring_char(2, n))
            } else if n == 2 {
                self.matches_short(tag.get_char(1))
            } else {
                false
            }
        } else {
            false
        }
    }

    /// Returns whether the given long-form tag matches. Assumes that the
    /// leading `--` has been stripped.
    pub fn matches_long(&self, long: &str) -> (r: bool)
        ensures
            r == cli_matches_long(self@, long@),
    {
        match self {
            Cli::Short(_) => false,
            Cli::Long(l) => crate::strutil::str_eq(l.as_str(), long),
            Cli::Both(_, l) => crate::strutil::str_eq(l.as_str(), long),
        }
    }

    /// Returns whether the given short-form tag matches. Assumes that the
    /// leading `-` has been stripped.
    pub fn matches_short(&self, short: char) -> (r: bool)
        ensures
            r == cli_matches_short(self@, short),
    {
        match self {
            Cli::Short(s) => *s == short,
            Cli::Long(_) => false,
            Cli::Both(s, _) => *s == short,
        }
    }
}

/// Whether two CLI identities reach the same slot: their short characters
/// or their long strings coincide; partial overlap through `Both` counts as
/// a match on either component.
pub open spec fn cli_same_slot(a: CliView, b: CliView) -> bool {
    match a {
        CliView::Short(s) => match b {
            CliView::Short(o) => s == o,
            CliView::Both(o, _) => s == o,
            CliView::Long(_) => false,
        },
        CliView::Long(l) => match b {
            CliView::Long(o) => l == o,
            CliView::Both(_, o) => l == o,
            CliView::Short(_) => false,
        },
        CliView::Both(s, l) => match b {
            CliView::Short(o) => s == o,
            CliView::Long(o) => l == o,
            CliView::Both(o1, o2) => s == o1 || l == o2,
        },
    }
}

impl PartialEq for Cli {
    /// Two CLI identities are equal when they reach the same slot, so a
    /// `Both` tag equals a bare `Short` or `Long` that shares a component.
    fn eq(&self, other: &Self) -> (r: bool) {
        match self {
            Cli::Short(s) => match other {
                Cli::Short(o) => *s == *o,
                Cli::Both(o, _) => *s == *o,
                Cli::Long(_) => false,
            },
            Cli::Long(l) => match other {
                Cli::Long(o) => crate::strutil::str_eq(l.as_str(), o.as_str()),
                Cli::Both(_, o) => crate::strutil::str_eq(l.as_str(), o.as_str()),
                Cli::Short(_) => false,
            },
            Cli::Both(s, l) => match other {
                Cli::Short(o) => *s == *o,
                Cli::Long(o) => crate::strutil::str_eq(l.as_str(), o.as_str()),
                Cli::Both(o1, o2) => *s == *o1 || crate::strutil::str_eq(
                    l.as_str(),
                    o2.as_str(),
                ),
            },
        }
    }
}

impl vstd::std_specs::cmp::PartialEqSpecImpl for Cli {
    open spec fn obeys_eq_spec() -> bool {
        true
    }

    open spec fn eq_spec(&self, other: &Self) -> bool {
        cli_same_slot(self@, other@)
    }
}

/// An argument name that may have a CLI component, an environment-variable
/// component, or both. Create with [`short`], [`long`], [`both`] and
/// [`env`](env()).
#[derive(Debug, Clone)]
pub struct Full {
    pub(crate) cli: Option<Cli>,
    pub(crate) env: Option<String>,
    /// The documentation for this argument, used only for presentation.
    pub doc: Option<String>,
    /// The rendered default value for this argument, used only for
    /// presentation.
    pub(crate) default: Option<String>,
}

/// The mathematical shape of a [`Full`] tag.
pub struct FullView {
    /// View of the CLI component.
    pub cli: Option<CliView>,
    /// View of the environment-variable name.
    pub env: Option<Seq<char>>,
    /// View of the documentation text.
    pub doc: Option<Seq<char>>,
    /// View of the rendered default value.
    pub default: Option<Seq<char>>,
}

impl View for Full {
    type V = FullView;

    closed spec fn view(&self) -> FullView {
        FullView {
            cli: match self.cli {
                Some(ref c) => Some(c@),
                None => None,
            },
            env: match self.env {
                Some(ref e) => Some(e@),
                None => None,
            },
            doc: match self.doc {
                Some(ref d) => Some(d@),
                None => None,
            },
            default: match self.default {
                Some(ref d) => Some(d@),
                None => None,
            },
        }
    }
}

/// Links a tag's fields to its view, for the crate's other modules.
pub(crate) proof fn lemma_full_view(t: &Full)
    ensures
        t@.cli == (match t.cli {
            Some(ref c) => Some(c@),
            None => None::<CliView>,
        }),
        t@.env == (match t.env {
            Some(ref e) => Some(e@),
            None => None::<Seq<char>>,
        }),
        t@.doc == (match t.doc {
            Some(ref d) => Some(d@),
            None => None::<Seq<char>>,
        }),
        t@.default == (match t.default {
            Some(ref d) => Some(d@),
            None => None::<Seq<char>>,
        }),
{
}

/// Whether a full tag's CLI component matches the given long name.
pub open spec fn full_matches_long(t: FullView, long: Seq<char>) -> bool {
    match t.cli {
        Some(c) => cli_matches_long(c, long),
        None => false,
    }
}

/// Whether a full tag's CLI component matches the given short character.
pub open spec fn full_matches_short(t: FullView, short: char) -> bool {
    match t.cli {
        Some(c) => cli_matches_short(c, short),
        None => false,
    }
}

/// Whether a full tag's environment component matches the given name.
pub open spec fn full_matches_env(t: FullView, env: Seq<char>) -> bool {
    t.env == Some(env)
}

/// Create a tag with just a short variant.
pub fn short(s: char) -> (r: Full)
    ensures
        r@ == (FullView {
            cli: Some(CliView::Short(s)),
            env: None::<Seq<char>>,
            doc: None::<Seq<char>>,
            default: None::<Seq<char>>,
        }),
{
    Full { cli: Some(Cli::Short(s)), env: None, doc: None, default: None }
}

/// Create a tag with just a long variant.
pub fn long(l: &str) -> (r: Full)
    ensures
        r@ == (FullView {
            cli: Some(CliView::Long(l@)),
            env: None::<Seq<char>>,
            doc: None::<Seq<char>>,
            default: None::<Seq<char>>,
        }),
{
    Full { cli: Some(Cli::Long(String::from_str(l))), env: None, doc: None, default: None }
}

/// Create a tag with both short and long variants.
pub fn both(s: char, l: &str) -> (r: Full)
    ensures
        r@ == (FullView {
            cli: Some(CliView::Both(s, l@)),
            env: None::<Seq<char>>,
            doc: None::<Seq<char>>,
            default: None::<Seq<char>>,
        }),
{
    Full { cli: Some(Cli::Both(s, String::from_str(l))), env: None, doc: None, default: None }
}

/// Create an environment variable argument.
pub fn env(e: &str) -> (r: Full)
    ensures
        r@ == (FullView {
            cli: None::<CliView>,
            env: Some(e@),
            doc: None::<Seq<char>>,
            default: None::<Seq<char>>,
        }),
{
    Full { cli: None, env: Some(String::from_str(e)), doc: None, default: None }
}

impl From<Cli> for Full {
    /// A bare CLI identity: no environment name and no presentation
    /// metadata.
    fn from(tag: Cli) -> (r: Self)
        ensures
            r@ == (FullView {
                cli: Some(tag@),
                env: None::<Seq<char>>,
                doc: None::<Seq<char>>,
                default: None::<Seq<char>>,
            }),
    {
        Full { cli: Some(tag), env: None, doc: None, default: None }
    }
}

impl vstd::std_specs::convert::FromSpecImpl<Cli> for Full {
    open spec fn obeys_from_spec() -> bool {
        true
    }

    closed spec fn from_spec(tag: Cli) -> Full {
        Full { cli: Some(tag), env: None, doc: None, default: None }
    }
}

impl Full {
    /// Add a CLI component.
    pub fn cli(self, tag: Cli) -> (r: Full)
        ensures
            r@ == (FullView { cli: Some(tag@), ..self@ }),
    {
        Full { cli: Some(tag), ..self }
    }

    /// Add an environment variable component.
    pub fn env(self, name: &str) -> (r: Full)
        ensures
            r@ == (FullView { env: Some(name@), ..self@ }),
    {
        Full { env: Some(String::from_str(name)), ..self }
    }

    /// Add documentation to the argument. If `doc` is empty, instead removes
    /// any documentation.
    pub fn doc(self, doc: &str) -> (r: Full)
        ensures
            doc@.len() == 0 ==> r@ == (FullView { doc: None::<Seq<char>>, ..self@ }),
            doc@.len() > 0 ==> r@ == (FullView { doc: Some(doc@), ..self@ }),
    {
        if doc.unicode_len() == 0 {
            Full { doc: None, ..self }
        } else {
            Full { doc: Some(String::from_str(doc)), ..self }
        }
    }

    /// Add a rendered default value to the argument.
    pub fn default_value(self, default: &str) -> (r: Full)
        ensures
            r@ == (FullView { default: Some(default@), ..self@ }),
    {
        Full { default: Some(String::from_str(default)), ..self }
    }

    /// Remove the rendered default value for the argument.
    pub fn clear_default_value(self) -> (r: Full)
        ensures
            r@ == (FullView { default: None::<Seq<char>>, ..self@ }),
    {
        Full { default: None, ..self }
    }

    /// Returns whether or not this tag has a CLI component.
    pub fn has_cli(&self) -> (r: bool)
        ensures
            r == (self@.cli is Some),
    {
        self.cli.is_some()
    }

    /// Returns whether or not this tag has an environment variable component.
    pub fn has_env(&self) -> (r: bool)
        ensures
            r == (self@.env is Some),
    {
        self.env.is_some()
    }

    /// Returns whether or not the CLI component matches the given tag,
    /// leading dashes included.
    pub fn matches_cli(&self, tag: &str) -> (r: bool)
        ensures
            r == match self@.cli {
                Some(c) => cli_matches_token(c, tag@),
                None => false,
            },
    {
        match &self.cli {
            Some(c) => c.matches(tag),
            None => false,
        }
    }

    /// Returns whether or not the CLI component matches the given long-form
    /// tag; assumes that the leading `--` has been stripped.
    pub fn matches_long(&self, long: &str) -> (r: bool)
        ensures
            r == full_matches_long(self@, long@),
    {
        match &self.cli {
            Some(c) => c.matches_long(long),
            None => false,
        }
    }

    /// Returns whether or not the CLI component matches the given short-form
    /// tag; assumes that the leading `-` has been stripped.
    pub fn matches_short(&self, short: char) -> (r: bool)
        ensures
            r == full_matches_short(self@, short),
    {
        match &self.cli {
            Some(c) => c.matches_short(short),
            None => false,
        }
    }

    /// Returns whether or not the environment variable component matches the
    /// given name.
    pub fn matches_env(&self, env: &str) -> (r: bool)
        ensures
            r == full_matches_env(self@, env@),
    {
        match &self.env {
            Some(e) => crate::strutil::str_eq(e.as_str(), env),
            None => false,
        }
    }
}

} // verus!
