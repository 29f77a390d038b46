//! A command-line and environment-variable argument resolution engine.
//!
//! Callers declare typed argument slots on an [`ArgumentReader`], resolve a
//! token stream and environment pairs into an [`Arguments`] snapshot, and
//! read typed values back through [`ArgumentRef`] handles. The whole
//! resolution — tag matching, the environment overlay, the CLI tokenizer
//! with short-flag clustering, and the projection of raw states into typed
//! values — is specified in [`model`] and proved.

use vstd::prelude::*;

pub mod tag;

pub mod doc;
mod error;
pub mod help;
pub mod iter;
pub mod laws;
pub mod model;
pub mod num;
pub mod strutil;
pub mod types;

pub use error::ArgParseError;
pub use error::ErrorView;
pub use types::{ArgResult, ArgumentType, DefaultedArgResult, NoError};

use model::{
    apply_env_pair, cli_pass, cluster_step, env_pass, find_env, find_env_from, find_long,
    find_long_from, find_short, find_short_from, is_cluster_token, long_inline, long_name,
    no_seen, resolve,
    set_cli_value, with_remainder_prefix, SlotView,
};
use strutil::{char_to_string, join_with_comma, str_find_char};
use tag::FullView;
use vstd::string::StrSliceExecFns;
use vstd::string::StringExecFns;

verus! {

/// One declared slot: its tag, the two fixed properties of its value type,
/// and its raw resolved state.
#[derive(Debug, Clone)]
pub(crate) struct InternalArgument {
    pub(crate) tag: tag::Full,
    pub(crate) consumes: bool,
    pub(crate) repeatable: bool,
    pub(crate) val: Option<Option<String>>,
}

impl View for InternalArgument {
    type V = SlotView;

    closed spec fn view(&self) -> SlotView {
        SlotView {
            tag: self.tag@,
            consumes: self.consumes,
            repeatable: self.repeatable,
            val: match self.val {
                None => None,
                Some(None) => Some(None),
                Some(Some(ref s)) => Some(Some(s@)),
            },
        }
    }
}

/// The results of resolution: the slots with their final raw states, and the
/// remainder tokens.
#[derive(Debug, Clone)]
pub struct Arguments {
    pub(crate) args: Vec<InternalArgument>,
    pub(crate) remainder: Vec<String>,
}

/// The mathematical shape of an [`Arguments`].
pub struct ArgumentsView {
    /// The slots with their final raw states.
    pub slots: Seq<SlotView>,
    /// The remainder tokens, in their original relative order.
    pub remainder: Seq<Seq<char>>,
}

impl View for Arguments {
    type V = ArgumentsView;

    closed spec fn view(&self) -> ArgumentsView {
        ArgumentsView {
            slots: self.args@.map_values(|a: InternalArgument| a@),
            remainder: self.remainder.deep_view(),
        }
    }
}

impl Arguments {
    /// All the CLI tokens that didn't get consumed as part of an argument,
    /// in their original relative order.
    pub fn remainder(&self) -> (r: &Vec<String>)
        ensures
            r.deep_view() == self@.remainder,
    {
        &self.remainder
    }
}

/// A typed handle to one declared slot: an index into the registry plus the
/// target type. Use it to read the slot's value out of an [`Arguments`].
#[derive(Debug)]
pub struct ArgumentRef<T: ArgumentType> {
    i: usize,
    _marker: core::marker::PhantomData<T>,
}

impl<T: ArgumentType> ArgumentRef<T> {
    /// The index of the slot this handle refers to.
    pub closed spec fn slot_index(&self) -> int {
        self.i as int
    }

    /// What [`ArgumentRef::get`] may return for a slot in raw state
    /// `slot.val`: the value contract applied to the raw value when set, the
    /// contract default when unset.
    pub open spec fn get_post(slot: SlotView, r: ArgResult<T>) -> bool {
        T::obeys_contract() ==> match slot.val {
            Some(v) => T::from_value_ensures(v, r),
            None => match r {
                None => T::default_value_ensures(None),
                Some(Ok(x)) => T::default_value_ensures(Some(x)),
                Some(Err(_)) => false,
            },
        }
    }

    /// Retrieve the value of the argument from an [`Arguments`]: `None` when
    /// the slot is unset and the type has no contract default, otherwise the
    /// parse outcome (for `String` and `bool` it can never fail).
    pub fn get(&self, args: &Arguments) -> (r: ArgResult<T>)
        requires
            self.slot_index() < args@.slots.len(),
        ensures
            Self::get_post(args@.slots[self.slot_index()], r),
    {
        let arg = &args.args[self.i];
        match &arg.val {
            Some(val) => match val {
                Some(s) => T::from_value(Some(s.as_str())),
                None => T::from_value(None),
            },
            None => match T::default_value() {
                Some(v) => Some(Ok(v)),
                None => None,
            },
        }
    }

    /// What [`ArgumentRef::get_or`] may return: the caller default when the
    /// slot is unset (or parses to "absent"), otherwise the parse outcome.
    pub open spec fn get_or_post(slot: SlotView, default: T, r: DefaultedArgResult<T>) -> bool {
        T::obeys_contract() ==> match slot.val {
            None => r == Ok::<T, T::Error>(default),
            Some(v) => match r {
                Ok(x) => T::from_value_ensures(v, Some(Ok(x))) || (T::from_value_ensures(v, None)
                    && x == default),
                Err(e) => T::from_value_ensures(v, Some(Err(e))),
            },
        }
    }

    /// Retrieve the value of the argument, substituting `default` when the
    /// argument was never passed. A value that was passed but fails to parse
    /// is still an error: the default never papers over a parse failure.
    pub fn get_or(&self, args: &Arguments, default: T) -> (r: DefaultedArgResult<T>)
        requires
            self.slot_index() < args@.slots.len(),
        ensures
            Self::get_or_post(args@.slots[self.slot_index()], default, r),
    {
        let arg = &args.args[self.i];
        match &arg.val {
            Some(val) => {
                let parsed = match val {
                    Some(s) => T::from_value(Some(s.as_str())),
                    None => T::from_value(None),
                };
                match parsed {
                    Some(res) => res,
                    None => Ok(default),
                }
            },
            None => Ok(default),
        }
    }

    /// What [`ArgumentRef::get_ok`] may return: a successfully parsed value,
    /// or `None` both when the slot is unset without a contract default and
    /// when parsing failed.
    pub open spec fn get_ok_post(slot: SlotView, r: Option<T>) -> bool {
        T::obeys_contract() ==> match slot.val {
            Some(v) => match r {
                Some(x) => T::from_value_ensures(v, Some(Ok(x))),
                None => T::from_value_ensures(v, None) || (exists|e: T::Error|
                    T::from_value_ensures(v, Some(Err(e)))),
            },
            None => match r {
                Some(x) => T::default_value_ensures(Some(x)),
                None => T::default_value_ensures(None),
            },
        }
    }

    /// Retrieve the value of the argument, discarding parse failures:
    /// absence and failure both come out as `None`.
    pub fn get_ok(&self, args: &Arguments) -> (r: Option<T>)
        requires
            self.slot_index() < args@.slots.len(),
        ensures
            Self::get_ok_post(args@.slots[self.slot_index()], r),
    {
        match self.get(args) {
            Some(Ok(x)) => Some(x),
            Some(Err(_)) => None,
            None => None,
        }
    }

    /// What [`ArgumentRef::get_ok_or`] may return: the caller default when
    /// the slot is unset, a successfully parsed value when set, `None` when
    /// set but failing to parse.
    pub open spec fn get_ok_or_post(slot: SlotView, default: T, r: Option<T>) -> bool {
        T::obeys_contract() ==> match slot.val {
            None => r == Some(default),
            Some(v) => match r {
                Some(x) => T::from_value_ensures(v, Some(Ok(x))) || (T::from_value_ensures(v, None)
                    && x == default),
                None => exists|e: T::Error| T::from_value_ensures(v, Some(Err(e))),
            },
        }
    }

    /// Retrieve the value of the argument, substituting `default` when the
    /// argument was never passed and discarding parse failures: the default
    /// applies only to absence, a failed parse still comes out as `None`.
    pub fn get_ok_or(&self, args: &Arguments, default: T) -> (r: Option<T>)
        requires
            self.slot_index() < args@.slots.len(),
        ensures
            Self::get_ok_or_post(args@.slots[self.slot_index()], default, r),
    {
        let arg = &args.args[self.i];
        match &arg.val {
            Some(val) => {
                let parsed = match val {
                    Some(s) => T::from_value(Some(s.as_str())),
                    None => T::from_value(None),
                };
                match parsed {
                    Some(Ok(x)) => Some(x),
                    Some(Err(_)) => None,
                    None => Some(default),
                }
            },
            None => Some(default),
        }
    }

    /// Retrieve the tag of the argument from an [`Arguments`]. This always
    /// returns a [`tag::Full`], even when the argument was declared with a
    /// bare CLI tag.
    pub fn tag<'a>(&self, args: &'a Arguments) -> (t: &'a tag::Full)
        requires
            self.slot_index() < args@.slots.len(),
        ensures
            t@ == args@.slots[self.slot_index()].tag,
    {
        &args.args[self.i].tag
    }
}

/// The structure that reads your arguments: declare slots with
/// [`ArgumentReader::add`], resolve with `parse_cli` or `parse_provided`,
/// then read values through the returned [`ArgumentRef`]s.
#[derive(Debug, Clone)]
pub struct ArgumentReader {
    pub(crate) args: Vec<InternalArgument>,
    /// Program-level documentation, used only for presentation.
    pub doc: Option<String>,
}

impl View for ArgumentReader {
    type V = Seq<SlotView>;

    closed spec fn view(&self) -> Seq<SlotView> {
        self.args@.map_values(|a: InternalArgument| a@)
    }
}

impl ArgumentReader {
    /// The program-level documentation, as a character sequence.
    pub closed spec fn spec_doc(&self) -> Option<Seq<char>> {
        match self.doc {
            None => None,
            Some(ref d) => Some(d@),
        }
    }

    /// Returns an empty [`ArgumentReader`].
    pub fn new() -> (r: Self)
        ensures
            r@ == Seq::<SlotView>::empty(),
            r.spec_doc() is None,
    {
        let r = ArgumentReader { args: Vec::new(), doc: None };
        proof {
            assert(r@ =~= Seq::<SlotView>::empty());
        }
        r
    }

    /// Adds an argument slot to the reader: the slot takes the next free
    /// index, starts unset, and fixes `consumes` and `repeatable` from the
    /// value type.
    pub fn add<T: ArgumentType>(&mut self, tag: tag::Full) -> (r: ArgumentRef<T>)
        ensures
            r.slot_index() == old(self)@.len(),
            final(self)@.len() == old(self)@.len() + 1,
            forall|j: int| 0 <= j < old(self)@.len() ==> final(self)@[j] == old(self)@[j],
            final(self)@.last().tag == tag@,
            final(self)@.last().val is None,
            T::obeys_contract() ==> final(self)@.last().consumes == T::spec_consumes()
                && final(self)@.last().repeatable == T::spec_repeatable(),
            final(self).spec_doc() == old(self).spec_doc(),
    {
        let arg = InternalArgument {
            tag,
            consumes: T::consumes(),
            repeatable: T::repeatable(),
            val: None,
        };
        let i = self.args.len();
        self.args.push(arg);
        proof {
            assert(self@ =~= old(self)@.push(self.args@.last()@));
        }
        ArgumentRef { i, _marker: core::marker::PhantomData }
    }
}

impl ArgumentReader {
    /// Renders help for all the arguments under the given program name: the
    /// usage line, the program-level documentation if any, then one line per
    /// argument, aligned under the widths measured over the whole registry.
    pub fn help_text(&self, program: &str) -> (r: String)
        ensures
            r@ == help::spec_help_text(self@, self.spec_doc(), program@),
    {
        let ghost tags = help::tags_of(self@);
        let mut out = String::from_str(program);
        out.append(" [options...] <arguments...>\n");
        if let Some(doc) = &self.doc {
            out.append(doc.as_str());
            out.append("\n\n");
        }
        let ghost header = out@;
        let mut params = help::DocParams::default();
        let n = self.args.len();
        let mut i: usize = 0;
        proof {
            assert(tags.subrange(0, n as int) =~= tags);
        }
        while i < n
            invariant
                n == self.args@.len(),
                i <= n,
                tags == help::tags_of(self@),
                tags.len() == n,
                self@ == slots_view(self.args@),
                help::measure_params(tags, help::initial_params()) == help::measure_params(
                    tags.subrange(i as int, n as int),
                    params@,
                ),
            decreases n - i,
        {
            let ghost rest = tags.subrange(i as int, n as int);
            proof {
                assert(rest[0] == tags[i as int]);
                assert(tags[i as int] == self.args@[i as int]@.tag);
                assert(rest.drop_first() =~= tags.subrange(i + 1, n as int));
            }
            help::update_params(&mut params, &self.args[i].tag);
            i = i + 1;
        }
        proof {
            assert(tags.subrange(n as int, n as int) =~= Seq::<FullView>::empty());
        }
        let ghost measured = params@;
        let mut j: usize = 0;
        while j < n
            invariant
                n == self.args@.len(),
                j <= n,
                tags == help::tags_of(self@),
                tags.len() == n,
                self@ == slots_view(self.args@),
                params@ == measured,
                measured == help::measure_params(tags, help::initial_params()),
                header + help::render_lines(tags, measured) == out@ + help::render_lines(
                    tags.subrange(j as int, n as int),
                    measured,
                ),
            decreases n - j,
        {
            let ghost rest = tags.subrange(j as int, n as int);
            proof {
                reveal_strlit("\n");
                assert("\n"@ =~= seq!['\n']);
                assert(rest[0] == tags[j as int]);
                assert(tags[j as int] == self.args@[j as int]@.tag);
                assert(self.args@[j as int]@.tag == self.args@[j as int].tag@);
                assert(rest.drop_first() =~= tags.subrange(j + 1, n as int));
                help::lemma_measure_covers(tags, help::initial_params(), j as int);
            }
            let line = help::render_argument(&self.args[j].tag, params);
            out.append(line.as_str());
            out.append("\n");
            j = j + 1;
        }
        proof {
            assert(tags.subrange(n as int, n as int) =~= Seq::<FullView>::empty());
        }
        out
    }
}

impl Default for ArgumentReader {
    /// An empty reader.
    fn default() -> (r: Self)
        ensures
            r@ == Seq::<SlotView>::empty(),
            r.spec_doc() is None,
    {
        ArgumentReader::new()
    }
}


/// The views of a sequence of slots.
spec fn slots_view(args: Seq<InternalArgument>) -> Seq<SlotView> {
    args.map_values(|a: InternalArgument| a@)
}

/// The views of a sequence of environment pairs.
pub open spec fn pairs_view(pairs: Seq<(String, String)>) -> Seq<(Seq<char>, Seq<char>)> {
    pairs.map_values(|p: (String, String)| (p.0@, p.1@))
}

/// The view of an optional raw value.
spec fn opt_string_view(v: Option<String>) -> Option<Seq<char>> {
    match v {
        None => None,
        Some(s) => Some(s@),
    }
}

/// Finds the first slot whose tag has long component `name`.
fn find_long_exec(args: &Vec<InternalArgument>, name: &str) -> (r: Option<usize>)
    ensures
        match r {
            Some(i) => i < args@.len() && find_long(slots_view(args@), name@) == Some(i as int),
            None => find_long(slots_view(args@), name@) is None,
        },
{
    let n = args.len();
    let mut j: usize = 0;
    while j < n
        invariant
            n == args@.len(),
            j <= n,
            find_long_from(slots_view(args@), name@, 0) == find_long_from(
                slots_view(args@),
                name@,
                j as int,
            ),
        decreases n - j,
    {
        proof {
            assert(slots_view(args@)[j as int] == args@[j as int]@);
        }
        if args[j].tag.matches_long(name) {
            return Some(j);
        }
        j = j + 1;
    }
    None
}

/// Finds the first slot whose tag has short component `c`.
fn find_short_exec(args: &Vec<InternalArgument>, c: char) -> (r: Option<usize>)
    ensures
        match r {
            Some(i) => i < args@.len() && find_short(slots_view(args@), c) == Some(i as int),
            None => find_short(slots_view(args@), c) is None,
        },
{
    let n = args.len();
    let mut j: usize = 0;
    while j < n
        invariant
            n == args@.len(),
            j <= n,
            find_short_from(slots_view(args@), c, 0) == find_short_from(
                slots_view(args@),
                c,
                j as int,
            ),
        decreases n - j,
    {
        proof {
            assert(slots_view(args@)[j as int] == args@[j as int]@);
        }
        if args[j].tag.matches_short(c) {
            return Some(j);
        }
        j = j + 1;
    }
    None
}

/// Finds the first slot whose tag has environment name `key`.
fn find_env_exec(args: &Vec<InternalArgument>, key: &str) -> (r: Option<usize>)
    ensures
        match r {
            Some(i) => i < args@.len() && find_env(slots_view(args@), key@) == Some(i as int),
            None => find_env(slots_view(args@), key@) is None,
        },
{
    let n = args.len();
    let mut j: usize = 0;
    while j < n
        invariant
            n == args@.len(),
            j <= n,
            find_env_from(slots_view(args@), key@, 0) == find_env_from(
                slots_view(args@),
                key@,
                j as int,
            ),
        decreases n - j,
    {
        proof {
            assert(slots_view(args@)[j as int] == args@[j as int]@);
        }
        if args[j].tag.matches_env(key) {
            return Some(j);
        }
        j = j + 1;
    }
    None
}

/// One CLI resolution of slot `i`, exactly [`set_cli_value`].
fn apply_cli_value(
    args: &mut Vec<InternalArgument>,
    seen: &mut Vec<bool>,
    i: usize,
    val: Option<String>,
)
    requires
        i < old(args)@.len(),
        old(seen)@.len() == old(args)@.len(),
    ensures
        final(args)@.len() == old(args)@.len(),
        final(seen)@.len() == old(seen)@.len(),
        (slots_view(final(args)@), final(seen)@) == set_cli_value(
            slots_view(old(args)@),
            old(seen)@,
            i as int,
            opt_string_view(val),
        ),
{
    let ghost sv = set_cli_value(slots_view(old(args)@), old(seen)@, i as int, opt_string_view(val));
    let is_join: bool = if args[i].repeatable && seen[i] {
        match (&args[i].val, &val) {
            (Some(Some(_)), Some(_)) => true,
            _ => false,
        }
    } else {
        false
    };
    let newval: Option<String> = if is_join {
        let prev: String = match &args[i].val {
            Some(Some(p)) => p.clone(),
            _ => String::new(),
        };
        let v: String = match val {
            Some(v) => v,
            None => String::new(),
        };
        Some(join_with_comma(prev.as_str(), v.as_str()))
    } else {
        val
    };
    args[i].val = Some(newval);
    seen[i] = true;
    proof {
        assert(slots_view(args@) =~= sv.0);
        assert(seen@ =~= sv.1);
    }
}

impl ArgumentReader {
    /// The environment overlay: for every pair whose key equals some slot's
    /// declared environment name, the first such slot takes the pair's value
    /// as its raw state; pairs apply in order, so the last match wins.
    pub fn parse_env(&mut self, pairs: &Vec<(String, String)>)
        ensures
            final(self)@ == env_pass(old(self)@, pairs_view(pairs@)),
            final(self).spec_doc() == old(self).spec_doc(),
    {
        let ghost s0 = self@;
        let ghost pv = pairs_view(pairs@);
        let n = pairs.len();
        let mut p: usize = 0;
        proof {
            assert(pv.subrange(0, n as int) =~= pv);
        }
        while p < n
            invariant
                n == pairs@.len(),
                p <= n,
                pv == pairs_view(pairs@),
                self@ == slots_view(self.args@),
                env_pass(s0, pv) == env_pass(self@, pv.subrange(p as int, n as int)),
                self.spec_doc() == old(self).spec_doc(),
            decreases n - p,
        {
            let ghost rest = pv.subrange(p as int, n as int);
            proof {
                assert(rest[0] == pv[p as int]);
                assert(pv[p as int] == (pairs@[p as int].0@, pairs@[p as int].1@));
                assert(rest.drop_first() =~= pv.subrange(p + 1, n as int));
            }
            let key = &pairs[p].0;
            let ghost before = slots_view(self.args@);
            match find_env_exec(&self.args, key.as_str()) {
                Some(i) => {
                    let value = pairs[p].1.clone();
                    self.args[i].val = Some(Some(value));
                    proof {
                        assert(slots_view(self.args@) =~= apply_env_pair(
                            before,
                            pairs@[p as int].0@,
                            pairs@[p as int].1@,
                        ));
                    }
                },
                None => {
                    proof {
                        assert(slots_view(self.args@) == apply_env_pair(
                            before,
                            pairs@[p as int].0@,
                            pairs@[p as int].1@,
                        ));
                    }
                },
            }
            p = p + 1;
        }
        proof {
            assert(pv.subrange(n as int, n as int) =~= Seq::<(Seq<char>, Seq<char>)>::empty());
        }
    }

    /// The CLI tokenizer pass: resolves `tokens` left to right against the
    /// declared slots, exactly as [`cli_pass`] says, overwriting whatever
    /// state the environment overlay left. On success the result holds the
    /// final slots and the remainder; resolution errors abort the whole pass.
    pub fn parse_cli(self, tokens: Vec<String>) -> (r: Result<Arguments, ArgParseError>)
        ensures
            ({
                let res = cli_pass(self@, no_seen(self@.len()), tokens.deep_view());
                match r {
                    Ok(out) => res matches Ok(o) && out@.slots == o.0 && out@.remainder == o.2
                        && out@.slots.len() == self@.len(),
                    Err(e) => res == Err::<(Seq<SlotView>, Seq<bool>, Seq<Seq<char>>), ErrorView>(
                        e@,
                    ),
                }
            }),
    {
        let ghost s0 = self@;
        let ghost toks = tokens.deep_view();
        let mut this = self;
        let n_slots = this.args.len();
        let mut seen: Vec<bool> = Vec::new();
        let mut q: usize = 0;
        while q < n_slots
            invariant
                q <= n_slots,
                seen@.len() == q,
                forall|j: int| 0 <= j < q ==> seen@[j] == false,
            decreases n_slots - q,
        {
            seen.push(false);
            q = q + 1;
        }
        proof {
            assert(seen@ =~= no_seen(s0.len()));
        }
        let mut remainder: Vec<String> = Vec::new();
        let n = tokens.len();
        let mut i: usize = 0;
        proof {
            assert(toks.subrange(0, n as int) =~= toks);
            assert(remainder.deep_view() =~= Seq::<Seq<char>>::empty());
            assert(with_remainder_prefix(
                remainder.deep_view(),
                cli_pass(slots_view(this.args@), seen@, toks.subrange(0, n as int)),
            ) == cli_pass(s0, no_seen(s0.len()), toks));
        }
        while i < n
            invariant
                s0 == self@,
                n == tokens@.len(),
                i <= n,
                toks == tokens.deep_view(),
                this.args@.len() == s0.len(),
                seen@.len() == s0.len(),
                with_remainder_prefix(
                    remainder.deep_view(),
                    cli_pass(slots_view(this.args@), seen@, toks.subrange(i as int, n as int)),
                ) == cli_pass(s0, no_seen(s0.len()), toks),
            decreases n - i,
        {
            let ghost rest = toks.subrange(i as int, n as int);
            let ghost cur_slots = slots_view(this.args@);
            let ghost cur_seen = seen@;
            let ghost rem0 = remainder.deep_view();
            proof {
                assert(rest[0] == toks[i as int]);
                assert(toks[i as int] == tokens@[i as int]@);
                assert(rest.drop_first() =~= toks.subrange(i + 1, n as int));
                if n >= i + 2 {
                    assert(rest[1] == toks[i + 1]);
                    assert(rest.subrange(2, rest.len() as int) =~= toks.subrange(i + 2, n as int));
                }
            }
            let t = &tokens[i];
            let ts = t.as_str();
            let tn = ts.unicode_len();
            if tn >= 3 && ts.get_char(0) == '-' && ts.get_char(1) == '-' {
                // long form
                let eq = str_find_char(ts, '=', 2);
                let name_end: usize = match eq {
                    Some(p) => p,
                    None => tn,
                };
                let name = ts.substring_char(2, name_end);
                proof {
                    assert(name@ =~= long_name(rest[0]));
                }
                let idx = match find_long_exec(&this.args, name) {
                    Some(idx) => idx,
                    None => {
                        return Err(ArgParseError::UnknownFlag(String::from_str(name)));
                    },
                };
                proof {
                    assert(cur_slots[idx as int] == this.args@[idx as int]@);
                }
                if this.args[idx].consumes {
                    match eq {
                        Some(p) => {
                            let value = String::from_str(ts.substring_char(p + 1, tn));
                            proof {
                                assert(long_inline(rest[0]) == Some(value@));
                            }
                            apply_cli_value(&mut this.args, &mut seen, idx, Some(value));
                            i = i + 1;
                        },
                        None => {
                            proof {
                                assert(long_inline(rest[0]) is None);
                            }
                            if i + 1 < n {
                                let value = tokens[i + 1].clone();
                                apply_cli_value(&mut this.args, &mut seen, idx, Some(value));
                                i = i + 2;
                            } else {
                                return Err(ArgParseError::MissingValue(String::from_str(name)));
                            }
                        },
                    }
                } else {
                    apply_cli_value(&mut this.args, &mut seen, idx, None);
                    i = i + 1;
                }
            } else if tn >= 2 && ts.get_char(0) == '-' && tn == 2 && ts.get_char(1) == '-' {
                // `--` alone: positional
                let ghost old_rem = remainder.deep_view();
                remainder.push(t.clone());
                proof {
                    assert(remainder.deep_view() =~= old_rem.push(rest[0]));
                    lemma_prefix_push(
                        old_rem,
                        rest[0],
                        cli_pass(cur_slots, cur_seen, rest.drop_first()),
                    );
                }
                i = i + 1;
            } else if tn >= 2 && ts.get_char(0) == '-' {
                // short cluster
                let ghost chars = rest[0].subrange(1, rest[0].len() as int);
                let ghost next = if n >= i + 2 {
                    Some(toks[i + 1])
                } else {
                    None
                };
                let mut consumed = false;
                let mut k: usize = 1;
                proof {
                    assert(chars.subrange(0, chars.len() as int) =~= chars);
                }
                while k < tn
                    invariant
                        s0 == self@,
                        n == tokens@.len(),
                        toks == tokens.deep_view(),
                        rem0 == remainder.deep_view(),
                        with_remainder_prefix(rem0, cli_pass(cur_slots, cur_seen, rest))
                            == cli_pass(s0, no_seen(s0.len()), toks),
                        is_cluster_token(rest[0]),
                        i < n,
                        1 <= k <= tn,
                        tn == rest[0].len(),
                        rest == toks.subrange(i as int, n as int),
                        tokens@[i as int]@ == rest[0],
                        chars == rest[0].subrange(1, rest[0].len() as int),
                        next == if n >= i + 2 {
                            Some(toks[i + 1])
                        } else {
                            None::<Seq<char>>
                        },
                        this.args@.len() == s0.len(),
                        seen@.len() == s0.len(),
                        consumed ==> n >= i + 2,
                        cluster_step(cur_slots, cur_seen, chars, chars, next, false)
                            == cluster_step(
                            slots_view(this.args@),
                            seen@,
                            chars.subrange(k - 1, chars.len() as int),
                            chars,
                            next,
                            consumed,
                        ),
                    decreases tn - k,
                {
                    let ghost cchars = chars.subrange(k - 1, chars.len() as int);
                    proof {
                        assert(cchars[0] == chars[k - 1]);
                        assert(chars[k - 1] == rest[0][k as int]);
                        assert(cchars.drop_first() =~= chars.subrange(k as int, chars.len() as int));
                    }
                    let ts2 = tokens[i].as_str();
                    let c = ts2.get_char(k);
                    let j = match find_short_exec(&this.args, c) {
                        Some(j) => j,
                        None => {
                            return Err(ArgParseError::UnknownFlag(char_to_string(c)));
                        },
                    };
                    proof {
                        assert(slots_view(this.args@)[j as int] == this.args@[j as int]@);
                    }
                    if this.args[j].consumes {
                        if consumed {
                            let cluster_str = ts2.substring_char(1, tn);
                            proof {
                                assert(cluster_str@ =~= chars);
                            }
                            return Err(ArgParseError::ConsumedValue(String::from_str(cluster_str)));
                        }
                        if i + 1 < n {
                            let value = tokens[i + 1].clone();
                            apply_cli_value(&mut this.args, &mut seen, j, Some(value));
                            consumed = true;
                        } else {
                            return Err(ArgParseError::MissingValue(char_to_string(c)));
                        }
                    } else {
                        apply_cli_value(&mut this.args, &mut seen, j, None);
                    }
                    k = k + 1;
                }
                proof {
                    assert(chars.subrange(tn - 1, chars.len() as int) =~= Seq::<char>::empty());
                    assert(cluster_step(cur_slots, cur_seen, chars, chars, next, false) == Ok::<
                        (Seq<SlotView>, Seq<bool>, bool),
                        ErrorView,
                    >((slots_view(this.args@), seen@, consumed)));
                }
                if consumed {
                    i = i + 2;
                } else {
                    i = i + 1;
                }
            } else {
                // positional
                let ghost old_rem = remainder.deep_view();
                remainder.push(t.clone());
                proof {
                    assert(remainder.deep_view() =~= old_rem.push(rest[0]));
                    lemma_prefix_push(
                        old_rem,
                        rest[0],
                        cli_pass(cur_slots, cur_seen, rest.drop_first()),
                    );
                }
                i = i + 1;
            }
        }
        proof {
            assert(toks.subrange(n as int, n as int) =~= Seq::<Seq<char>>::empty());
            assert(remainder.deep_view() + Seq::<Seq<char>>::empty() =~= remainder.deep_view());
        }
        let out = Arguments { args: this.args, remainder };
        proof {
            assert(out@.slots =~= slots_view(out.args@));
        }
        Ok(out)
    }

    /// Resolution from provided values: the environment overlay first, then
    /// the CLI pass, which overwrites whatever the overlay set — CLI always
    /// wins. Exactly [`resolve`].
    pub fn parse_provided(self, cli: Vec<String>, env: Vec<(String, String)>) -> (r: Result<
        Arguments,
        ArgParseError,
    >)
        ensures
            ({
                let res = resolve(self@, pairs_view(env@), cli.deep_view());
                match r {
                    Ok(out) => res matches Ok(o) && out@.slots == o.0 && out@.remainder == o.2
                        && out@.slots.len() == self@.len(),
                    Err(e) => res == Err::<(Seq<SlotView>, Seq<bool>, Seq<Seq<char>>), ErrorView>(
                        e@,
                    ),
                }
            }),
    {
        let ghost s0 = self@;
        let mut this = self;
        this.parse_env(&env);
        proof {
            crate::model::lemma_env_pass_len(s0, pairs_view(env@));
        }
        this.parse_cli(cli)
    }
}

/// Prepending one positional token to the accumulated remainder commutes
/// with prepending it inside the pass result.
proof fn lemma_prefix_push(
    rem: Seq<Seq<char>>,
    t: Seq<char>,
    r: Result<(Seq<SlotView>, Seq<bool>, Seq<Seq<char>>), ErrorView>,
)
    ensures
        with_remainder_prefix(
            rem,
            match r {
                Ok((s, e, rest)) => Ok((s, e, seq![t] + rest)),
                Err(e) => Err::<(Seq<SlotView>, Seq<bool>, Seq<Seq<char>>), ErrorView>(e),
            },
        ) == with_remainder_prefix(rem.push(t), r),
{
    match r {
        Ok((s, e, rest)) => {
            assert(rem + (seq![t] + rest) =~= rem.push(t) + rest);
        },
        Err(_) => {},
    }
}


} // verus!
