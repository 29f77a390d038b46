//! The mathematical model of resolution.
//!
//! A registry is a sequence of [`SlotView`]s. The environment overlay is
//! [`env_pass`]; the CLI tokenizer is [`cli_pass`], which walks the token
//! sequence left to right, carrying for every slot a `seen` bit that records
//! whether this CLI pass already resolved it (the first CLI occurrence
//! overwrites whatever the environment left, later occurrences accumulate on
//! repeatable slots). The executable engine is proved to return exactly what
//! these functions say.

use vstd::prelude::*;

use crate::error::ErrorView;
use crate::strutil::find_char_from;
use crate::tag::{full_matches_env, full_matches_long, full_matches_short, FullView};

verus! {

/// The model of one argument slot: its tag, the two fixed properties of its
/// declared value type, and its current raw state. The raw state is `None`
/// when unset, `Some(None)` when present without a value (a bare flag), and
/// `Some(Some(v))` when present with raw value `v`.
pub struct SlotView {
    /// The slot's tag.
    pub tag: FullView,
    /// Whether the slot's value type consumes a following token.
    pub consumes: bool,
    /// Whether repeated occurrences accumulate instead of overwriting.
    pub repeatable: bool,
    /// The slot's raw resolved state.
    pub val: Option<Option<Seq<char>>>,
}

/// Long-form tokens: `--` followed by at least one character.
pub open spec fn is_long_token(t: Seq<char>) -> bool {
    t.len() >= 3 && t[0] == '-' && t[1] == '-'
}

/// Short-form cluster tokens: `-` followed by characters, the first of which
/// is not `-`.
pub open spec fn is_cluster_token(t: Seq<char>) -> bool {
    t.len() >= 2 && t[0] == '-' && t[1] != '-'
}

/// Positional tokens go to the remainder verbatim: anything that is not a
/// long or cluster token, which includes `-` and `--` alone.
pub open spec fn is_positional_token(t: Seq<char>) -> bool {
    !is_long_token(t) && !is_cluster_token(t)
}

/// The long name of a long-form token: what stands between the leading `--`
/// and the first `=`, if any.
pub open spec fn long_name(t: Seq<char>) -> Seq<char> {
    match find_char_from(t, '=', 2) {
        Some(i) => t.subrange(2, i),
        None => t.subrange(2, t.len() as int),
    }
}

/// The inline value of a long-form token: what follows the first `=`, if any.
pub open spec fn long_inline(t: Seq<char>) -> Option<Seq<char>> {
    match find_char_from(t, '=', 2) {
        Some(i) => Some(t.subrange(i + 1, t.len() as int)),
        None => None,
    }
}

/// The first slot at or after `from` whose tag has long component `name`.
pub open spec fn find_long_from(slots: Seq<SlotView>, name: Seq<char>, from: int) -> Option<int>
    decreases slots.len() - from,
{
    if from < 0 || from >= slots.len() {
        None
    } else if full_matches_long(slots[from].tag, name) {
        Some(from)
    } else {
        find_long_from(slots, name, from + 1)
    }
}

/// The first slot whose tag has long component `name`.
pub open spec fn find_long(slots: Seq<SlotView>, name: Seq<char>) -> Option<int> {
    find_long_from(slots, name, 0)
}

/// The first slot at or after `from` whose tag has short component `c`.
pub open spec fn find_short_from(slots: Seq<SlotView>, c: char, from: int) -> Option<int>
    decreases slots.len() - from,
{
    if from < 0 || from >= slots.len() {
        None
    } else if full_matches_short(slots[from].tag, c) {
        Some(from)
    } else {
        find_short_from(slots, c, from + 1)
    }
}

/// The first slot whose tag has short component `c`.
pub open spec fn find_short(slots: Seq<SlotView>, c: char) -> Option<int> {
    find_short_from(slots, c, 0)
}

/// The first slot at or after `from` whose tag has environment name `key`.
pub open spec fn find_env_from(slots: Seq<SlotView>, key: Seq<char>, from: int) -> Option<int>
    decreases slots.len() - from,
{
    if from < 0 || from >= slots.len() {
        None
    } else if full_matches_env(slots[from].tag, key) {
        Some(from)
    } else {
        find_env_from(slots, key, from + 1)
    }
}

/// The first slot whose tag has environment name `key`.
pub open spec fn find_env(slots: Seq<SlotView>, key: Seq<char>) -> Option<int> {
    find_env_from(slots, key, 0)
}

/// One CLI resolution of slot `i` with raw value `val` (`None` for a bare
/// flag). The first CLI occurrence overwrites whatever state the slot held;
/// later occurrences overwrite too, unless the slot is repeatable, in which
/// case the new value is appended, comma-separated, to the accumulated one.
pub open spec fn set_cli_value(
    slots: Seq<SlotView>,
    seen: Seq<bool>,
    i: int,
    val: Option<Seq<char>>,
) -> (Seq<SlotView>, Seq<bool>) {
    let old = slots[i];
    let newval: Option<Option<Seq<char>>> = if old.repeatable && seen[i] {
        match (old.val, val) {
            (Some(Some(prev)), Some(v)) => Some(Some(prev + seq![','] + v)),
            _ => Some(val),
        }
    } else {
        Some(val)
    };
    (
        slots.update(
            i,
            SlotView { tag: old.tag, consumes: old.consumes, repeatable: old.repeatable, val: newval },
        ),
        seen.update(i, true),
    )
}

/// One environment pair applied to the registry: the first slot whose env
/// name equals `key` takes `value` as its raw state; no match changes
/// nothing.
pub open spec fn apply_env_pair(
    slots: Seq<SlotView>,
    key: Seq<char>,
    value: Seq<char>,
) -> Seq<SlotView> {
    match find_env(slots, key) {
        None => slots,
        Some(i) => {
            let old = slots[i];
            slots.update(
                i,
                SlotView {
                    tag: old.tag,
                    consumes: old.consumes,
                    repeatable: old.repeatable,
                    val: Some(Some(value)),
                },
            )
        },
    }
}

/// The environment overlay: every pair applied in order, so for one slot the
/// last matching pair wins.
pub open spec fn env_pass(slots: Seq<SlotView>, pairs: Seq<(Seq<char>, Seq<char>)>) -> Seq<
    SlotView,
>
    decreases pairs.len(),
{
    if pairs.len() == 0 {
        slots
    } else {
        env_pass(apply_env_pair(slots, pairs[0].0, pairs[0].1), pairs.drop_first())
    }
}

/// Processing the characters of one short cluster, left to right. `cluster`
/// is the whole cluster (for the conflict error), `next_tok` the token
/// following the cluster (the value a consuming flag would take), and
/// `consumed` whether an earlier character already took it. Returns the
/// final state and whether the following token was taken.
pub open spec fn cluster_step(
    slots: Seq<SlotView>,
    seen: Seq<bool>,
    chars: Seq<char>,
    cluster: Seq<char>,
    next_tok: Option<Seq<char>>,
    consumed: bool,
) -> Result<(Seq<SlotView>, Seq<bool>, bool), ErrorView>
    decreases chars.len(),
{
    if chars.len() == 0 {
        Ok((slots, seen, consumed))
    } else {
        let c = chars[0];
        match find_short(slots, c) {
            None => Err(ErrorView::UnknownFlag(seq![c])),
            Some(i) => {
                if slots[i].consumes {
                    if consumed {
                        Err(ErrorView::ConsumedValue(cluster))
                    } else {
                        match next_tok {
                            None => Err(ErrorView::MissingValue(seq![c])),
                            Some(v) => {
                                let sv = set_cli_value(slots, seen, i, Some(v));
                                cluster_step(sv.0, sv.1, chars.drop_first(), cluster, next_tok, true)
                            },
                        }
                    }
                } else {
                    let sv = set_cli_value(slots, seen, i, None);
                    cluster_step(sv.0, sv.1, chars.drop_first(), cluster, next_tok, consumed)
                }
            },
        }
    }
}

/// The CLI tokenizer pass: walks `toks` left to right. Long and cluster
/// tokens resolve slots (consuming the following token where a value is
/// needed and not inline); positional tokens, `-` and `--` go to the
/// remainder in order. Returns the final slots, the per-slot seen bits, and
/// the remainder.
pub open spec fn cli_pass(slots: Seq<SlotView>, seen: Seq<bool>, toks: Seq<Seq<char>>) -> Result<
    (Seq<SlotView>, Seq<bool>, Seq<Seq<char>>),
    ErrorView,
>
    decreases toks.len(),
{
    if toks.len() == 0 {
        Ok((slots, seen, Seq::empty()))
    } else {
        let t = toks[0];
        if is_long_token(t) {
            let name = long_name(t);
            match find_long(slots, name) {
                None => Err(ErrorView::UnknownFlag(name)),
                Some(i) => {
                    if slots[i].consumes {
                        match long_inline(t) {
                            Some(v) => {
                                let sv = set_cli_value(slots, seen, i, Some(v));
                                cli_pass(sv.0, sv.1, toks.drop_first())
                            },
                            None => {
                                if toks.len() >= 2 {
                                    let sv = set_cli_value(slots, seen, i, Some(toks[1]));
                                    cli_pass(sv.0, sv.1, toks.subrange(2, toks.len() as int))
                                } else {
                                    Err(ErrorView::MissingValue(name))
                                }
                            },
                        }
                    } else {
                        let sv = set_cli_value(slots, seen, i, None);
                        cli_pass(sv.0, sv.1, toks.drop_first())
                    }
                },
            }
        } else if is_cluster_token(t) {
            let chars = t.subrange(1, t.len() as int);
            let next = if toks.len() >= 2 {
                Some(toks[1])
            } else {
                None
            };
            match cluster_step(slots, seen, chars, chars, next, false) {
                Err(e) => Err(e),
                Ok((s2, e2, took)) => {
                    if took && toks.len() >= 2 {
                        cli_pass(s2, e2, toks.subrange(2, toks.len() as int))
                    } else {
                        cli_pass(s2, e2, toks.drop_first())
                    }
                },
            }
        } else {
            match cli_pass(slots, seen, toks.drop_first()) {
                Ok((s2, e2, rem)) => Ok((s2, e2, seq![t] + rem)),
                Err(e) => Err(e),
            }
        }
    }
}

/// A resolution result with `rem` put before the remainder of a successful
/// outcome.
pub open spec fn with_remainder_prefix(
    rem: Seq<Seq<char>>,
    r: Result<(Seq<SlotView>, Seq<bool>, Seq<Seq<char>>), ErrorView>,
) -> Result<(Seq<SlotView>, Seq<bool>, Seq<Seq<char>>), ErrorView> {
    match r {
        Ok((s, e, rest)) => Ok((s, e, rem + rest)),
        Err(e) => Err(e),
    }
}

/// A successful long-name search returns a matching slot in range.
pub proof fn lemma_find_long_range(slots: Seq<SlotView>, name: Seq<char>, from: int)
    ensures
        match find_long_from(slots, name, from) {
            Some(i) => from <= i < slots.len() && full_matches_long(slots[i].tag, name),
            None => true,
        },
    decreases slots.len() - from,
{
    if 0 <= from < slots.len() && !full_matches_long(slots[from].tag, name) {
        lemma_find_long_range(slots, name, from + 1);
    }
}

/// A successful short-flag search returns a matching slot in range.
pub proof fn lemma_find_short_range(slots: Seq<SlotView>, c: char, from: int)
    ensures
        match find_short_from(slots, c, from) {
            Some(i) => from <= i < slots.len() && full_matches_short(slots[i].tag, c),
            None => true,
        },
    decreases slots.len() - from,
{
    if 0 <= from < slots.len() && !full_matches_short(slots[from].tag, c) {
        lemma_find_short_range(slots, c, from + 1);
    }
}

/// A successful environment-name search returns a matching slot in range.
pub proof fn lemma_find_env_range(slots: Seq<SlotView>, key: Seq<char>, from: int)
    ensures
        match find_env_from(slots, key, from) {
            Some(i) => from <= i < slots.len() && full_matches_env(slots[i].tag, key),
            None => true,
        },
    decreases slots.len() - from,
{
    if 0 <= from < slots.len() && !full_matches_env(slots[from].tag, key) {
        lemma_find_env_range(slots, key, from + 1);
    }
}

/// The environment overlay touches values only: it never changes how many
/// slots there are.
pub proof fn lemma_env_pass_len(slots: Seq<SlotView>, pairs: Seq<(Seq<char>, Seq<char>)>)
    ensures
        env_pass(slots, pairs).len() == slots.len(),
    decreases pairs.len(),
{
    if pairs.len() > 0 {
        lemma_find_env_range(slots, pairs[0].0, 0);
        lemma_env_pass_len(apply_env_pair(slots, pairs[0].0, pairs[0].1), pairs.drop_first());
    }
}

/// A freshly started CLI pass: no slot has been seen yet.
pub open spec fn no_seen(n: nat) -> Seq<bool> {
    Seq::new(n, |i: int| false)
}

/// The whole resolution: the environment overlay, then the CLI pass over its
/// result.
pub open spec fn resolve(
    slots: Seq<SlotView>,
    pairs: Seq<(Seq<char>, Seq<char>)>,
    toks: Seq<Seq<char>>,
) -> Result<(Seq<SlotView>, Seq<bool>, Seq<Seq<char>>), ErrorView> {
    cli_pass(env_pass(slots, pairs), no_seen(slots.len()), toks)
}

} // verus!
