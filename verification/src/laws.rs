//! Laws of the resolution engine, each proved once and for all: how
//! repetition and comma-splitting compose, what the remainder preserves,
//! and how CLI resolution relates to the environment overlay.

use vstd::prelude::*;

use crate::model::{
    apply_env_pair, cli_pass, cluster_step, env_pass, find_long, find_long_from,
    find_short, find_short_from, is_cluster_token, is_long_token, is_positional_token,
    lemma_env_pass_len, lemma_find_env_range, lemma_find_long_range, lemma_find_short_range,
    long_inline, long_name, no_seen, resolve, set_cli_value, SlotView,
};
use crate::strutil::{split_commas, split_commas_acc};
use crate::tag::{full_matches_env, full_matches_long, full_matches_short, FullView};
use crate::types::ArgumentType;
use crate::{ArgResult, ArgumentRef};

verus! {

/// Repetition and comma-splitting compose: the pieces of two raw values
/// joined with a comma, as repeated occurrences of a repeatable flag
/// accumulate them, are the pieces of the first followed by the pieces of
/// the second.
pub proof fn lemma_split_of_join(a: Seq<char>, b: Seq<char>)
    ensures
        split_commas(a + seq![','] + b) == split_commas(a) + split_commas(b),
{
    lemma_split_acc_of_join(a, b, Seq::empty());
}

proof fn lemma_split_acc_of_join(a: Seq<char>, b: Seq<char>, cur: Seq<char>)
    ensures
        split_commas_acc(a + seq![','] + b, cur) == split_commas_acc(a, cur) + split_commas(b),
    decreases a.len(),
{
    let s = a + seq![','] + b;
    if a.len() == 0 {
        assert(s[0] == ',');
        assert(s.drop_first() =~= b);
        assert(split_commas_acc(a, cur) =~= seq![cur]);
        assert(seq![cur] + split_commas_acc(b, Seq::empty()) =~= split_commas_acc(a, cur)
            + split_commas(b));
    } else {
        assert(s[0] == a[0]);
        assert(s.drop_first() =~= a.drop_first() + seq![','] + b);
        if a[0] == ',' {
            lemma_split_acc_of_join(a.drop_first(), b, Seq::empty());
            assert(seq![cur] + (split_commas_acc(a.drop_first(), Seq::empty()) + split_commas(b))
                =~= (seq![cur] + split_commas_acc(a.drop_first(), Seq::empty())) + split_commas(
                b,
            ));
        } else {
            lemma_split_acc_of_join(a.drop_first(), b, cur.push(a[0]));
        }
    }
}

/// `xs` appears inside `ys` in order (not necessarily contiguously).
pub open spec fn is_subsequence<A>(xs: Seq<A>, ys: Seq<A>) -> bool
    decreases ys.len(),
{
    if xs.len() == 0 {
        true
    } else if ys.len() == 0 {
        false
    } else {
        (xs[0] == ys[0] && is_subsequence(xs.drop_first(), ys.drop_first())) || is_subsequence(
            xs,
            ys.drop_first(),
        )
    }
}

/// Skipping a leading element keeps a subsequence a subsequence.
proof fn lemma_subsequence_skip<A>(xs: Seq<A>, ys: Seq<A>, t: A)
    requires
        is_subsequence(xs, ys),
    ensures
        is_subsequence(xs, seq![t] + ys),
{
    let tys = seq![t] + ys;
    if xs.len() == 0 {
    } else {
        assert(tys.drop_first() =~= ys);
    }
}

/// The remainder keeps the original token order: it is a subsequence of the
/// token stream, and every remainder entry is a positional token — never a
/// matched flag's own token, and never a token consumed as a value.
pub proof fn lemma_remainder_of_cli_pass(slots: Seq<SlotView>, seen: Seq<bool>, toks: Seq<Seq<char>>)
    ensures
        cli_pass(slots, seen, toks) matches Ok(o) ==> is_subsequence(o.2, toks) && (forall|j: int|
            0 <= j < o.2.len() ==> is_positional_token(#[trigger] o.2[j])),
    decreases toks.len(), 1int,
{
    let r = cli_pass(slots, seen, toks);
    if r is Ok {
        let o = r->Ok_0;
        if toks.len() == 0 {
        } else {
            let t = toks[0];
            if is_positional_token(toks[0]) {
                let inner = cli_pass(slots, seen, toks.drop_first());
                lemma_remainder_of_cli_pass(slots, seen, toks.drop_first());
                let rem = inner->Ok_0.2;
                assert(o.2 =~= seq![t] + rem);
                assert(o.2.drop_first() =~= rem);
                assert(is_subsequence(o.2, toks));
                assert forall|j: int| 0 <= j < o.2.len() implies is_positional_token(
                    #[trigger] o.2[j],
                ) by {
                    if j > 0 {
                        assert(o.2[j] == rem[j - 1]);
                    }
                }
            } else {
                lemma_nonpositional_remainder(slots, seen, toks, o.2);
            }
        }
    }
}

/// The flag cases of the pass: the remainder comes wholly from a suffix of
/// the stream.
proof fn lemma_nonpositional_remainder(
    slots: Seq<SlotView>,
    seen: Seq<bool>,
    toks: Seq<Seq<char>>,
    rem: Seq<Seq<char>>,
)
    requires
        toks.len() > 0,
        !is_positional_token(toks[0]),
        cli_pass(slots, seen, toks) matches Ok(o) && o.2 == rem,
    ensures
        is_subsequence(rem, toks) && (forall|j: int|
            0 <= j < rem.len() ==> is_positional_token(#[trigger] rem[j])),
    decreases toks.len(), 0int,
{
    let t = toks[0];
    let rest1 = toks.drop_first();
    let rest2 = toks.subrange(2, toks.len() as int);
    if crate::model::is_long_token(t) {
        let name = crate::model::long_name(t);
        let i = crate::model::find_long(slots, name)->0;
        if slots[i].consumes {
            match crate::model::long_inline(t) {
                Some(v) => {
                    let sv = crate::model::set_cli_value(slots, seen, i, Some(v));
                    lemma_remainder_of_cli_pass(sv.0, sv.1, rest1);
                    lemma_subsequence_skip(rem, rest1, t);
                    assert(seq![t] + rest1 =~= toks);
                },
                None => {
                    let sv = crate::model::set_cli_value(slots, seen, i, Some(toks[1]));
                    lemma_remainder_of_cli_pass(sv.0, sv.1, rest2);
                    lemma_subsequence_skip(rem, rest2, toks[1]);
                    lemma_subsequence_skip(rem, seq![toks[1]] + rest2, t);
                    assert(seq![toks[1]] + rest2 =~= rest1);
                    assert(seq![t] + rest1 =~= toks);
                },
            }
        } else {
            let sv = crate::model::set_cli_value(slots, seen, i, None);
            lemma_remainder_of_cli_pass(sv.0, sv.1, rest1);
            lemma_subsequence_skip(rem, rest1, t);
            assert(seq![t] + rest1 =~= toks);
        }
    } else {
        let chars = t.subrange(1, t.len() as int);
        let next = if toks.len() >= 2 {
            Some(toks[1])
        } else {
            None
        };
        let cs = cluster_step(slots, seen, chars, chars, next, false);
        let (s2, e2, took) = cs->Ok_0;
        if took && toks.len() >= 2 {
            lemma_remainder_of_cli_pass(s2, e2, rest2);
            lemma_subsequence_skip(rem, rest2, toks[1]);
            lemma_subsequence_skip(rem, seq![toks[1]] + rest2, t);
            assert(seq![toks[1]] + rest2 =~= rest1);
            assert(seq![t] + rest1 =~= toks);
        } else {
            lemma_remainder_of_cli_pass(s2, e2, rest1);
            lemma_subsequence_skip(rem, rest1, t);
            assert(seq![t] + rest1 =~= toks);
        }
    }
}

/// The slots' fixed parts agree: same tags and same value-type properties.
pub open spec fn same_shape(a: Seq<SlotView>, b: Seq<SlotView>) -> bool {
    a.len() == b.len() && (forall|i: int|
        0 <= i < a.len() ==> (#[trigger] a[i]).tag == b[i].tag && a[i].consumes == b[i].consumes
            && a[i].repeatable == b[i].repeatable)
}

/// Wherever `seen` is set, the raw values agree too.
pub open spec fn vals_agree_where_seen(a: Seq<SlotView>, b: Seq<SlotView>, seen: Seq<bool>) -> bool {
    forall|i: int| 0 <= i < a.len() && seen[i] ==> (#[trigger] a[i]).val == b[i].val
}

proof fn lemma_find_long_same(a: Seq<SlotView>, b: Seq<SlotView>, name: Seq<char>, from: int)
    requires
        same_shape(a, b),
    ensures
        find_long_from(a, name, from) == find_long_from(b, name, from),
    decreases a.len() - from,
{
    if 0 <= from < a.len() && !full_matches_long(a[from].tag, name) {
        lemma_find_long_same(a, b, name, from + 1);
    }
}

proof fn lemma_find_short_same(a: Seq<SlotView>, b: Seq<SlotView>, c: char, from: int)
    requires
        same_shape(a, b),
    ensures
        find_short_from(a, c, from) == find_short_from(b, c, from),
    decreases a.len() - from,
{
    if 0 <= from < a.len() && !full_matches_short(a[from].tag, c) {
        lemma_find_short_same(a, b, c, from + 1);
    }
}

/// What two runs over same-shaped registries have in common on success.
pub open spec fn override_post(
    a: Seq<SlotView>,
    b: Seq<SlotView>,
    seen: Seq<bool>,
    oa: (Seq<SlotView>, Seq<bool>),
    ob: (Seq<SlotView>, Seq<bool>),
) -> bool {
    &&& oa.1 == ob.1
    &&& same_shape(oa.0, ob.0)
    &&& oa.0.len() == a.len()
    &&& ob.0.len() == b.len()
    &&& oa.1.len() == seen.len()
    &&& vals_agree_where_seen(oa.0, ob.0, oa.1)
    &&& (forall|i: int| 0 <= i < seen.len() && seen[i] ==> oa.1[i])
    &&& (forall|i: int|
        0 <= i < seen.len() && !(#[trigger] oa.1[i]) ==> oa.0[i].val == a[i].val && ob.0[i].val
            == b[i].val)
}

/// One CLI resolution applied to two same-shaped registries keeps them
/// same-shaped and makes their values agree at the resolved slot.
proof fn lemma_set_override_step(
    a: Seq<SlotView>,
    b: Seq<SlotView>,
    seen: Seq<bool>,
    i: int,
    val: Option<Seq<char>>,
)
    requires
        same_shape(a, b),
        seen.len() == a.len(),
        vals_agree_where_seen(a, b, seen),
        0 <= i < a.len(),
    ensures
        ({
            let sa = set_cli_value(a, seen, i, val);
            let sb = set_cli_value(b, seen, i, val);
            &&& sa.1 == sb.1
            &&& sa.1.len() == seen.len()
            &&& sa.0.len() == a.len()
            &&& sb.0.len() == b.len()
            &&& same_shape(sa.0, sb.0)
            &&& vals_agree_where_seen(sa.0, sb.0, sa.1)
            &&& (forall|j: int| 0 <= j < seen.len() && seen[j] ==> sa.1[j])
            &&& (forall|j: int|
                0 <= j < seen.len() && !(#[trigger] sa.1[j]) ==> sa.0[j].val == a[j].val
                    && sb.0[j].val == b[j].val)
        }),
{
    let sa = set_cli_value(a, seen, i, val);
    let sb = set_cli_value(b, seen, i, val);
    assert(same_shape(sa.0, sb.0));
    assert(vals_agree_where_seen(sa.0, sb.0, sa.1));
}

/// Chains the post of one resolution step with the post of the rest of a
/// run starting from the stepped state.
proof fn lemma_override_post_chain(
    a: Seq<SlotView>,
    b: Seq<SlotView>,
    seen: Seq<bool>,
    i: int,
    val: Option<Seq<char>>,
    oa: (Seq<SlotView>, Seq<bool>),
    ob: (Seq<SlotView>, Seq<bool>),
)
    requires
        same_shape(a, b),
        seen.len() == a.len(),
        vals_agree_where_seen(a, b, seen),
        0 <= i < a.len(),
        override_post(
            set_cli_value(a, seen, i, val).0,
            set_cli_value(b, seen, i, val).0,
            set_cli_value(a, seen, i, val).1,
            oa,
            ob,
        ),
    ensures
        override_post(a, b, seen, oa, ob),
{
    lemma_set_override_step(a, b, seen, i, val);
    let sa = set_cli_value(a, seen, i, val);
    let sb = set_cli_value(b, seen, i, val);
    assert forall|j: int| 0 <= j < seen.len() && seen[j] implies oa.1[j] by {
        assert(sa.1[j]);
    }
    assert forall|j: int|
        0 <= j < seen.len() && !(#[trigger] oa.1[j]) implies oa.0[j].val == a[j].val && ob.0[j].val
        == b[j].val by {
        assert(!sa.1[j]);
        assert(oa.0[j].val == sa.0[j].val && ob.0[j].val == sb.0[j].val);
    }
}

proof fn lemma_cluster_override(
    a: Seq<SlotView>,
    b: Seq<SlotView>,
    seen: Seq<bool>,
    chars: Seq<char>,
    cluster: Seq<char>,
    next: Option<Seq<char>>,
    consumed: bool,
)
    requires
        same_shape(a, b),
        seen.len() == a.len(),
        vals_agree_where_seen(a, b, seen),
    ensures
        ({
            let ra = cluster_step(a, seen, chars, cluster, next, consumed);
            let rb = cluster_step(b, seen, chars, cluster, next, consumed);
            match (ra, rb) {
                (Ok(oa), Ok(ob)) => oa.2 == ob.2 && override_post(
                    a,
                    b,
                    seen,
                    (oa.0, oa.1),
                    (ob.0, ob.1),
                ),
                (Err(ea), Err(eb)) => ea == eb,
                _ => false,
            }
        }),
    decreases chars.len(),
{
    if chars.len() > 0 {
        let c = chars[0];
        lemma_find_short_same(a, b, c, 0);
        lemma_find_short_range(a, c, 0);
        match find_short(a, c) {
            None => {},
            Some(i) => {
                if a[i].consumes && !consumed && next is Some {
                    let v = next->0;
                    lemma_set_override_step(a, b, seen, i, Some(v));
                    let sa = set_cli_value(a, seen, i, Some(v));
                    let sb = set_cli_value(b, seen, i, Some(v));
                    lemma_cluster_override(
                        sa.0,
                        sb.0,
                        sa.1,
                        chars.drop_first(),
                        cluster,
                        next,
                        true,
                    );
                    let ra = cluster_step(a, seen, chars, cluster, next, consumed);
                    let rb = cluster_step(b, seen, chars, cluster, next, consumed);
                    if ra is Ok {
                        let oa = ra->Ok_0;
                        let ob = rb->Ok_0;
                        lemma_override_post_chain(
                            a,
                            b,
                            seen,
                            i,
                            Some(v),
                            (oa.0, oa.1),
                            (ob.0, ob.1),
                        );
                    }
                } else if !a[i].consumes {
                    lemma_set_override_step(a, b, seen, i, None);
                    let sa = set_cli_value(a, seen, i, None);
                    let sb = set_cli_value(b, seen, i, None);
                    lemma_cluster_override(
                        sa.0,
                        sb.0,
                        sa.1,
                        chars.drop_first(),
                        cluster,
                        next,
                        consumed,
                    );
                    let ra = cluster_step(a, seen, chars, cluster, next, consumed);
                    let rb = cluster_step(b, seen, chars, cluster, next, consumed);
                    if ra is Ok {
                        let oa = ra->Ok_0;
                        let ob = rb->Ok_0;
                        lemma_override_post_chain(
                            a,
                            b,
                            seen,
                            i,
                            None,
                            (oa.0, oa.1),
                            (ob.0, ob.1),
                        );
                    }
                }
            },
        }
    }
}

/// Composing the posts of two runs in sequence.
proof fn lemma_override_post_trans(
    a: Seq<SlotView>,
    b: Seq<SlotView>,
    seen: Seq<bool>,
    ma: Seq<SlotView>,
    mb: Seq<SlotView>,
    ms: Seq<bool>,
    oa: (Seq<SlotView>, Seq<bool>),
    ob: (Seq<SlotView>, Seq<bool>),
)
    requires
        override_post(a, b, seen, (ma, ms), (mb, ms)),
        override_post(ma, mb, ms, oa, ob),
    ensures
        override_post(a, b, seen, oa, ob),
{
    assert forall|j: int| 0 <= j < seen.len() && seen[j] implies oa.1[j] by {
        assert(ms[j]);
    }
    assert forall|j: int|
        0 <= j < seen.len() && !(#[trigger] oa.1[j]) implies oa.0[j].val == a[j].val && ob.0[j].val
        == b[j].val by {
        assert(!ms[j]);
        assert(oa.0[j].val == ma[j].val && ob.0[j].val == mb[j].val);
    }
}

/// Chains the outcome of the whole pass through one leading resolution.
proof fn chain_cli(
    a: Seq<SlotView>,
    b: Seq<SlotView>,
    seen: Seq<bool>,
    i: int,
    val: Option<Seq<char>>,
    toks: Seq<Seq<char>>,
)
    requires
        same_shape(a, b),
        seen.len() == a.len(),
        vals_agree_where_seen(a, b, seen),
        0 <= i < a.len(),
        ({
            let ra = cli_pass(a, seen, toks);
            let rb = cli_pass(b, seen, toks);
            match (ra, rb) {
                (Ok(oa), Ok(ob)) => override_post(
                    set_cli_value(a, seen, i, val).0,
                    set_cli_value(b, seen, i, val).0,
                    set_cli_value(a, seen, i, val).1,
                    (oa.0, oa.1),
                    (ob.0, ob.1),
                ),
                (Err(ea), Err(eb)) => ea == eb,
                _ => false,
            }
        }),
    ensures
        ({
            let ra = cli_pass(a, seen, toks);
            let rb = cli_pass(b, seen, toks);
            match (ra, rb) {
                (Ok(oa), Ok(ob)) => override_post(a, b, seen, (oa.0, oa.1), (ob.0, ob.1)),
                (Err(ea), Err(eb)) => ea == eb,
                _ => false,
            }
        }),
{
    let ra = cli_pass(a, seen, toks);
    let rb = cli_pass(b, seen, toks);
    if ra is Ok {
        let oa = ra->Ok_0;
        let ob = rb->Ok_0;
        lemma_override_post_chain(a, b, seen, i, val, (oa.0, oa.1), (ob.0, ob.1));
    }
}

/// Two CLI passes over registries that differ only in raw values run in
/// lockstep: the same error or the same remainder and seen bits, equal
/// final values wherever the pass resolved a slot, and untouched initial
/// values wherever it did not.
pub proof fn lemma_cli_pass_override(
    a: Seq<SlotView>,
    b: Seq<SlotView>,
    seen: Seq<bool>,
    toks: Seq<Seq<char>>,
)
    requires
        same_shape(a, b),
        seen.len() == a.len(),
        vals_agree_where_seen(a, b, seen),
    ensures
        ({
            let ra = cli_pass(a, seen, toks);
            let rb = cli_pass(b, seen, toks);
            match (ra, rb) {
                (Ok(oa), Ok(ob)) => oa.2 == ob.2 && override_post(
                    a,
                    b,
                    seen,
                    (oa.0, oa.1),
                    (ob.0, ob.1),
                ),
                (Err(ea), Err(eb)) => ea == eb,
                _ => false,
            }
        }),
    decreases toks.len(),
{
    if toks.len() > 0 {
        let t = toks[0];
        if is_long_token(t) {
            let name = long_name(t);
            lemma_find_long_same(a, b, name, 0);
            lemma_find_long_range(a, name, 0);
            match find_long(a, name) {
                None => {},
                Some(i) => {
                    if a[i].consumes {
                        match long_inline(t) {
                            Some(v) => {
                                lemma_set_override_step(a, b, seen, i, Some(v));
                                let sa = set_cli_value(a, seen, i, Some(v));
                                let sb = set_cli_value(b, seen, i, Some(v));
                                lemma_cli_pass_override(sa.0, sb.0, sa.1, toks.drop_first());
                                chain_cli(a, b, seen, i, Some(v), toks);
                            },
                            None => {
                                if toks.len() >= 2 {
                                    lemma_set_override_step(a, b, seen, i, Some(toks[1]));
                                    let sa = set_cli_value(a, seen, i, Some(toks[1]));
                                    let sb = set_cli_value(b, seen, i, Some(toks[1]));
                                    lemma_cli_pass_override(
                                        sa.0,
                                        sb.0,
                                        sa.1,
                                        toks.subrange(2, toks.len() as int),
                                    );
                                    chain_cli(a, b, seen, i, Some(toks[1]), toks);
                                }
                            },
                        }
                    } else {
                        lemma_set_override_step(a, b, seen, i, None);
                        let sa = set_cli_value(a, seen, i, None);
                        let sb = set_cli_value(b, seen, i, None);
                        lemma_cli_pass_override(sa.0, sb.0, sa.1, toks.drop_first());
                        chain_cli(a, b, seen, i, None, toks);
                    }
                },
            }
        } else if is_cluster_token(t) {
            let chars = t.subrange(1, t.len() as int);
            let next = if toks.len() >= 2 {
                Some(toks[1])
            } else {
                None
            };
            lemma_cluster_override(a, b, seen, chars, chars, next, false);
            let ra = cluster_step(a, seen, chars, chars, next, false);
            let rb = cluster_step(b, seen, chars, chars, next, false);
            if ra is Ok {
                let (s2a, e2a, took) = ra->Ok_0;
                let (s2b, e2b, _tb) = rb->Ok_0;
                if took && toks.len() >= 2 {
                    lemma_cli_pass_override(s2a, s2b, e2a, toks.subrange(2, toks.len() as int));
                } else {
                    lemma_cli_pass_override(s2a, s2b, e2a, toks.drop_first());
                }
                let pa = cli_pass(a, seen, toks);
                let pb = cli_pass(b, seen, toks);
                if pa is Ok {
                    let oa = pa->Ok_0;
                    let ob = pb->Ok_0;
                    lemma_override_post_trans(
                        a,
                        b,
                        seen,
                        s2a,
                        s2b,
                        e2a,
                        (oa.0, oa.1),
                        (ob.0, ob.1),
                    );
                }
            }
        } else {
            lemma_cli_pass_override(a, b, seen, toks.drop_first());
        }
    }
}

/// The environment overlay changes raw values only, never tags or the
/// value-type properties.
pub proof fn lemma_env_pass_shape(slots: Seq<SlotView>, pairs: Seq<(Seq<char>, Seq<char>)>)
    ensures
        same_shape(env_pass(slots, pairs), slots),
    decreases pairs.len(),
{
    if pairs.len() > 0 {
        lemma_find_env_range(slots, pairs[0].0, 0);
        lemma_env_pass_shape(apply_env_pair(slots, pairs[0].0, pairs[0].1), pairs.drop_first());
    }
}

/// CLI resolution always overrides environment resolution. Resolving one
/// registry against the same tokens under two different environments gives
/// the same outcome shape; every slot the CLI pass resolved carries the
/// same final raw value in both runs, and every slot it left alone keeps
/// what its own overlay set.
pub proof fn lemma_cli_overrides_env(
    slots: Seq<SlotView>,
    pairs1: Seq<(Seq<char>, Seq<char>)>,
    pairs2: Seq<(Seq<char>, Seq<char>)>,
    toks: Seq<Seq<char>>,
)
    ensures
        ({
            let ra = resolve(slots, pairs1, toks);
            let rb = resolve(slots, pairs2, toks);
            match (ra, rb) {
                (Ok(oa), Ok(ob)) => oa.2 == ob.2 && oa.1 == ob.1 && (forall|i: int|
                    0 <= i < slots.len() && (#[trigger] oa.1[i]) ==> oa.0[i].val == ob.0[i].val)
                    && (forall|i: int|
                    0 <= i < slots.len() && !(#[trigger] oa.1[i]) ==> oa.0[i].val == env_pass(
                        slots,
                        pairs1,
                    )[i].val && ob.0[i].val == env_pass(slots, pairs2)[i].val),
                (Err(ea), Err(eb)) => ea == eb,
                _ => false,
            }
        }),
{
    let e1 = env_pass(slots, pairs1);
    let e2 = env_pass(slots, pairs2);
    lemma_env_pass_shape(slots, pairs1);
    lemma_env_pass_shape(slots, pairs2);
    lemma_env_pass_len(slots, pairs1);
    lemma_env_pass_len(slots, pairs2);
    lemma_cli_pass_override(e1, e2, no_seen(slots.len()), toks);
}

/// Whether a CLI token mentions a tag at all: a long token through its long
/// name, a cluster token through any of its characters. A token consumed as
/// a value mentions nothing, but this predicate does not know which tokens
/// are values, so it over-approximates: a slot no token mentions is
/// certainly untouched.
pub open spec fn token_mentions(tag: FullView, t: Seq<char>) -> bool {
    if is_long_token(t) {
        full_matches_long(tag, long_name(t))
    } else if is_cluster_token(t) {
        exists|k: int| 1 <= k < t.len() && full_matches_short(tag, #[trigger] t[k])
    } else {
        false
    }
}

proof fn lemma_cluster_ignores_unmentioned(
    slots: Seq<SlotView>,
    seen: Seq<bool>,
    chars: Seq<char>,
    cluster: Seq<char>,
    next: Option<Seq<char>>,
    consumed: bool,
    i: int,
)
    requires
        0 <= i < slots.len(),
        seen.len() == slots.len(),
        forall|k: int| 0 <= k < chars.len() ==> !full_matches_short(slots[i].tag, #[trigger] chars[k]),
    ensures
        ({
            match cluster_step(slots, seen, chars, cluster, next, consumed) {
                Ok(o) => o.0.len() == slots.len() && o.1.len() == seen.len() && o.0[i] == slots[i]
                    && o.1[i] == seen[i],
                Err(_) => true,
            }
        }),
    decreases chars.len(),
{
    if chars.len() > 0 {
        let c = chars[0];
        lemma_find_short_range(slots, c, 0);
        match find_short(slots, c) {
            None => {},
            Some(j) => {
                if slots[j].consumes && !consumed && next is Some {
                    let sv = set_cli_value(slots, seen, j, Some(next->0));
                    lemma_cluster_ignores_unmentioned(
                        sv.0,
                        sv.1,
                        chars.drop_first(),
                        cluster,
                        next,
                        true,
                        i,
                    );
                } else if !slots[j].consumes {
                    let sv = set_cli_value(slots, seen, j, None);
                    lemma_cluster_ignores_unmentioned(
                        sv.0,
                        sv.1,
                        chars.drop_first(),
                        cluster,
                        next,
                        consumed,
                        i,
                    );
                }
            },
        }
    }
}

/// A slot no CLI token mentions comes out of the CLI pass exactly as it
/// went in.
pub proof fn lemma_cli_pass_ignores_unmentioned(
    slots: Seq<SlotView>,
    seen: Seq<bool>,
    toks: Seq<Seq<char>>,
    i: int,
)
    requires
        0 <= i < slots.len(),
        seen.len() == slots.len(),
        forall|t: int| 0 <= t < toks.len() ==> !token_mentions(slots[i].tag, #[trigger] toks[t]),
    ensures
        ({
            match cli_pass(slots, seen, toks) {
                Ok(o) => o.0.len() == slots.len() && o.1.len() == seen.len() && o.0[i] == slots[i]
                    && o.1[i] == seen[i],
                Err(_) => true,
            }
        }),
    decreases toks.len(),
{
    if toks.len() > 0 {
        let t = toks[0];
        assert(!token_mentions(slots[i].tag, toks[0]));
        if is_long_token(t) {
            let name = long_name(t);
            lemma_find_long_range(slots, name, 0);
            match find_long(slots, name) {
                None => {},
                Some(j) => {
                    assert(j != i);
                    if slots[j].consumes {
                        match long_inline(t) {
                            Some(v) => {
                                let sv = set_cli_value(slots, seen, j, Some(v));
                                assert forall|u: int|
                                    0 <= u < toks.drop_first().len() implies !token_mentions(
                                    sv.0[i].tag,
                                    #[trigger] toks.drop_first()[u],
                                ) by {
                                    assert(toks.drop_first()[u] == toks[u + 1]);
                                }
                                lemma_cli_pass_ignores_unmentioned(
                                    sv.0,
                                    sv.1,
                                    toks.drop_first(),
                                    i,
                                );
                            },
                            None => {
                                if toks.len() >= 2 {
                                    let sv = set_cli_value(slots, seen, j, Some(toks[1]));
                                    let rest = toks.subrange(2, toks.len() as int);
                                    assert forall|u: int|
                                        0 <= u < rest.len() implies !token_mentions(
                                        sv.0[i].tag,
                                        #[trigger] rest[u],
                                    ) by {
                                        assert(rest[u] == toks[u + 2]);
                                    }
                                    lemma_cli_pass_ignores_unmentioned(sv.0, sv.1, rest, i);
                                }
                            },
                        }
                    } else {
                        let sv = set_cli_value(slots, seen, j, None);
                        assert forall|u: int|
                            0 <= u < toks.drop_first().len() implies !token_mentions(
                            sv.0[i].tag,
                            #[trigger] toks.drop_first()[u],
                        ) by {
                            assert(toks.drop_first()[u] == toks[u + 1]);
                        }
                        lemma_cli_pass_ignores_unmentioned(sv.0, sv.1, toks.drop_first(), i);
                    }
                },
            }
        } else if is_cluster_token(t) {
            let chars = t.subrange(1, t.len() as int);
            let next = if toks.len() >= 2 {
                Some(toks[1])
            } else {
                None
            };
            assert forall|k: int| 0 <= k < chars.len() implies !full_matches_short(
                slots[i].tag,
                #[trigger] chars[k],
            ) by {
                assert(chars[k] == t[k + 1]);
            }
            lemma_cluster_ignores_unmentioned(slots, seen, chars, chars, next, false, i);
            let cs = cluster_step(slots, seen, chars, chars, next, false);
            if cs is Ok {
                let (s2, e2, took) = cs->Ok_0;
                if took && toks.len() >= 2 {
                    let rest = toks.subrange(2, toks.len() as int);
                    assert forall|u: int| 0 <= u < rest.len() implies !token_mentions(
                        s2[i].tag,
                        #[trigger] rest[u],
                    ) by {
                        assert(rest[u] == toks[u + 2]);
                    }
                    lemma_cli_pass_ignores_unmentioned(s2, e2, rest, i);
                } else {
                    assert forall|u: int| 0 <= u < toks.drop_first().len() implies !token_mentions(
                        s2[i].tag,
                        #[trigger] toks.drop_first()[u],
                    ) by {
                        assert(toks.drop_first()[u] == toks[u + 1]);
                    }
                    lemma_cli_pass_ignores_unmentioned(s2, e2, toks.drop_first(), i);
                }
            }
        } else {
            assert forall|u: int| 0 <= u < toks.drop_first().len() implies !token_mentions(
                slots[i].tag,
                #[trigger] toks.drop_first()[u],
            ) by {
                assert(toks.drop_first()[u] == toks[u + 1]);
            }
            lemma_cli_pass_ignores_unmentioned(slots, seen, toks.drop_first(), i);
        }
    }
}

/// A slot whose environment name no pair carries comes out of the overlay
/// unchanged.
pub proof fn lemma_env_pass_ignores_unmentioned(
    slots: Seq<SlotView>,
    pairs: Seq<(Seq<char>, Seq<char>)>,
    i: int,
)
    requires
        0 <= i < slots.len(),
        forall|p: int| 0 <= p < pairs.len() ==> !full_matches_env(slots[i].tag, (#[trigger] pairs[p]).0),
    ensures
        env_pass(slots, pairs).len() == slots.len(),
        env_pass(slots, pairs)[i] == slots[i],
    decreases pairs.len(),
{
    lemma_env_pass_len(slots, pairs);
    if pairs.len() > 0 {
        lemma_find_env_range(slots, pairs[0].0, 0);
        let next = apply_env_pair(slots, pairs[0].0, pairs[0].1);
        assert forall|p: int| 0 <= p < pairs.drop_first().len() implies !full_matches_env(
            next[i].tag,
            (#[trigger] pairs.drop_first()[p]).0,
        ) by {
            assert(pairs.drop_first()[p] == pairs[p + 1]);
        }
        lemma_env_pass_ignores_unmentioned(next, pairs.drop_first(), i);
    }
}

/// A non-consuming (flag) slot that nothing mentions — no environment pair
/// and no CLI token — stays unset through the whole resolution, and reading
/// it as `bool` under the contract default yields false, never absence.
pub proof fn lemma_unmentioned_flag_resolves_false(
    slots: Seq<SlotView>,
    pairs: Seq<(Seq<char>, Seq<char>)>,
    toks: Seq<Seq<char>>,
    i: int,
    r: ArgResult<bool>,
)
    requires
        0 <= i < slots.len(),
        slots[i].val is None,
        forall|p: int| 0 <= p < pairs.len() ==> !full_matches_env(slots[i].tag, (#[trigger] pairs[p]).0),
        forall|t: int| 0 <= t < toks.len() ==> !token_mentions(slots[i].tag, #[trigger] toks[t]),
        resolve(slots, pairs, toks) is Ok,
        ArgumentRef::<bool>::get_post((resolve(slots, pairs, toks)->Ok_0).0[i], r),
    ensures
        (resolve(slots, pairs, toks)->Ok_0).0[i].val is None,
        r == Some(Ok::<bool, crate::NoError>(false)),
{
    let e = env_pass(slots, pairs);
    lemma_env_pass_ignores_unmentioned(slots, pairs, i);
    lemma_cli_pass_ignores_unmentioned(e, no_seen(slots.len()), toks, i);
    let slot = (resolve(slots, pairs, toks)->Ok_0).0[i];
    assert(slot.val is None);
    assert(bool::obeys_contract());
    match r {
        None => {
            assert(bool::default_value_ensures(None));
            assert(false);
        },
        Some(Ok(x)) => {
            assert(bool::default_value_ensures(Some(x)));
        },
        Some(Err(_)) => {
            assert(false);
        },
    }
}

} // verus!
