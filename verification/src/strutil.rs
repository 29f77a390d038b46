//! Small verified string utilities used by the tokenizer and the value
//! contracts: equality, character search, comma splitting and joining.

use vstd::prelude::*;
use vstd::string::StrSliceExecFns;
use vstd::string::StringExecFns;
use vstd::string::StringSliceAdditionalSpecFns;

verus! {

/// Character-wise string equality, proved equivalent to view equality.
pub fn str_eq(a: &str, b: &str) -> (r: bool)
    ensures
        r == (a@ == b@),
{
    let an = a.unicode_len();
    let bn = b.unicode_len();
    if an != bn {
        return false;
    }
    let mut i: usize = 0;
    while i < an
        invariant
            an == a@.len(),
            an == b@.len(),
            i <= an,
            forall|j: int| 0 <= j < i ==> a@[j] == b@[j],
        decreases an - i,
    {
        if a.get_char(i) != b.get_char(i) {
            return false;
        }
        i = i + 1;
    }
    proof {
        assert(a@ =~= b@);
    }
    true
}

/// The first position of `c` in `s` at or after `from`, if any.
pub open spec fn find_char_from(s: Seq<char>, c: char, from: int) -> Option<int>
    decreases s.len() - from,
{
    if from < 0 || from >= s.len() {
        None
    } else if s[from] == c {
        Some(from)
    } else {
        find_char_from(s, c, from + 1)
    }
}

/// Linear search for a character, proved equal to [`find_char_from`].
pub fn str_find_char(s: &str, c: char, from: usize) -> (r: Option<usize>)
    requires
        from <= s@.len(),
    ensures
        match r {
            Some(i) => from <= i < s@.len() && find_char_from(s@, c, from as int) == Some(i as int),
            None => find_char_from(s@, c, from as int) is None,
        },
{
    let n = s.unicode_len();
    let mut i: usize = from;
    while i < n
        invariant
            n == s@.len(),
            from <= i <= n,
            find_char_from(s@, c, from as int) == find_char_from(s@, c, i as int),
        decreases n - i,
    {
        if s.get_char(i) == c {
            return Some(i);
        }
        i = i + 1;
    }
    None
}

/// Comma splitting with an accumulator for the piece being read: the pieces
/// of `cur + s`, where `cur` holds the characters read since the last comma.
pub open spec fn split_commas_acc(s: Seq<char>, cur: Seq<char>) -> Seq<Seq<char>>
    decreases s.len(),
{
    if s.len() == 0 {
        seq![cur]
    } else if s[0] == ',' {
        seq![cur] + split_commas_acc(s.drop_first(), Seq::empty())
    } else {
        split_commas_acc(s.drop_first(), cur.push(s[0]))
    }
}

/// The comma-separated pieces of `s`. An empty string has one empty piece;
/// adjacent commas produce empty pieces.
pub open spec fn split_commas(s: Seq<char>) -> Seq<Seq<char>> {
    split_commas_acc(s, Seq::empty())
}

/// Splits a string on commas, proved equal to [`split_commas`].
pub fn split_str_commas(s: &str) -> (parts: Vec<String>)
    ensures
        parts.deep_view() == split_commas(s@),
{
    let n = s.unicode_len();
    let mut parts: Vec<String> = Vec::new();
    let mut start: usize = 0;
    let mut i: usize = 0;
    proof {
        assert(s@.subrange(0, n as int) =~= s@);
        assert(s@.subrange(0, 0) =~= Seq::<char>::empty());
    }
    while i < n
        invariant
            n == s@.len(),
            start <= i <= n,
            split_commas(s@) == parts.deep_view() + split_commas_acc(
                s@.subrange(i as int, n as int),
                s@.subrange(start as int, i as int),
            ),
        decreases n - i,
    {
        let ghost rest = s@.subrange(i as int, n as int);
        let ghost cur = s@.subrange(start as int, i as int);
        proof {
            assert(rest[0] == s@[i as int]);
            assert(rest.drop_first() =~= s@.subrange(i + 1, n as int));
        }
        if s.get_char(i) == ',' {
            let piece = s.substring_char(start, i);
            let ghost old_parts = parts.deep_view();
            parts.push(String::from_str(piece));
            proof {
                assert(parts.deep_view() =~= old_parts.push(cur));
                assert(s@.subrange(i + 1, i + 1) =~= Seq::<char>::empty());
                assert(old_parts.push(cur) + split_commas_acc(rest.drop_first(), Seq::empty())
                    =~= old_parts + split_commas_acc(rest, cur));
            }
            start = i + 1;
        } else {
            proof {
                assert(cur.push(s@[i as int]) =~= s@.subrange(start as int, i + 1));
            }
        }
        i = i + 1;
    }
    let piece = s.substring_char(start, n);
    let ghost old_parts = parts.deep_view();
    parts.push(String::from_str(piece));
    proof {
        assert(s@.subrange(n as int, n as int) =~= Seq::<char>::empty());
        assert(parts.deep_view() =~= old_parts.push(s@.subrange(start as int, n as int)));
        assert(parts.deep_view() =~= old_parts + split_commas_acc(
            s@.subrange(n as int, n as int),
            s@.subrange(start as int, n as int),
        ));
    }
    parts
}

/// Joins two raw values with a comma, as repeated occurrences of a
/// repeatable flag accumulate.
pub fn join_with_comma(a: &str, b: &str) -> (r: String)
    ensures
        r@ == a@ + seq![','] + b@,
{
    proof {
        reveal_strlit(",");
        assert(","@ =~= seq![',']);
    }
    let joined = String::from_str(a).concat(",").concat(b);
    proof {
        assert(joined@ =~= a@ + seq![','] + b@);
    }
    joined
}

/// Copies a byte slice into a fixed-size array whose length must match.
fn clone_bytes<const N: usize>(bytes: &[u8]) -> (r: [u8; N])
    requires
        bytes@.len() == N,
    ensures
        r@ == bytes@,
{
    let mut buf: [u8; N] = [0; N];
    let mut i: usize = 0;
    while i < N
        invariant
            bytes@.len() == N,
            buf@.len() == N,
            i <= N,
            forall|j: int| 0 <= j < i ==> buf@[j] == bytes@[j],
        decreases N - i,
    {
        buf[i] = bytes[i];
        i = i + 1;
    }
    proof {
        assert(buf@ =~= bytes@);
    }
    buf
}

/// Byte-for-byte character replacement over an ASCII-compatible string: the
/// result holds the input's bytes with every `from` byte replaced by `to`.
pub fn replace<const N: usize>(input: &str, from: char, to: char) -> (r: [u8; N])
    requires
        input.spec_bytes().len() == N,
        (from as u32) < 128,
        (to as u32) < 128,
    ensures
        r@.len() == N,
        forall|i: int|
            0 <= i < N ==> r@[i] == if input.spec_bytes()[i] == (from as u32) as u8 {
                (to as u32) as u8
            } else {
                input.spec_bytes()[i]
            },
{
    let from_b: u8 = (from as u32) as u8;
    let to_b: u8 = (to as u32) as u8;
    let bytes = input.as_bytes();
    let mut buf: [u8; N] = clone_bytes(bytes);
    let mut i: usize = 0;
    while i < N
        invariant
            buf@.len() == N,
            input.spec_bytes().len() == N,
            i <= N,
            forall|j: int|
                0 <= j < i ==> buf@[j] == if input.spec_bytes()[j] == from_b {
                    to_b
                } else {
                    input.spec_bytes()[j]
                },
            forall|j: int| i <= j < N ==> buf@[j] == input.spec_bytes()[j],
        decreases N - i,
    {
        if buf[i] == from_b {
            buf[i] = to_b;
        }
        i = i + 1;
    }
    buf
}

/// Relies on `char::to_string`: the one-character string of `c`.
#[verifier::external_body]
pub fn char_to_string(c: char) -> (s: String)
    ensures
        s@ == seq![c],
{
    c.to_string()
}

} // verus!
