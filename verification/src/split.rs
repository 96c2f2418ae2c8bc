//! Splitting text at a separator into at most `n` pieces, the last of which
//! keeps the rest of the text, as `str::splitn` does.

use vstd::prelude::*;

verus! {

/// The index of the first `sep` in `s`, or `s.len()` where there is none.
pub open spec fn first_sep(s: Seq<char>, sep: char) -> nat
    decreases s.len(),
{
    if s.len() == 0 {
        0
    } else if s[0] == sep {
        0
    } else {
        1 + first_sep(s.drop_first(), sep)
    }
}

/// The pieces of `s` split at `sep`, at most `n` of them: where `n` pieces
/// are reached, the last holds the rest of `s`, separators and all.
pub open spec fn splitn(s: Seq<char>, n: nat, sep: char) -> Seq<Seq<char>>
    decreases n,
{
    if n == 0 {
        Seq::empty()
    } else if n == 1 {
        seq![s]
    } else {
        let i = first_sep(s, sep);
        if i < s.len() {
            seq![s.take(i as int)] + splitn(s.skip(i + 1 as int), (n - 1) as nat, sep)
        } else {
            seq![s]
        }
    }
}

/// What `first_sep` is: no `sep` before it, and `sep` at it unless it is the end.
pub proof fn lemma_first_sep(s: Seq<char>, sep: char)
    ensures
        first_sep(s, sep) <= s.len(),
        forall|j: int| 0 <= j < first_sep(s, sep) ==> s[j] != sep,
        first_sep(s, sep) < s.len() ==> s[first_sep(s, sep) as int] == sep,
    decreases s.len(),
{
    if s.len() > 0 && s[0] != sep {
        lemma_first_sep(s.drop_first(), sep);
        assert forall|j: int| 0 <= j < first_sep(s, sep) implies s[j] != sep by {
            if j > 0 {
                assert(s[j] == s.drop_first()[j - 1]);
            }
        }
    }
}

/// The first separator is the only index with no separator before it and
/// a separator (or the end) at it.
pub proof fn lemma_first_sep_unique(s: Seq<char>, sep: char, k: int)
    requires
        0 <= k <= s.len(),
        forall|j: int| 0 <= j < k ==> s[j] != sep,
        k < s.len() ==> s[k] == sep,
    ensures
        first_sep(s, sep) == k,
{
    lemma_first_sep(s, sep);
}

/// Text with no separator in it, a separator, then the rest: the first piece
/// is that text, and the rest is split into one piece fewer.
pub proof fn lemma_splitn_head(t: Seq<char>, r: Seq<char>, n: nat, sep: char)
    requires
        n >= 2,
        !t.contains(sep),
    ensures
        splitn(t + seq![sep] + r, n, sep) == seq![t] + splitn(r, (n - 1) as nat, sep),
{
    let s = t + seq![sep] + r;
    assert forall|j: int| 0 <= j < t.len() implies s[j] != sep by {
        assert(s[j] == t[j]);
    }
    lemma_first_sep_unique(s, sep, t.len() as int);
    assert(s.take(t.len() as int) =~= t);
    assert(s.skip(t.len() + 1 as int) =~= r);
}

/// The pieces joined again, with `sep` between each two of them.
pub open spec fn join(parts: Seq<Seq<char>>, sep: char) -> Seq<char>
    decreases parts.len(),
{
    if parts.len() == 0 {
        Seq::empty()
    } else if parts.len() == 1 {
        parts[0]
    } else {
        parts[0] + seq![sep] + join(parts.drop_first(), sep)
    }
}

/// Splitting into at most `n >= 1` pieces gives between one and `n` pieces,
/// and joining them with the separator gives the text back.
pub proof fn lemma_splitn_join(s: Seq<char>, n: nat, sep: char)
    requires
        n >= 1,
    ensures
        1 <= splitn(s, n, sep).len() <= n,
        join(splitn(s, n, sep), sep) == s,
    decreases n,
{
    if n >= 2 {
        let i = first_sep(s, sep);
        lemma_first_sep(s, sep);
        if i < s.len() {
            let rest = s.skip(i + 1 as int);
            lemma_splitn_join(rest, (n - 1) as nat, sep);
            let parts = splitn(s, n, sep);
            assert(parts.drop_first() =~= splitn(rest, (n - 1) as nat, sep));
            assert(s =~= s.take(i as int) + seq![sep] + rest);
        }
    }
}

/// The text that each range of `ranges` covers in `s`.
pub open spec fn range_texts(s: Seq<char>, ranges: Seq<(usize, usize)>) -> Seq<Seq<char>> {
    ranges.map_values(|r: (usize, usize)| s.subrange(r.0 as int, r.1 as int))
}

/// The ranges of the pieces of `s` split at `sep`, at most `n` of them: the
/// first starts at 0, the last ends at the end of `s`, and each next one
/// starts just after the separator that ends the one before.
#[verifier::spinoff_prover]
pub fn split_ranges(s: &Vec<char>, n: usize, sep: char) -> (out: Vec<(usize, usize)>)
    ensures
        forall|k: int|
            0 <= k < out@.len() ==> #[trigger] out@[k].0 <= out@[k].1 <= s@.len(),
        n >= 1 ==> out@.len() >= 1 && out@[0].0 == 0 && out@.last().1 == s@.len(),
        forall|k: int|
            0 < k < out@.len() ==> #[trigger] out@[k].0 == out@[k - 1].1 + 1 && s@[out@[k
                - 1].1 as int] == sep,
        range_texts(s@, out@) == splitn(s@, n as nat, sep),
{
    let mut out: Vec<(usize, usize)> = Vec::new();
    if n == 0 {
        assert(range_texts(s@, out@) =~= Seq::<Seq<char>>::empty());
        return out;
    }
    let len = s.len();
    let mut start: usize = 0;
    let mut m: usize = n;
    assert(s@.skip(0) =~= s@);
    assert(range_texts(s@, out@) + splitn(s@.skip(0), m as nat, sep) =~= splitn(s@, n as nat, sep));
    while m > 1
        invariant
            len == s@.len(),
            1 <= m <= n,
            start <= len,
            forall|k: int| 0 <= k < out@.len() ==> #[trigger] out@[k].0 <= out@[k].1 <= s@.len(),
            out@.len() == 0 ==> start == 0,
            out@.len() > 0 ==> out@[0].0 == 0 && out@.last().1 + 1 == start && s@[out@.last().1 as int] == sep,
            forall|k: int|
                0 < k < out@.len() ==> #[trigger] out@[k].0 == out@[k - 1].1 + 1 && s@[out@[k
                    - 1].1 as int] == sep,
            range_texts(s@, out@) + splitn(s@.skip(start as int), m as nat, sep) == splitn(
                s@,
                n as nat,
                sep,
            ),
        decreases m,
    {
        let ghost rest = s@.skip(start as int);
        let mut i = start;
        while i < len && s[i] != sep
            invariant
                len == s@.len(),
                start <= i <= len,
                forall|j: int| start <= j < i ==> s@[j] != sep,
            decreases len - i,
        {
            i = i + 1;
        }
        proof {
            assert forall|j: int| 0 <= j < i - start implies rest[j] != sep by {
                assert(rest[j] == s@[start + j]);
            }
            lemma_first_sep_unique(rest, sep, i - start);
        }
        if i == len {
            // No separator is left: the rest is one piece.
            m = 1;
        } else {
            let ghost old_out = out@;
            proof {
                assert(rest.take(i - start) =~= s@.subrange(start as int, i as int));
                assert(rest.skip(i - start + 1) =~= s@.skip(i + 1));
            }
            out.push((start, i));
            assert forall|k: int| 0 < k < out@.len() implies #[trigger] out@[k].0 == out@[k - 1].1 + 1
                && s@[out@[k - 1].1 as int] == sep by {
                if k < old_out.len() {
                    assert(out@[k] == old_out[k]);
                    assert(out@[k - 1] == old_out[k - 1]);
                } else {
                    assert(out@[k - 1] == old_out.last());
                }
            }
            assert(range_texts(s@, out@) =~= range_texts(s@, old_out).push(
                s@.subrange(start as int, i as int),
            ));
            assert(range_texts(s@, out@) + splitn(s@.skip(i + 1), (m - 1) as nat, sep)
                =~= range_texts(s@, old_out) + splitn(rest, m as nat, sep));
            start = i + 1;
            m = m - 1;
        }
    }
    let ghost old_out = out@;
    out.push((start, len));
    assert forall|k: int| 0 <= k < out@.len() implies #[trigger] out@[k].0 <= out@[k].1 <= s@.len() by {
        if k < old_out.len() {
            assert(out@[k] == old_out[k]);
        }
    }
    assert forall|k: int| 0 < k < out@.len() implies #[trigger] out@[k].0 == out@[k - 1].1 + 1
        && s@[out@[k - 1].1 as int] == sep by {
        if k < old_out.len() {
            assert(out@[k] == old_out[k]);
            assert(out@[k - 1] == old_out[k - 1]);
        } else {
            assert(out@[k - 1] == old_out.last());
        }
    }
    assert(s@.skip(start as int) =~= s@.subrange(start as int, len as int));
    assert(range_texts(s@, out@) =~= range_texts(s@, old_out) + splitn(
        s@.skip(start as int),
        1,
        sep,
    ));
    out
}

/// The characters of `s`, in order.
pub fn chars_of(s: &str) -> (v: Vec<char>)
    ensures
        v@ == s@,
{
    let n = s.unicode_len();
    let mut v: Vec<char> = Vec::new();
    let mut i: usize = 0;
    while i < n
        invariant
            n == s@.len(),
            i <= n,
            v@ == s@.take(i as int),
        decreases n - i,
    {
        v.push(s.get_char(i));
        i = i + 1;
        assert(v@ =~= s@.take(i as int));
    }
    assert(s@.take(n as int) =~= s@);
    v
}

} // verus!
