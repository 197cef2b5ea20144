//! Splitting character sequences on a separator, with an exact
//! mathematical description of the split.

use vstd::prelude::*;

verus! {

/// Index of the first occurrence of `x` in `xs`, or `xs.len()` if `x`
/// does not occur.
pub open spec fn first_index<T>(xs: Seq<T>, x: T) -> int
    decreases xs.len(),
{
    if xs.len() == 0 {
        0
    } else if xs[0] == x {
        0
    } else {
        1 + first_index(xs.skip(1), x)
    }
}

/// `first_index` lies in `[0, xs.len()]`, nothing before it equals `x`,
/// and if it is a valid index it points at an `x`.
pub proof fn lemma_first_index<T>(xs: Seq<T>, x: T)
    ensures
        0 <= first_index(xs, x) <= xs.len(),
        forall|j: int| 0 <= j < first_index(xs, x) ==> xs[j] != x,
        first_index(xs, x) < xs.len() ==> xs[first_index(xs, x)] == x,
    decreases xs.len(),
{
    if xs.len() == 0 {
    } else if xs[0] == x {
    } else {
        lemma_first_index(xs.skip(1), x);
        assert forall|j: int| 0 <= j < first_index(xs, x) implies xs[j] != x by {
            if j > 0 {
                assert(xs.skip(1)[j - 1] == xs[j]);
            }
        }
        if first_index(xs, x) < xs.len() {
            assert(xs.skip(1)[first_index(xs, x) - 1] == xs[first_index(xs, x)]);
        }
    }
}

/// The pieces of `s` between occurrences of `sep`, in order.  An empty
/// sequence splits into one empty piece; `n` separators yield `n + 1`
/// pieces, some possibly empty.
pub open spec fn split_on(s: Seq<char>, sep: char) -> Seq<Seq<char>>
    decreases s.len(),
    via split_on_decreases
{
    let i = first_index(s, sep);
    if i == s.len() {
        seq![s]
    } else {
        seq![s.take(i)] + split_on(s.skip(i + 1), sep)
    }
}

#[via_fn]
proof fn split_on_decreases(s: Seq<char>, sep: char) {
    lemma_first_index(s, sep);
}

/// Splits `s` at every occurrence of `sep`, as `split_on` describes.
pub fn split_char(s: &str, sep: char) -> (parts: Vec<String>)
    ensures
        parts.deep_view() == split_on(s@, sep),
{
    let n = s.unicode_len();
    let mut parts: Vec<String> = Vec::new();
    let mut start: usize = 0;
    let mut i: usize = 0;
    proof {
        assert(s@.skip(0) =~= s@);
    }
    while i < n
        invariant
            n == s@.len(),
            start <= i <= n,
            forall|j: int| start <= j < i ==> s@[j] != sep,
            split_on(s@, sep) == parts.deep_view() + split_on(s@.skip(start as int), sep),
        decreases n - i,
    {
        if s.get_char(i) == sep {
            let piece = String::from_str(s.substring_char(start, i));
            proof {
                let tail = s@.skip(start as int);
                lemma_first_index(tail, sep);
                assert(tail[i - start] == s@[i as int]);
                assert forall|j: int| 0 <= j < i - start implies tail[j] != sep by {
                    assert(tail[j] == s@[start + j]);
                }
                assert(first_index(tail, sep) == i - start);
                assert(tail.take(i - start) =~= s@.subrange(start as int, i as int));
                assert(tail.skip(i - start + 1) =~= s@.skip(i + 1));
                assert(split_on(tail, sep) == seq![s@.subrange(start as int, i as int)]
                    + split_on(s@.skip(i + 1), sep));
            }
            let ghost old_parts = parts.deep_view();
            parts.push(piece);
            proof {
                assert(parts.deep_view() =~~= old_parts.push(piece@));
                assert(old_parts.push(piece@) =~~= old_parts + seq![piece@]);
                assert(parts.deep_view() + split_on(s@.skip(i + 1), sep) =~~= split_on(
                    s@,
                    sep,
                ));
            }
            start = i + 1;
        }
        i += 1;
    }
    let piece = String::from_str(s.substring_char(start, n));
    proof {
        let tail = s@.skip(start as int);
        lemma_first_index(tail, sep);
        assert forall|j: int| 0 <= j < tail.len() implies tail[j] != sep by {
            assert(tail[j] == s@[start + j]);
        }
        assert(first_index(tail, sep) == tail.len());
        assert(tail =~= s@.subrange(start as int, n as int));
    }
    let ghost old_parts = parts.deep_view();
    parts.push(piece);
    proof {
        assert(parts.deep_view() =~~= old_parts.push(piece@));
        assert(parts.deep_view() =~~= old_parts + seq![piece@]);
        assert(parts.deep_view() =~~= split_on(s@, sep));
    }
    parts
}

} // verus!
