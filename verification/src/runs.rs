//! Runs of characters at the two ends of a text.
//!
//! A tokenizer of this library consumes the longest prefix of its input whose
//! characters all lie in one class. This module measures such prefixes, and the
//! suffixes that trimming removes, on mathematical sequences.

use vstd::prelude::*;

verus! {

/// Every character of `s` lies in `class`.
pub open spec fn all_in(s: Seq<char>, class: Set<char>) -> bool {
    forall|i: int| 0 <= i < s.len() ==> class.contains(#[trigger] s[i])
}

/// The length of the longest prefix of `s` whose characters all lie in `class`.
pub open spec fn run_len(s: Seq<char>, class: Set<char>) -> nat
    decreases s.len(),
{
    if s.len() > 0 && class.contains(s[0]) {
        1 + run_len(s.drop_first(), class)
    } else {
        0
    }
}

/// The longest prefix of `s` whose characters all lie in `class`.
pub open spec fn take_while(s: Seq<char>, class: Set<char>) -> Seq<char> {
    s.take(run_len(s, class) as int)
}

/// What is left of `s` behind [`take_while`]: it is empty or starts outside `class`.
pub open spec fn skip_while(s: Seq<char>, class: Set<char>) -> Seq<char> {
    s.skip(run_len(s, class) as int)
}

/// The length of the longest suffix of `s` whose characters all lie in `class`.
pub open spec fn trailing_len(s: Seq<char>, class: Set<char>) -> nat
    decreases s.len(),
{
    if s.len() > 0 && class.contains(s.last()) {
        1 + trailing_len(s.drop_last(), class)
    } else {
        0
    }
}

/// `s` without its longest suffix of characters of `class`.
pub open spec fn without_trailing(s: Seq<char>, class: Set<char>) -> Seq<char> {
    s.take(s.len() - trailing_len(s, class))
}

/// The run at the front of `s` fits in `s`, lies in `class`, and is stopped by
/// the end of `s` or by a character outside `class`.
pub proof fn lemma_run_len(s: Seq<char>, class: Set<char>)
    ensures
        run_len(s, class) <= s.len(),
        all_in(take_while(s, class), class),
        run_len(s, class) < s.len() ==> !class.contains(s[run_len(s, class) as int]),
    decreases s.len(),
{
    if s.len() > 0 && class.contains(s[0]) {
        let rest = s.drop_first();
        lemma_run_len(rest, class);
        let n = run_len(rest, class) as int;
        assert forall|i: int| 0 <= i < n + 1 implies class.contains(
            #[trigger] s.take(n + 1)[i],
        ) by {
            if i > 0 {
                assert(s.take(n + 1)[i] == rest.take(n)[i - 1]);
            }
        }
        if n + 1 < s.len() {
            assert(s[n + 1] == rest[n]);
        }
    }
}

/// A prefix that lies in `class` and is stopped by the end of `s` or by a
/// character outside `class` is the run at the front of `s`.
pub proof fn lemma_run_len_unique(s: Seq<char>, class: Set<char>, n: int)
    requires
        0 <= n <= s.len(),
        all_in(s.take(n), class),
        n < s.len() ==> !class.contains(s[n]),
    ensures
        run_len(s, class) == n,
    decreases s.len(),
{
    if n == 0 {
    } else {
        assert(s.take(n)[0] == s[0]);
        let rest = s.drop_first();
        assert forall|i: int| 0 <= i < n - 1 implies class.contains(
            #[trigger] rest.take(n - 1)[i],
        ) by {
            assert(rest.take(n - 1)[i] == s.take(n)[i + 1]);
        }
        if n < s.len() {
            assert(rest[n - 1] == s[n]);
        }
        lemma_run_len_unique(rest, class, n - 1);
    }
}

/// A text of `class` in front of `b` lengthens the run at the front of `b` by its own length.
pub proof fn lemma_run_len_concat(a: Seq<char>, b: Seq<char>, class: Set<char>)
    requires
        all_in(a, class),
    ensures
        run_len(a + b, class) == a.len() + run_len(b, class),
        take_while(a + b, class) == a + take_while(b, class),
        skip_while(a + b, class) == skip_while(b, class),
{
    lemma_run_len(b, class);
    let n = (a.len() + run_len(b, class)) as int;
    let s = a + b;
    assert forall|i: int| 0 <= i < n implies class.contains(#[trigger] s.take(n)[i]) by {
        if i >= a.len() {
            assert(s.take(n)[i] == take_while(b, class)[i - a.len()]);
        } else {
            assert(s.take(n)[i] == a[i]);
        }
    }
    if n < s.len() {
        assert(s[n] == b[run_len(b, class) as int]);
    }
    lemma_run_len_unique(s, class, n);
    assert(take_while(s, class) =~= a + take_while(b, class));
    assert(skip_while(s, class) =~= skip_while(b, class));
}

/// A text that is empty or starts outside `class` has no run at its front.
pub proof fn lemma_run_len_none(s: Seq<char>, class: Set<char>)
    requires
        s.len() > 0 ==> !class.contains(s[0]),
    ensures
        run_len(s, class) == 0,
        take_while(s, class) == Seq::<char>::empty(),
        skip_while(s, class) == s,
{
    assert(take_while(s, class) =~= Seq::<char>::empty());
    assert(skip_while(s, class) =~= s);
}

/// A text of `class` in front of a text that is empty or starts outside `class`
/// is the whole run at the front of the two.
pub proof fn lemma_run_split(a: Seq<char>, b: Seq<char>, class: Set<char>)
    requires
        all_in(a, class),
        b.len() > 0 ==> !class.contains(b[0]),
    ensures
        run_len(a + b, class) == a.len(),
        take_while(a + b, class) == a,
        skip_while(a + b, class) == b,
{
    lemma_run_len_concat(a, b, class);
    lemma_run_len_none(b, class);
    assert(a + Seq::<char>::empty() =~= a);
}

/// Skipping a class and then a class that contains it skips the larger class.
pub proof fn lemma_skip_subclass(s: Seq<char>, small: Set<char>, big: Set<char>)
    requires
        small.subset_of(big),
    ensures
        skip_while(skip_while(s, small), big) == skip_while(s, big),
{
    lemma_run_len(s, small);
    assert(s =~= take_while(s, small) + skip_while(s, small));
    assert(all_in(take_while(s, small), big));
    lemma_run_len_concat(take_while(s, small), skip_while(s, small), big);
}

/// What is left behind a run is empty or starts outside the class, and is a
/// suffix of the text.
pub proof fn lemma_skip_while(s: Seq<char>, class: Set<char>)
    ensures
        skip_while(s, class).len() > 0 ==> !class.contains(skip_while(s, class)[0]),
        take_while(s, class) + skip_while(s, class) == s,
        all_in(take_while(s, class), class),
{
    lemma_run_len(s, class);
    assert(take_while(s, class) + skip_while(s, class) =~= s);
}

/// A text of `class` behind a text that is empty or ends outside `class` is
/// all that trimming removes from the two.
pub proof fn lemma_without_trailing(a: Seq<char>, b: Seq<char>, class: Set<char>)
    requires
        all_in(b, class),
        a.len() > 0 ==> !class.contains(a.last()),
    ensures
        without_trailing(a + b, class) == a,
{
    let s = a + b;
    assert forall|i: int| 0 <= i < b.len() implies class.contains(
        #[trigger] s.skip(s.len() - b.len())[i],
    ) by {
        assert(s.skip(s.len() - b.len())[i] == b[i]);
    }
    if a.len() > 0 {
        assert(s[s.len() - b.len() - 1] == a.last());
    }
    lemma_trailing_len_unique(s, class, b.len() as int);
    assert(without_trailing(s, class) =~= a);
}

/// The run at the end of `s` fits in `s`, lies in `class`, and is stopped by
/// the start of `s` or by a character outside `class`.
pub proof fn lemma_trailing_len(s: Seq<char>, class: Set<char>)
    ensures
        trailing_len(s, class) <= s.len(),
        all_in(s.skip(s.len() - trailing_len(s, class)), class),
        trailing_len(s, class) < s.len() ==> !class.contains(
            s[s.len() - trailing_len(s, class) - 1],
        ),
    decreases s.len(),
{
    if s.len() > 0 && class.contains(s.last()) {
        let rest = s.drop_last();
        lemma_trailing_len(rest, class);
        let t = trailing_len(rest, class) as int;
        let from = s.len() - (t + 1);
        assert forall|i: int| 0 <= i < t + 1 implies class.contains(#[trigger] s.skip(from)[i]) by {
            if i < t {
                assert(s.skip(from)[i] == rest.skip(rest.len() - t)[i]);
            }
        }
        if t + 1 < s.len() {
            assert(s[from - 1] == rest[rest.len() - t - 1]);
        }
    }
}

/// A suffix that lies in `class` and is stopped by the start of `s` or by a
/// character outside `class` is the run at the end of `s`.
pub proof fn lemma_trailing_len_unique(s: Seq<char>, class: Set<char>, t: int)
    requires
        0 <= t <= s.len(),
        all_in(s.skip(s.len() - t), class),
        t < s.len() ==> !class.contains(s[s.len() - t - 1]),
    ensures
        trailing_len(s, class) == t,
    decreases s.len(),
{
    if t == 0 {
    } else {
        assert(s.skip(s.len() - t)[t - 1] == s.last());
        let rest = s.drop_last();
        assert forall|i: int| 0 <= i < t - 1 implies class.contains(
            #[trigger] rest.skip(rest.len() - (t - 1))[i],
        ) by {
            assert(rest.skip(rest.len() - (t - 1))[i] == s.skip(s.len() - t)[i]);
        }
        lemma_trailing_len_unique(rest, class, t - 1);
    }
}

} // verus!
