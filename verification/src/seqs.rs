//! Facts about sequences.

use vstd::prelude::*;

verus! {

/// Filtering one more element of `s` appends that element, if it is wanted.
pub proof fn lemma_filter_take<A>(s: Seq<A>, wanted: spec_fn(A) -> bool, n: int)
    requires
        0 <= n < s.len(),
    ensures
        s.take(n + 1).filter(wanted) == (if wanted(s[n]) {
            s.take(n).filter(wanted).push(s[n])
        } else {
            s.take(n).filter(wanted)
        }),
{
    reveal(Seq::filter);
    assert(s.take(n + 1).drop_last() =~= s.take(n));
    assert(s.take(n + 1).last() == s[n]);
}

/// Filtering no elements gives none; filtering all of them filters `s`.
pub proof fn lemma_filter_take_ends<A>(s: Seq<A>, wanted: spec_fn(A) -> bool)
    ensures
        s.take(0).filter(wanted) == Seq::<A>::empty(),
        s.take(s.len() as int).filter(wanted) == s.filter(wanted),
{
    reveal(Seq::filter);
    assert(s.take(0) =~= Seq::empty());
    assert(s.take(s.len() as int) =~= s);
}

/// What a filtered sequence holds is wanted and stems from `s`, and all of `s` that is wanted is
/// in it.
pub proof fn lemma_filter_members<A>(s: Seq<A>, wanted: spec_fn(A) -> bool)
    ensures
        forall|j: int|
            0 <= j < s.filter(wanted).len() ==> {
                &&& wanted(#[trigger] s.filter(wanted)[j])
                &&& s.contains(s.filter(wanted)[j])
            },
        forall|i: int|
            0 <= i < s.len() && wanted(#[trigger] s[i]) ==> s.filter(wanted).contains(s[i]),
    decreases s.len(),
{
    reveal(Seq::filter);
    if s.len() > 0 {
        let rest = s.drop_last();
        lemma_filter_members(rest, wanted);
        assert forall|j: int| 0 <= j < s.filter(wanted).len() implies {
            &&& wanted(#[trigger] s.filter(wanted)[j])
            &&& s.contains(s.filter(wanted)[j])
        } by {
            if j < rest.filter(wanted).len() {
                let x = rest.filter(wanted)[j];
                let i = choose|i: int| 0 <= i < rest.len() && rest[i] == x;
                assert(s[i] == x);
            } else {
                assert(s[s.len() - 1] == s.filter(wanted)[j]);
            }
        }
        assert forall|i: int| 0 <= i < s.len() && wanted(#[trigger] s[i]) implies s.filter(
            wanted,
        ).contains(s[i]) by {
            if i < rest.len() {
                assert(rest[i] == s[i]);
                let j = choose|j: int|
                    0 <= j < rest.filter(wanted).len() && rest.filter(wanted)[j] == s[i];
                assert(s.filter(wanted)[j] == s[i]);
            } else {
                assert(s.filter(wanted).last() == s[i]);
            }
        }
    }
}

/// Filtering and mapping one more element appends its image, if the element is wanted.
pub proof fn lemma_filter_map_push<A, B>(
    s: Seq<A>,
    x: A,
    wanted: spec_fn(A) -> bool,
    image: spec_fn(A) -> B,
)
    ensures
        s.push(x).filter(wanted).map_values(image) == (if wanted(x) {
            s.filter(wanted).map_values(image).push(image(x))
        } else {
            s.filter(wanted).map_values(image)
        }),
{
    s.lemma_filter_push(x, wanted);
    if wanted(x) {
        assert(s.push(x).filter(wanted).map_values(image) =~= s.filter(wanted).map_values(
            image,
        ).push(image(x)));
    }
}

/// Filtering keeps the first element, if it is wanted, in front of what it keeps of the others.
pub proof fn lemma_filter_first<A>(s: Seq<A>, wanted: spec_fn(A) -> bool)
    requires
        s.len() > 0,
    ensures
        s.filter(wanted) == (if wanted(s[0]) {
            seq![s[0]] + s.drop_first().filter(wanted)
        } else {
            s.drop_first().filter(wanted)
        }),
{
    let first = Seq::<A>::empty().push(s[0]);
    reveal(Seq::filter);
    assert(Seq::<A>::empty().filter(wanted) =~= Seq::empty());
    Seq::<A>::empty().lemma_filter_push(s[0], wanted);
    assert(s =~= first + s.drop_first());
    Seq::filter_distributes_over_add(first, s.drop_first(), wanted);
    assert(seq![s[0]] =~= first);
    if !wanted(s[0]) {
        assert(Seq::<A>::empty() + s.drop_first().filter(wanted) =~= s.drop_first().filter(
            wanted,
        ));
    }
}

/// Two filters that want the same elements of `s` leave the same.
pub proof fn lemma_filter_same<A>(s: Seq<A>, one: spec_fn(A) -> bool, other: spec_fn(A) -> bool)
    requires
        forall|i: int| 0 <= i < s.len() ==> one(#[trigger] s[i]) == other(s[i]),
    ensures
        s.filter(one) == s.filter(other),
    decreases s.len(),
{
    reveal(Seq::filter);
    if s.len() > 0 {
        let rest = s.drop_last();
        assert forall|i: int| 0 <= i < rest.len() implies one(#[trigger] rest[i]) == other(
            rest[i],
        ) by {
            assert(rest[i] == s[i]);
        }
        lemma_filter_same(rest, one, other);
        assert(one(s[s.len() - 1]) == other(s[s.len() - 1]));
    }
}

/// Filtering leaves nothing where nothing is wanted.
pub proof fn lemma_filter_none<A>(s: Seq<A>, wanted: spec_fn(A) -> bool)
    requires
        forall|i: int| 0 <= i < s.len() ==> !wanted(#[trigger] s[i]),
    ensures
        s.filter(wanted) == Seq::<A>::empty(),
{
    lemma_filter_members(s, wanted);
    if s.filter(wanted).len() > 0 {
        assert(s.contains(s.filter(wanted)[0]));
    }
}

/// Filtering leaves everything where everything is wanted.
pub proof fn lemma_filter_all<A>(s: Seq<A>, wanted: spec_fn(A) -> bool)
    requires
        forall|i: int| 0 <= i < s.len() ==> wanted(#[trigger] s[i]),
    ensures
        s.filter(wanted) == s,
    decreases s.len(),
{
    reveal(Seq::filter);
    if s.len() > 0 {
        assert forall|i: int| 0 <= i < s.drop_last().len() implies wanted(
            #[trigger] s.drop_last()[i],
        ) by {
            assert(s.drop_last()[i] == s[i]);
        }
        lemma_filter_all(s.drop_last(), wanted);
        assert(wanted(s[s.len() - 1]));
        assert(s.drop_last().push(s.last()) =~= s);
    } else {
        assert(s.filter(wanted) =~= s);
    }
}

/// The values of a sequence of results, or the first failure among them.
pub open spec fn collect<A, E>(s: Seq<Result<A, E>>) -> Result<Seq<A>, E>
    decreases s.len(),
{
    if s.len() == 0 {
        Ok(Seq::empty())
    } else {
        match s[0] {
            Err(failure) => Err(failure),
            Ok(first) => match collect(s.drop_first()) {
                Err(failure) => Err(failure),
                Ok(rest) => Ok(seq![first] + rest),
            },
        }
    }
}

/// `collect` gives the values one by one where there is no failure, and else the first failure.
pub proof fn lemma_collect<A, E>(s: Seq<Result<A, E>>)
    ensures
        match collect(s) {
            Ok(values) => values.len() == s.len() && forall|i: int|
                0 <= i < s.len() ==> #[trigger] s[i] == Ok::<A, E>(values[i]),
            Err(failure) => exists|i: int|
                {
                    &&& 0 <= i < s.len()
                    &&& #[trigger] s[i] == Err::<A, E>(failure)
                    &&& forall|j: int| 0 <= j < i ==> (#[trigger] s[j]) is Ok
                },
        },
    decreases s.len(),
{
    if s.len() > 0 && s[0] is Ok {
        let rest = s.drop_first();
        lemma_collect(rest);
        match collect(rest) {
            Ok(values) => {
                assert forall|i: int| 0 <= i < s.len() implies #[trigger] s[i] == Ok::<A, E>(
                    collect(s)->Ok_0[i],
                ) by {
                    if i > 0 {
                        assert(rest[i - 1] == s[i]);
                    }
                }
            },
            Err(failure) => {
                let i = choose|i: int|
                    {
                        &&& 0 <= i < rest.len()
                        &&& #[trigger] rest[i] == Err::<A, E>(failure)
                        &&& forall|j: int| 0 <= j < i ==> (#[trigger] rest[j]) is Ok
                    };
                assert(s[i + 1] == Err::<A, E>(failure));
                assert forall|j: int| 0 <= j < i + 1 implies (#[trigger] s[j]) is Ok by {
                    if j > 0 {
                        assert(rest[j - 1] == s[j]);
                    }
                }
            },
        }
    }
}

} // verus!
