//! What the four kinds of condition share: each takes a list of candidates,
//! any one of which may satisfy it, and a kind that was not asked for holds.

use vstd::prelude::*;

verus! {

/// The candidates given for one kind of condition: none where the kind was
/// not asked for.
pub open spec fn candidates(list: Option<Vec<String>>) -> Seq<Seq<char>> {
    match list {
        Some(items) => items@.map_values(|item: String| item@),
        None => Seq::empty(),
    }
}

/// Whether one of the candidates holds, or none was given.
pub open spec fn some_true(holds: Seq<bool>) -> bool {
    holds.len() == 0 || exists|i: int| 0 <= i < holds.len() && #[trigger] holds[i]
}

/// Settles a kind of condition whose candidates cannot be refused, from what
/// each candidate came to.
pub fn any_of(holds: &Vec<bool>) -> (r: bool)
    ensures
        r == some_true(holds@),
{
    let mut i: usize = 0;
    while i < holds.len()
        invariant
            i <= holds@.len(),
            forall|k: int| 0 <= k < i ==> !#[trigger] holds@[k],
        decreases holds@.len() - i,
    {
        if holds[i] {
            return true;
        }
        i = i + 1;
    }
    holds.len() == 0
}

/// The error of the first candidate that was refused, if any was.
pub open spec fn first_failure<E>(outcomes: Seq<Result<bool, E>>) -> Option<E>
    decreases outcomes.len(),
{
    if outcomes.len() == 0 {
        None
    } else {
        match outcomes[0] {
            Err(e) => Some(e),
            Ok(_) => first_failure(outcomes.drop_first()),
        }
    }
}

/// Whether some candidate was accepted and found to hold.
pub open spec fn some_holds<E>(outcomes: Seq<Result<bool, E>>) -> bool {
    exists|i: int| 0 <= i < outcomes.len() && #[trigger] outcomes[i] == Ok::<bool, E>(true)
}

/// One kind's result from the outcomes of its candidates: the first refusal
/// where there is one; else whether any candidate holds, or none was given.
pub open spec fn settled<E>(outcomes: Seq<Result<bool, E>>) -> Result<bool, E> {
    match first_failure(outcomes) {
        Some(e) => Err(e),
        None => Ok(outcomes.len() == 0 || some_holds(outcomes)),
    }
}

/// A refusal anywhere among the outcomes is found, and it is the earliest.
pub proof fn lemma_first_failure<E>(outcomes: Seq<Result<bool, E>>)
    ensures
        first_failure(outcomes) is None <==> forall|i: int|
            0 <= i < outcomes.len() ==> (#[trigger] outcomes[i]) is Ok,
        first_failure(outcomes) matches Some(e) ==> exists|i: int|
            0 <= i < outcomes.len() && #[trigger] outcomes[i] == Err::<bool, E>(e) && forall|j: int|
                0 <= j < i ==> (#[trigger] outcomes[j]) is Ok,
    decreases outcomes.len(),
{
    if outcomes.len() > 0 && outcomes[0] is Ok {
        let rest = outcomes.drop_first();
        lemma_first_failure(rest);
        if first_failure(rest) is Some {
            let e = first_failure(rest).unwrap();
            let k = choose|i: int|
                0 <= i < rest.len() && #[trigger] rest[i] == Err::<bool, E>(e) && forall|j: int|
                    0 <= j < i ==> (#[trigger] rest[j]) is Ok;
            assert(outcomes[k + 1] == rest[k]);
            assert forall|j: int| 0 <= j < k + 1 implies (#[trigger] outcomes[j]) is Ok by {
                if j > 0 {
                    assert(rest[j - 1] is Ok);
                }
            }
        } else {
            assert forall|i: int| 0 <= i < outcomes.len() implies (#[trigger] outcomes[i]) is Ok by {
                if i > 0 {
                    assert(rest[i - 1] is Ok);
                }
            }
        }
    }
}

/// An outcome with its error replaced by what `f` makes of it.
pub open spec fn with_error<E, F>(outcome: Result<bool, E>, f: spec_fn(E) -> F) -> Result<bool, F> {
    match outcome {
        Ok(holds) => Ok(holds),
        Err(e) => Err(f(e)),
    }
}

/// Settling commutes with a change of the error type.
pub proof fn lemma_settled_with_error<E, F>(
    outcomes: Seq<Result<bool, E>>,
    mapped: Seq<Result<bool, F>>,
    f: spec_fn(E) -> F,
)
    requires
        mapped.len() == outcomes.len(),
        forall|i: int|
            0 <= i < outcomes.len() ==> #[trigger] mapped[i] == with_error(outcomes[i], f),
    ensures
        first_failure(mapped) == match first_failure(outcomes) {
            Some(e) => Some(f(e)),
            None => None,
        },
        some_holds(mapped) == some_holds(outcomes),
        settled(mapped) == with_error(settled(outcomes), f),
    decreases outcomes.len(),
{
    if outcomes.len() > 0 {
        let rest = outcomes.drop_first();
        let mapped_rest = mapped.drop_first();
        assert forall|i: int| 0 <= i < rest.len() implies #[trigger] mapped_rest[i] == with_error(
            rest[i],
            f,
        ) by {
            assert(mapped_rest[i] == mapped[i + 1]);
        }
        lemma_settled_with_error(rest, mapped_rest, f);
        assert(mapped[0] == with_error(outcomes[0], f));
    }
    if some_holds(outcomes) {
        let i = choose|i: int| 0 <= i < outcomes.len() && #[trigger] outcomes[i] == Ok::<bool, E>(true);
        assert(mapped[i] == Ok::<bool, F>(true));
    }
    if some_holds(mapped) {
        let i = choose|i: int| 0 <= i < mapped.len() && #[trigger] mapped[i] == Ok::<bool, F>(true);
        assert(outcomes[i] == Ok::<bool, E>(true));
    }
}

/// Adding an outcome at the front adds it to those among which one may hold.
proof fn lemma_some_holds_step<E>(outcomes: Seq<Result<bool, E>>)
    requires
        outcomes.len() > 0,
    ensures
        some_holds(outcomes) == (outcomes[0] == Ok::<bool, E>(true) || some_holds(
            outcomes.drop_first(),
        )),
{
    let rest = outcomes.drop_first();
    if some_holds(rest) {
        let i = choose|i: int| 0 <= i < rest.len() && #[trigger] rest[i] == Ok::<bool, E>(true);
        assert(outcomes[i + 1] == Ok::<bool, E>(true));
    }
    if some_holds(outcomes) {
        let i = choose|i: int| 0 <= i < outcomes.len() && #[trigger] outcomes[i] == Ok::<bool, E>(true);
        if i > 0 {
            assert(rest[i - 1] == Ok::<bool, E>(true));
        }
    }
}

/// Settles one kind of condition from the outcomes of its candidates, in the
/// order in which they were given.
pub fn settle<E>(outcomes: Vec<Result<bool, E>>) -> (r: Result<bool, E>)
    ensures
        r == settled(outcomes@),
{
    let ghost all = outcomes@;
    let mut rest = outcomes;
    let none_given = rest.len() == 0;
    let mut failure: Option<E> = None;
    let mut found = false;
    while rest.len() > 0
        invariant
            rest@.len() <= all.len(),
            rest@ == all.take(rest@.len() as int),
            failure == first_failure(all.skip(rest@.len() as int)),
            found == some_holds(all.skip(rest@.len() as int)),
        decreases rest@.len(),
    {
        let ghost k = rest@.len() - 1;
        let last = rest.pop().unwrap();
        proof {
            assert(all.skip(k).drop_first() =~= all.skip(k + 1));
            lemma_some_holds_step(all.skip(k));
        }
        match last {
            Err(e) => {
                failure = Some(e);
            },
            Ok(holds) => {
                if holds {
                    found = true;
                }
            },
        }
    }
    assert(all.skip(0) =~= all);
    match failure {
        Some(e) => Err(e),
        None => Ok(none_given || found),
    }
}

} // verus!
