use vstd::prelude::*;

verus! {

/// Applies `f` to every item, first to last. Where every item succeeds the
/// result holds what each gave, in order; otherwise it is the failure of the
/// first item that fails.
pub open spec fn try_all<A, B, E>(items: Seq<A>, f: spec_fn(A) -> Result<B, E>) -> Result<
    Seq<B>,
    E,
>
    decreases items.len(),
{
    if items.len() == 0 {
        Ok(Seq::empty())
    } else {
        match try_all(items.drop_last(), f) {
            Err(e) => Err(e),
            Ok(done) => match f(items.last()) {
                Err(e) => Err(e),
                Ok(b) => Ok(done.push(b)),
            },
        }
    }
}

/// Item `i` fails and no item before it does.
pub open spec fn first_failure_at<A, B, E>(
    items: Seq<A>,
    f: spec_fn(A) -> Result<B, E>,
    i: int,
) -> bool {
    &&& 0 <= i < items.len()
    &&& f(items[i]) is Err
    &&& forall|j: int| 0 <= j < i ==> (#[trigger] f(items[j])) is Ok
}

/// A success of `try_all` holds one result for each item, the one that `f`
/// gives for it.
pub proof fn lemma_try_all_ok<A, B, E>(items: Seq<A>, f: spec_fn(A) -> Result<B, E>)
    requires
        try_all(items, f) is Ok,
    ensures
        try_all(items, f)->Ok_0.len() == items.len(),
        forall|i: int|
            0 <= i < items.len() ==> #[trigger] f(items[i]) == Ok::<B, E>(
                try_all(items, f)->Ok_0[i],
            ),
    decreases items.len(),
{
    if items.len() != 0 {
        let init = items.drop_last();
        lemma_try_all_ok(init, f);
        assert forall|i: int| 0 <= i < items.len() implies #[trigger] f(items[i]) == Ok::<B, E>(
            try_all(items, f)->Ok_0[i],
        ) by {
            if i < init.len() {
                assert(init[i] == items[i]);
            }
        }
    }
}

/// A failure of `try_all` is the failure of the first item that fails.
pub proof fn lemma_try_all_err<A, B, E>(items: Seq<A>, f: spec_fn(A) -> Result<B, E>) -> (i: int)
    requires
        try_all(items, f) is Err,
    ensures
        first_failure_at(items, f, i),
        f(items[i]) == Err::<B, E>(try_all(items, f)->Err_0),
    decreases items.len(),
{
    let init = items.drop_last();
    if try_all(init, f) is Err {
        let i: int = lemma_try_all_err(init, f);
        assert(init[i] == items[i]);
        assert forall|j: int| 0 <= j < i implies (#[trigger] f(items[j])) is Ok by {
            assert(init[j] == items[j]);
        }
        i
    } else {
        lemma_try_all_ok(init, f);
        assert forall|j: int| 0 <= j < items.len() - 1 implies (#[trigger] f(items[j])) is Ok by {
            assert(init[j] == items[j]);
        }
        items.len() - 1
    }
}

/// Where item `i` is the first to fail, `try_all` fails as that item does.
pub proof fn lemma_try_all_first_failure<A, B, E>(
    items: Seq<A>,
    f: spec_fn(A) -> Result<B, E>,
    i: int,
)
    requires
        first_failure_at(items, f, i),
    ensures
        try_all(items, f) == Err::<Seq<B>, E>(f(items[i])->Err_0),
{
    if try_all(items, f) is Ok {
        lemma_try_all_ok(items, f);
    } else {
        let k: int = lemma_try_all_err(items, f);
        if k < i {
            assert(f(items[k]) is Ok);
        } else if i < k {
            assert(f(items[i]) is Ok);
        }
    }
}

/// A failure among the first `n` items is the failure of the whole.
pub proof fn lemma_try_all_prefix_err<A, B, E>(
    items: Seq<A>,
    f: spec_fn(A) -> Result<B, E>,
    n: int,
)
    requires
        0 <= n <= items.len(),
        try_all(items.take(n), f) is Err,
    ensures
        try_all(items, f) == try_all(items.take(n), f),
{
    let head = items.take(n);
    let i: int = lemma_try_all_err(head, f);
    assert(head[i] == items[i]);
    assert forall|j: int| 0 <= j < i implies (#[trigger] f(items[j])) is Ok by {
        assert(head[j] == items[j]);
    }
    lemma_try_all_first_failure(items, f, i);
}

/// One more item after a success: the step that a loop over the items takes.
pub proof fn lemma_try_all_step<A, B, E>(items: Seq<A>, f: spec_fn(A) -> Result<B, E>, n: int)
    requires
        0 <= n < items.len(),
        try_all(items.take(n), f) is Ok,
    ensures
        try_all(items.take(n + 1), f) == match f(items[n]) {
            Err(e) => Err::<Seq<B>, E>(e),
            Ok(b) => Ok(try_all(items.take(n), f)->Ok_0.push(b)),
        },
{
    assert(items.take(n + 1).drop_last() =~= items.take(n));
}

} // verus!
