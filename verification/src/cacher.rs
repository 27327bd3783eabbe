use vstd::prelude::*;

verus! {

/// Memoises a one-argument function: the first call of `value` runs the
/// query and keeps a clone of its result; every later call returns a clone
/// of that kept result, whatever its argument.
#[verifier::reject_recursive_types(E)]
pub struct Cacher<T, E> where T: Fn(E) -> E {
    query: T,
    value: Option<E>,
}

/// What one call of `value(arg)` does, taking the cacher from `before` to
/// `after` and returning `r`: the query stays and a result is kept afterwards.
/// When a result was kept before, it stays kept and `r` is a clone of it;
/// otherwise the query runs on `arg`, and both the result kept and `r` are
/// clones of what it returned.
pub open spec fn value_post<T: Fn(E) -> E, E: Clone>(
    before: Cacher<T, E>,
    arg: E,
    after: Cacher<T, E>,
    r: E,
) -> bool {
    &&& after.query() == before.query()
    &&& after.cached() is Some
    &&& before.cached() is Some ==> {
        &&& after.cached() == before.cached()
        &&& cloned(before.cached()->0, r)
    }
    &&& before.cached() is None ==> exists|v: E|
        #![trigger before.query().ensures((arg,), v)]
        {
            &&& before.query().ensures((arg,), v)
            &&& cloned(v, after.cached()->0)
            &&& cloned(v, r)
        }
}

/// The states, arguments and results of `n` successive calls of `value` on a
/// fresh cacher: `states[i]` is the cacher before call `i` and `states[i + 1]`
/// after it, which returned `results[i]`.
pub open spec fn call_sequence<T: Fn(E) -> E, E: Clone>(
    states: Seq<Cacher<T, E>>,
    args: Seq<E>,
    results: Seq<E>,
) -> bool {
    &&& results.len() >= 1
    &&& args.len() == results.len()
    &&& states.len() == results.len() + 1
    &&& states[0].cached() is None
    &&& forall|i: int|
        0 <= i < results.len() ==> #[trigger] value_post(states[i], args[i], states[i + 1], results[i])
}

/// Call `j` of a sequence of calls does what one call of `value` does.
proof fn lemma_step<T: Fn(E) -> E, E: Clone>(
    states: Seq<Cacher<T, E>>,
    args: Seq<E>,
    results: Seq<E>,
    j: int,
)
    requires
        call_sequence(states, args, results),
        0 <= j < results.len(),
    ensures
        value_post(states[j], args[j], states[j + 1], results[j]),
{
    assert(value_post(states[j], args[j], states[j + 1], results[j]));
}

/// In a sequence of calls, the result kept by the first call is kept after
/// every later call, and the query never changes.
proof fn lemma_kept_after<T: Fn(E) -> E, E: Clone>(
    states: Seq<Cacher<T, E>>,
    args: Seq<E>,
    results: Seq<E>,
    i: int,
)
    requires
        call_sequence(states, args, results),
        1 <= i < states.len(),
    ensures
        states[i].cached() == states[1].cached(),
        states[i].query() == states[0].query(),
    decreases i,
{
    lemma_step(states, args, results, 0);
    lemma_step(states, args, results, i - 1);
    if i > 1 {
        lemma_kept_after(states, args, results, i - 1);
    }
}

/// Memoisation: on a fresh cacher, the first call of `value` runs the query
/// on its argument, keeps a clone of its result and returns a clone of it;
/// every later call, whatever its argument, keeps that same result and
/// returns a clone of it. Where cloning gives back an equal value, every call
/// returns exactly what the first call returned.
pub proof fn lemma_first_result_sticks<T: Fn(E) -> E, E: Clone>(
    states: Seq<Cacher<T, E>>,
    args: Seq<E>,
    results: Seq<E>,
)
    requires
        call_sequence(states, args, results),
    ensures
        exists|v: E|
            #![trigger states[0].query().ensures((args[0],), v)]
            {
                &&& states[0].query().ensures((args[0],), v)
                &&& cloned(v, states[1].cached()->0)
                &&& cloned(v, results[0])
            },
        forall|i: int|
            1 <= i < states.len() ==> #[trigger] states[i].cached() == states[1].cached()
                && states[i].query() == states[0].query(),
        forall|i: int| 1 <= i < results.len() ==> cloned(states[1].cached()->0, #[trigger] results[i]),
        (forall|a: E, b: E| cloned(a, b) ==> a == b) ==> forall|i: int|
            0 <= i < results.len() ==> #[trigger] results[i] == results[0],
{
    lemma_step(states, args, results, 0);
    assert forall|i: int| 1 <= i < states.len() implies #[trigger] states[i].cached()
        == states[1].cached() && states[i].query() == states[0].query() by {
        lemma_kept_after(states, args, results, i);
    }
    assert forall|i: int| 1 <= i < results.len() implies cloned(
        states[1].cached()->0,
        #[trigger] results[i],
    ) by {
        lemma_kept_after(states, args, results, i);
        lemma_step(states, args, results, i);
    }
    if forall|a: E, b: E| cloned(a, b) ==> a == b {
        let v = choose|v: E|
            #![trigger states[0].query().ensures((args[0],), v)]
            {
                &&& states[0].query().ensures((args[0],), v)
                &&& cloned(v, states[1].cached()->0)
                &&& cloned(v, results[0])
            };
        assert(v == states[1].cached()->0);
        assert(v == results[0]);
        assert forall|i: int| 0 <= i < results.len() implies #[trigger] results[i] == results[0] by {
            if i >= 1 {
                lemma_kept_after(states, args, results, i);
                lemma_step(states, args, results, i);
                assert(cloned(states[1].cached()->0, results[i]));
            }
        }
    }
}

impl<T, E> Cacher<T, E> where T: Fn(E) -> E, E: Clone {
    /// The function being memoised.
    pub closed spec fn query(&self) -> T {
        self.query
    }

    /// The kept result, once there is one.
    pub closed spec fn cached(&self) -> Option<E> {
        self.value
    }

    /// A cacher for `query` that has kept nothing yet.
    pub fn new(query: T) -> (r: Cacher<T, E>)
        ensures
            r.query() == query,
            r.cached() is None,
    {
        Cacher { query, value: None }
    }

    /// A clone of the kept result if there is one; otherwise runs the query
    /// on `arg`, keeps a clone of its result and returns another clone.
    pub fn value(&mut self, arg: E) -> (r: E)
        requires
            old(self).cached() is None ==> old(self).query().requires((arg,)),
        ensures
            value_post(*old(self), arg, *final(self), r),
    {
        match &self.value {
            Some(v) => v.clone(),
            None => {
                let v = (self.query)(arg);
                self.value = Some(v.clone());
                v.clone()
            },
        }
    }
}

} // verus!
