//! Questions to the outside: directories, strand files, processes, the clock.
//!
//! A use case reaches what no port covers through a function that it is
//! handed. The function is kept where only [`Outside::ask`] can call it, with
//! a ghost record of every question and its answer: what the record does not
//! tell of was not asked.

use vstd::prelude::*;

verus! {

/// A function of the outside, with the record of what it was asked.
#[verifier::reject_recursive_types(A)]
#[verifier::reject_recursive_types(B)]
pub struct Outside<A: View, B, F: Fn(&A) -> B> {
    function: F,
    record: Ghost<Seq<(A::V, B)>>,
}

impl<A: View, B, F: Fn(&A) -> B> Outside<A, B, F> {
    /// The function that answers.
    pub closed spec fn source(&self) -> F {
        self.function
    }

    /// The questions so far, each with its answer, in order.
    pub closed spec fn calls(&self) -> Seq<(A::V, B)> {
        self.record@
    }

    /// Whether an answer is one that the function gives to the question.
    pub open spec fn gives(&self, call: (A::V, B)) -> bool {
        exists|question: &A|
            question@ == call.0 && #[trigger] call_ensures(self.source(), (question,), call.1)
    }

    /// The function takes every question, and gave every answer on record.
    pub open spec fn ready(&self) -> bool {
        &&& forall|question: &A| call_requires(self.source(), (question,))
        &&& forall|i: int| 0 <= i < self.calls().len() ==> self.gives(#[trigger] self.calls()[i])
    }

    /// Keep a function, with nothing asked yet.
    pub fn new(function: F) -> (outside: Self)
        ensures
            outside.source() == function,
            outside.calls() == Seq::<(A::V, B)>::empty(),
    {
        Outside { function, record: Ghost(Seq::empty()) }
    }

    /// Ask the function, once.
    pub fn ask(&mut self, question: &A) -> (answer: B)
        requires
            old(self).ready(),
        ensures
            final(self).source() == old(self).source(),
            final(self).calls() == old(self).calls().push((question@, answer)),
            final(self).ready(),
            call_ensures(old(self).source(), (question,), answer),
    {
        let function = &self.function;
        assert(call_requires(old(self).source(), (question,)));
        let answer = function(question);
        let ghost before = self.record@;
        proof {
            self.record@ = before.push((question@, answer));
            assert forall|i: int| 0 <= i < self.calls().len() implies self.gives(
                #[trigger] self.calls()[i],
            ) by {
                if i < before.len() {
                    let call = old(self).calls()[i];
                    assert(old(self).gives(call));
                    let earlier = choose|earlier: &A|
                        earlier@ == call.0 && #[trigger] call_ensures(
                            old(self).source(),
                            (earlier,),
                            call.1,
                        );
                    assert(call_ensures(self.source(), (earlier,), call.1));
                    assert(self.calls()[i] == call);
                } else {
                    let call = self.calls()[i];
                    assert(call.0 == question@);
                    assert(call_ensures(self.source(), (question,), call.1));
                }
            }
        }
        answer
    }
}

/// From one state of the record to another, exactly these questions were asked
/// of the function.
pub open spec fn asked<A: View, B, F: Fn(&A) -> B>(
    before: Outside<A, B, F>,
    after: Outside<A, B, F>,
    calls: Seq<(A::V, B)>,
) -> bool {
    &&& after.calls() == before.calls() + calls
    &&& after.source() == before.source()
    &&& before.ready() ==> after.ready()
}

/// Nothing is asked between a state and itself.
pub proof fn nothing_asked<A: View, B, F: Fn(&A) -> B>(outside: Outside<A, B, F>)
    ensures
        asked(outside, outside, Seq::empty()),
{
    assert(outside.calls() + Seq::<(A::V, B)>::empty() =~= outside.calls());
}

/// What was asked over two stretches is what was asked over the first, and
/// then over the second.
pub proof fn asked_in_order<A: View, B, F: Fn(&A) -> B>(
    before: Outside<A, B, F>,
    middle: Outside<A, B, F>,
    after: Outside<A, B, F>,
    first: Seq<(A::V, B)>,
    second: Seq<(A::V, B)>,
)
    requires
        asked(before, middle, first),
        asked(middle, after, second),
    ensures
        asked(before, after, first + second),
{
    assert(before.calls() + (first + second) =~= (before.calls() + first) + second);
}

} // verus!
