//! Constant evaluation of an array literal. The surrounding scanner and the
//! syntax tree are external collaborators: the elements arrive already
//! evaluated, each with its spread flag, and the array's source range
//! arrives as plain offsets.

use vstd::prelude::*;

verus! {

/// The result of evaluating one expression: its source range and, for an
/// array, the evaluations of its items.
#[derive(Debug)]
pub struct BasicEvaluatedExpression {
    pub start: u32,
    pub end: u32,
    pub items: Vec<BasicEvaluatedExpression>,
}

impl BasicEvaluatedExpression {
    /// An evaluation covering the given source range, with no items yet.
    pub fn with_range(start: u32, end: u32) -> (r: BasicEvaluatedExpression)
        ensures
            r.start == start,
            r.end == end,
            r.items@.len() == 0,
    {
        BasicEvaluatedExpression { start, end, items: Vec::new() }
    }

    /// Sets the evaluated items.
    pub fn set_items(&mut self, items: Vec<BasicEvaluatedExpression>)
        ensures
            final(self).items == items,
            final(self).start == old(self).start,
            final(self).end == old(self).end,
    {
        self.items = items;
    }
}

/// One element of an array literal, as the scanner evaluated it: whether it
/// was written with a spread, and the evaluation of its expression.
#[derive(Debug)]
pub struct EvaluatedElement {
    pub spread: bool,
    pub value: BasicEvaluatedExpression,
}

/// Evaluates an array literal from its evaluated elements: the evaluation
/// succeeds exactly when every element is present and none is a spread, and
/// then collects the element evaluations in order under the array's source
/// range. A hole or a spread makes the whole array non-constant.
#[verifier::loop_isolation(false)]
pub fn eval_array_expression(
    elements: Vec<Option<EvaluatedElement>>,
    span_start: u32,
    span_end: u32,
) -> (r: Option<BasicEvaluatedExpression>)
    ensures
        match r {
            Some(res) => res.start == span_start && res.end == span_end && res.items@.len()
                == elements@.len() && forall|k: int|
                0 <= k < elements@.len() ==> ((#[trigger] elements@[k]) matches Some(e)
                    && !e.spread && res.items@[k] == e.value),
            None => exists|k: int|
                0 <= k < elements@.len() && !((#[trigger] elements@[k]) matches Some(e)
                    && !e.spread),
        },
{
    let ghost orig = elements@;
    let mut elements = elements;
    let mut items: Vec<BasicEvaluatedExpression> = Vec::new();
    proof {
        assert(elements@ =~= orig.skip(0));
    }
    while elements.len() > 0
        invariant
            items@.len() <= orig.len(),
            elements@ =~= orig.skip(items@.len() as int),
            forall|k: int|
                0 <= k < items@.len() ==> ((#[trigger] orig[k]) matches Some(e) && !e.spread
                    && items@[k] == e.value),
        decreases elements@.len(),
    {
        let ghost k = items@.len() as int;
        let elem = elements.remove(0);
        proof {
            assert(orig.skip(k)[0] == orig[k]);
            assert(orig.skip(k).subrange(1, orig.skip(k).len() as int) =~= orig.skip(k + 1));
        }
        match elem {
            Some(e) => {
                if e.spread {
                    proof {
                        assert(elem == orig[k]);
                        assert(!((orig[k]) matches Some(e2) && !e2.spread));
                    }
                    return None;
                }
                items.push(e.value);
                proof {
                    assert(elem == orig[k]);
                }
            },
            None => {
                proof {
                    assert(elem == orig[k]);
                    assert(!((orig[k]) matches Some(e2) && !e2.spread));
                }
                return None;
            },
        }
    }
    proof {
        assert(items@.len() == orig.len());
    }
    let mut res = BasicEvaluatedExpression::with_range(span_start, span_end);
    res.set_items(items);
    Some(res)
}

} // verus!
