//! The link that an output connector owns: the output, and the inputs that it
//! feeds.

use vstd::prelude::*;

verus! {

/// One output connector and the input connectors that it feeds, each by its
/// index. The inputs keep the order in which they were added.
#[derive(Debug)]
pub struct ConnectorEdge {
    input: Vec<usize>,
    output: usize,
}

/// What a `ConnectorEdge` holds.
pub struct EdgeView {
    pub inputs: Seq<usize>,
    pub output: usize,
}

/// `inputs` without any occurrence of `input`, the others in their order.
pub open spec fn without(inputs: Seq<usize>, input: usize) -> Seq<usize> {
    inputs.filter(|other: usize| other != input)
}

/// `inputs` with `input` at the end, unless it is there already.
pub open spec fn with(inputs: Seq<usize>, input: usize) -> Seq<usize> {
    if inputs.contains(input) {
        inputs
    } else {
        inputs.push(input)
    }
}

/// Taking `input` out leaves exactly the others.
pub proof fn lemma_without_contains(inputs: Seq<usize>, input: usize, other: usize)
    ensures
        without(inputs, input).contains(other) <==> inputs.contains(other) && other != input,
    decreases inputs.len(),
{
    reveal(Seq::filter);
    let keep = |other: usize| other != input;
    if inputs.len() > 0 {
        let rest = inputs.drop_last();
        lemma_without_contains(rest, input, other);
        if without(inputs, input).contains(other) {
            let i = choose|i: int|
                0 <= i < without(inputs, input).len() && without(inputs, input)[i] == other;
            if keep(inputs.last()) && i == without(rest, input).len() {
                assert(inputs[inputs.len() - 1] == other);
            } else {
                assert(without(rest, input)[i] == other);
                let j = choose|j: int| 0 <= j < rest.len() && rest[j] == other;
                assert(inputs[j] == other);
            }
        }
        if inputs.contains(other) && other != input {
            let j = choose|j: int| 0 <= j < inputs.len() && inputs[j] == other;
            if j == inputs.len() - 1 {
                assert(without(inputs, input)[without(rest, input).len() as int] == other);
            } else {
                assert(rest[j] == other);
                let i = choose|i: int|
                    0 <= i < without(rest, input).len() && without(rest, input)[i] == other;
                assert(without(inputs, input)[i] == other);
            }
        }
    }
}

/// Taking an input out of a list without repeats leaves no repeats, and a
/// list shorter by one where the input was in it.
pub proof fn lemma_without_distinct(inputs: Seq<usize>, input: usize)
    requires
        inputs.no_duplicates(),
    ensures
        without(inputs, input).no_duplicates(),
        inputs.contains(input) ==> without(inputs, input).len() == inputs.len() - 1,
        !inputs.contains(input) ==> without(inputs, input) == inputs,
    decreases inputs.len(),
{
    reveal(Seq::filter);
    if inputs.len() > 0 {
        let rest = inputs.drop_last();
        let last = inputs.last();
        lemma_without_distinct(rest, input);
        lemma_without_contains(rest, input, last);
        assert(!rest.contains(last)) by {
            if rest.contains(last) {
                let j = choose|j: int| 0 <= j < rest.len() && rest[j] == last;
                assert(inputs[j] == inputs[inputs.len() - 1]);
            }
        }
        assert(rest.contains(input) ==> inputs.contains(input)) by {
            if rest.contains(input) {
                let j = choose|j: int| 0 <= j < rest.len() && rest[j] == input;
                assert(inputs[j] == input);
            }
        }
        if last == input {
            assert(inputs[inputs.len() - 1] == input);
        } else {
            if inputs.contains(input) {
                let j = choose|j: int| 0 <= j < inputs.len() && inputs[j] == input;
                assert(rest[j] == input);
            } else {
                assert(without(inputs, input) =~= inputs);
            }
        }
    }
}

impl View for ConnectorEdge {
    type V = EdgeView;

    closed spec fn view(&self) -> EdgeView {
        EdgeView { inputs: self.input@, output: self.output }
    }
}

impl Clone for ConnectorEdge {
    fn clone(&self) -> (copy: ConnectorEdge)
        ensures
            copy@ == self@,
    {
        ConnectorEdge { output: self.output, input: self.input.clone() }
    }
}

/// Whether `list` holds `wanted`.
fn holds(list: &Vec<usize>, wanted: usize) -> (found: bool)
    ensures
        found == list@.contains(wanted),
{
    let mut i: usize = 0;
    while i < list.len()
        invariant
            i <= list.len(),
            forall|j: int| 0 <= j < i ==> list@[j] != wanted,
        decreases list.len() - i,
    {
        if list[i] == wanted {
            return true;
        }
        i = i + 1;
    }
    false
}

impl ConnectorEdge {
    /// The edge from `output` to the inputs listed.
    pub fn new(input: Vec<usize>, output: usize) -> (edge: ConnectorEdge)
        ensures
            edge@ == (EdgeView { inputs: input@, output }),
    {
        ConnectorEdge { input, output }
    }

    /// Whether `connector` is the output of the edge or one of its inputs.
    pub fn has_connection(&self, connector: usize) -> (connected: bool)
        ensures
            connected == (self@.output == connector || self@.inputs.contains(connector)),
    {
        self.output == connector || holds(&self.input, connector)
    }

    /// The inputs of the edge, in the order in which they were added.
    pub fn get_input(&self) -> (input: Vec<usize>)
        ensures
            input@ == self@.inputs,
    {
        self.input.clone()
    }

    /// The output of the edge.
    pub fn get_output(&self) -> (output: usize)
        ensures
            output == self@.output,
    {
        self.output
    }

    /// Adds `input` to the inputs, unless it is one of them already.
    pub fn add_input(&mut self, input: usize)
        ensures
            final(self)@.output == old(self)@.output,
            final(self)@.inputs == with(old(self)@.inputs, input),
    {
        if !holds(&self.input, input) {
            self.input.push(input);
        }
    }

    /// Takes `input` out of the inputs, if it is one of them.
    pub fn remove_input(&mut self, input: usize)
        ensures
            final(self)@.output == old(self)@.output,
            final(self)@.inputs == without(old(self)@.inputs, input),
    {
        let mut kept: Vec<usize> = Vec::new();
        let mut i: usize = 0;
        proof {
            reveal(Seq::filter);
            assert(self.input@.subrange(0, 0) =~= Seq::<usize>::empty());
        }
        while i < self.input.len()
            invariant
                i <= self.input.len(),
                kept@ == without(self.input@.subrange(0, i as int), input),
            decreases self.input.len() - i,
        {
            proof {
                reveal(Seq::filter);
                assert(self.input@.subrange(0, i + 1).drop_last() =~= self.input@.subrange(
                    0,
                    i as int,
                ));
            }
            if self.input[i] != input {
                kept.push(self.input[i]);
            }
            i = i + 1;
        }
        assert(self.input@.subrange(0, i as int) =~= self.input@);
        self.input = kept;
    }
}

} // verus!
