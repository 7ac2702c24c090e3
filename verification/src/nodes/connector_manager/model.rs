//! The connectors of a manager as a sequence of ports, and what each operation
//! of the manager makes of that sequence.

use vstd::prelude::*;
use crate::nodes::connector_manager::connector::Port;
use crate::nodes::connector_manager::edge::{
    lemma_without_contains,
    lemma_without_distinct,
    with,
    without,
    EdgeView,
};
use crate::nodes::connector_manager::value::{converted, Task, Value};

verus! {

/// Whether the output at `output` has an edge with `input` among its inputs.
pub open spec fn feeds(ports: Seq<Port>, output: usize, input: usize) -> bool {
    &&& output < ports.len()
    &&& ports[output as int] is Output
    &&& ports[output as int]->edge is Some
    &&& ports[output as int]->edge->0.inputs.contains(input)
}

/// Whether the input at `input` has the output at `output` as the one that
/// feeds it.
pub open spec fn fed_by(ports: Seq<Port>, input: usize, output: usize) -> bool {
    &&& input < ports.len()
    &&& ports[input as int] is Input
    &&& ports[input as int]->upstream == Some(output)
}

/// Whether the port at `i` is in order: it holds its own position as its
/// index, it is typed, and its connection has its other end. An input that
/// names an output is among the inputs of that output's edge. The edge of an
/// output names that output, has at least one input and none twice, and each
/// of its inputs names the output in turn.
pub open spec fn port_wf(ports: Seq<Port>, i: int) -> bool {
    &&& ports[i].index() == i
    &&& ports[i].typed()
    &&& match ports[i] {
        Port::Input { upstream: Some(output), .. } => feeds(ports, output, i as usize),
        Port::Input { upstream: None, .. } => true,
        Port::Output { edge: Some(e), .. } => {
            &&& e.output == i
            &&& e.inputs.len() > 0
            &&& e.inputs.no_duplicates()
            &&& forall|k: int|
                0 <= k < e.inputs.len() ==> fed_by(ports, #[trigger] e.inputs[k], i as usize)
        },
        Port::Output { edge: None, .. } => true,
    }
}

/// Whether every port is in order.
pub open spec fn wf(ports: Seq<Port>) -> bool {
    forall|i: int| 0 <= i < ports.len() ==> #[trigger] port_wf(ports, i)
}

/// What an input that nothing feeds is read as.
pub open spec fn unconnected_default() -> Value {
    Value::Integer(0)
}

/// The value of the port at `index`: for an output its own, for an input the
/// value of the output that feeds it, converted to the input's type.
pub open spec fn read(ports: Seq<Port>, index: usize) -> Result<Value, Task> {
    if index >= ports.len() {
        Ok(Value::Null)
    } else {
        match ports[index as int] {
            Port::Output { value, .. } => Ok(value),
            Port::Input { upstream: None, .. } => Ok(unconnected_default()),
            Port::Input { upstream: Some(output), declared, .. } => converted(
                ports[output as int]->value,
                declared,
            ),
        }
    }
}

/// The ports after the output at `index` got `value`, converted to its type.
/// Nothing changes where there is no such port, or where the conversion ends in
/// work to do.
pub open spec fn stored(ports: Seq<Port>, index: usize, value: Value) -> Seq<Port>
    recommends
        index < ports.len() ==> ports[index as int] is Output,
{
    if index >= ports.len() {
        ports
    } else {
        match converted(value, ports[index as int].declared()) {
            Ok(v) => ports.update(index as int, ports[index as int].with_value(v)),
            Err(_) => ports,
        }
    }
}

/// The port at `j` after the output at `output` lost its edge: the output
/// itself and every input that it fed are detached, the others are as before.
pub open spec fn severed(ports: Seq<Port>, output: usize, j: int) -> Port {
    if j == output || fed_by(ports, j as usize, output) {
        ports[j].detached()
    } else {
        ports[j]
    }
}

/// The edge `e` without `input`, and no edge where no input is left.
pub open spec fn edge_without(e: EdgeView, input: usize) -> Option<EdgeView> {
    if without(e.inputs, input).len() == 0 {
        None
    } else {
        Some(EdgeView { inputs: without(e.inputs, input), output: e.output })
    }
}

/// The ports after the port at `index` was disconnected. An output loses its
/// edge, and every input that it fed is detached with it. An input is detached
/// and leaves the edge of the output that fed it; where it was the only input
/// of that edge, the edge goes too.
pub open spec fn disconnected(ports: Seq<Port>, index: usize) -> Seq<Port> {
    if index >= ports.len() {
        ports
    } else {
        match ports[index as int] {
            Port::Output { .. } => Seq::new(ports.len(), |j: int| severed(ports, index, j)),
            Port::Input { upstream: None, .. } => ports,
            Port::Input { upstream: Some(output), .. } => {
                if feeds(ports, output, index) {
                    ports.update(
                        output as int,
                        ports[output as int].with_edge(
                            edge_without(ports[output as int]->edge->0, index),
                        ),
                    ).update(index as int, ports[index as int].detached())
                } else {
                    ports.update(index as int, ports[index as int].detached())
                }
            },
        }
    }
}

/// The ports after the detached input at `input` was attached to the output at
/// `output`: the input joins the output's edge, which is made where the output
/// had none, and names the output as the one that feeds it.
pub open spec fn attached(ports: Seq<Port>, input: usize, output: usize) -> Seq<Port> {
    let edge = match ports[output as int]->edge {
        Some(e) => EdgeView { inputs: with(e.inputs, input), output: e.output },
        None => EdgeView { inputs: seq![input], output },
    };
    ports.update(output as int, ports[output as int].with_edge(Some(edge))).update(
        input as int,
        ports[input as int].fed_by(output),
    )
}

/// The ports after the input at `input` was connected to the output at
/// `output`. Nothing changes where it is connected to that output already;
/// else it is first disconnected from the output that feeds it, if any.
pub open spec fn joined(ports: Seq<Port>, input: usize, output: usize) -> Seq<Port> {
    if ports[input as int]->upstream == Some(output) {
        ports
    } else {
        attached(disconnected(ports, input), input, output)
    }
}

/// The ports after the ports at `a` and `b` were connected, in either order.
/// Nothing changes unless both are there, one an input and the other an
/// output.
pub open spec fn connected(ports: Seq<Port>, a: usize, b: usize) -> Seq<Port> {
    if a >= ports.len() || b >= ports.len() {
        ports
    } else if ports[a as int] is Input && ports[b as int] is Output {
        joined(ports, a, b)
    } else if ports[a as int] is Output && ports[b as int] is Input {
        joined(ports, b, a)
    } else {
        ports
    }
}

/// The index `i` after the port at `removed` left: one less for an index above
/// it.
pub open spec fn shifted(i: usize, removed: usize) -> usize {
    if i > removed {
        (i - 1) as usize
    } else {
        i
    }
}

/// The port `p` after the port at `removed` left: its own index and every
/// index that it refers to are shifted.
pub open spec fn renumbered(p: Port, removed: usize) -> Port {
    match p {
        Port::Input { index, name, upstream, declared } => Port::Input {
            index: shifted(index, removed),
            name,
            upstream: match upstream {
                Some(output) => Some(shifted(output, removed)),
                None => None,
            },
            declared,
        },
        Port::Output { index, name, edge, value, declared } => Port::Output {
            index: shifted(index, removed),
            name,
            edge: match edge {
                Some(e) => Some(
                    EdgeView {
                        inputs: e.inputs.map_values(|i: usize| shifted(i, removed)),
                        output: shifted(e.output, removed),
                    },
                ),
                None => None,
            },
            value,
            declared,
        },
    }
}

/// The ports after the port at `index` was deleted: it is disconnected and
/// taken out, and the ports after it move down by one, renumbered.
pub open spec fn deleted(ports: Seq<Port>, index: usize) -> Seq<Port> {
    if index >= ports.len() {
        ports
    } else {
        Seq::new(
            (ports.len() - 1) as nat,
            |j: int|
                renumbered(
                    disconnected(ports, index)[if j < index {
                        j
                    } else {
                        j + 1
                    }],
                    index,
                ),
        )
    }
}

/// A new port at the end, with nothing attached, leaves the ports in order.
pub proof fn lemma_push_wf(ports: Seq<Port>, port: Port)
    requires
        wf(ports),
        port.index() == ports.len(),
        port.typed(),
        !port.has_edge(),
    ensures
        wf(ports.push(port)),
{
    let after = ports.push(port);
    assert forall|i: int| 0 <= i < after.len() implies #[trigger] port_wf(after, i) by {
        if i < ports.len() {
            assert(port_wf(ports, i));
            assert(after[i] == ports[i]);
            match ports[i] {
                Port::Output { edge: Some(e), .. } => {
                    assert forall|k: int| 0 <= k < e.inputs.len() implies fed_by(
                        after,
                        #[trigger] e.inputs[k],
                        i as usize,
                    ) by {
                        assert(fed_by(ports, e.inputs[k], i as usize));
                    }
                },
                _ => {},
            }
        }
    }
}

/// A new value for an output leaves the ports in order.
pub proof fn lemma_stored_wf(ports: Seq<Port>, index: usize, value: Value)
    requires
        wf(ports),
        index < ports.len() ==> ports[index as int] is Output,
    ensures
        wf(stored(ports, index, value)),
{
    let after = stored(ports, index, value);
    assert forall|i: int| 0 <= i < after.len() implies #[trigger] port_wf(after, i) by {
        assert(port_wf(ports, i));
        match ports[i] {
            Port::Output { edge: Some(e), .. } => {
                assert forall|k: int| 0 <= k < e.inputs.len() implies fed_by(
                    after,
                    #[trigger] e.inputs[k],
                    i as usize,
                ) by {
                    assert(fed_by(ports, e.inputs[k], i as usize));
                }
            },
            _ => {},
        }
    }
}

/// Disconnecting a port leaves the ports in order.
pub proof fn lemma_disconnected_wf(ports: Seq<Port>, index: usize)
    requires
        wf(ports),
    ensures
        wf(disconnected(ports, index)),
        disconnected(ports, index).len() == ports.len(),
{
    let after = disconnected(ports, index);
    if index < ports.len() {
        assert(port_wf(ports, index as int));
        match ports[index as int] {
            Port::Output { .. } => {
                assert forall|j: int| 0 <= j < after.len() implies #[trigger] port_wf(
                    after,
                    j,
                ) by {
                    assert(port_wf(ports, j));
                    match after[j] {
                        Port::Input { upstream: Some(output), .. } => {
                            assert(after[output as int] == ports[output as int]);
                        },
                        Port::Output { edge: Some(e), .. } => {
                            assert forall|k: int| 0 <= k < e.inputs.len() implies fed_by(
                                after,
                                #[trigger] e.inputs[k],
                                j as usize,
                            ) by {
                                assert(fed_by(ports, e.inputs[k], j as usize));
                            }
                        },
                        _ => {},
                    }
                }
            },
            Port::Input { upstream: None, .. } => {},
            Port::Input { upstream: Some(output), .. } => {
                let e = ports[output as int]->edge->0;
                assert(port_wf(ports, output as int));
                lemma_without_distinct(e.inputs, index);
                assert forall|j: int| 0 <= j < after.len() implies #[trigger] port_wf(
                    after,
                    j,
                ) by {
                    assert(port_wf(ports, j));
                    if j == index {
                    } else if j == output {
                        match after[j] {
                            Port::Output { edge: Some(rest), .. } => {
                                assert forall|k: int| 0 <= k < rest.inputs.len() implies fed_by(
                                    after,
                                    #[trigger] rest.inputs[k],
                                    j as usize,
                                ) by {
                                    let x = rest.inputs[k];
                                    lemma_without_contains(e.inputs, index, x);
                                    let k0 = choose|k0: int|
                                        0 <= k0 < e.inputs.len() && e.inputs[k0] == x;
                                    assert(fed_by(ports, e.inputs[k0], output));
                                }
                            },
                            _ => {},
                        }
                    } else {
                        match ports[j] {
                            Port::Input { upstream: Some(other), .. } => {
                                if other == output {
                                    lemma_without_contains(e.inputs, index, j as usize);
                                }
                            },
                            Port::Output { edge: Some(e2), .. } => {
                                assert forall|k: int| 0 <= k < e2.inputs.len() implies fed_by(
                                    after,
                                    #[trigger] e2.inputs[k],
                                    j as usize,
                                ) by {
                                    assert(fed_by(ports, e2.inputs[k], j as usize));
                                }
                            },
                            _ => {},
                        }
                    }
                }
            },
        }
    }
}

/// Attaching a detached input to an output leaves the ports in order.
pub proof fn lemma_attached_wf(ports: Seq<Port>, input: usize, output: usize)
    requires
        wf(ports),
        input < ports.len(),
        output < ports.len(),
        ports[input as int] is Input,
        ports[input as int]->upstream is None,
        ports[output as int] is Output,
    ensures
        wf(attached(ports, input, output)),
        attached(ports, input, output).len() == ports.len(),
{
    let after = attached(ports, input, output);
    assert(port_wf(ports, input as int));
    assert(port_wf(ports, output as int));
    assert forall|j: int| 0 <= j < after.len() implies #[trigger] port_wf(after, j) by {
        assert(port_wf(ports, j));
        if j == input {
            match ports[output as int]->edge {
                Some(e) => {
                    if !e.inputs.contains(input) {
                        assert(e.inputs.push(input)[e.inputs.len() as int] == input);
                    }
                },
                None => {
                    assert(seq![input][0] == input);
                },
            }
        } else if j == output {
            let grown = after[j]->edge->0;
            match ports[output as int]->edge {
                Some(e) => {
                    assert(!e.inputs.contains(input)) by {
                        if e.inputs.contains(input) {
                            let k0 = choose|k0: int|
                                0 <= k0 < e.inputs.len() && e.inputs[k0] == input;
                            assert(fed_by(ports, e.inputs[k0], output));
                        }
                    }
                    assert(grown.inputs == e.inputs.push(input));
                    assert forall|k: int| 0 <= k < grown.inputs.len() implies fed_by(
                        after,
                        #[trigger] grown.inputs[k],
                        j as usize,
                    ) by {
                        if k < e.inputs.len() {
                            assert(fed_by(ports, e.inputs[k], output));
                        }
                    }
                },
                None => {},
            }
        } else {
            match ports[j] {
                Port::Input { upstream: Some(other), .. } => {
                    if other == output {
                        let e = ports[output as int]->edge->0;
                        let k0 = choose|k0: int|
                            0 <= k0 < e.inputs.len() && e.inputs[k0] == j as usize;
                        assert(with(e.inputs, input)[k0] == j as usize);
                    }
                },
                Port::Output { edge: Some(e2), .. } => {
                    assert forall|k: int| 0 <= k < e2.inputs.len() implies fed_by(
                        after,
                        #[trigger] e2.inputs[k],
                        j as usize,
                    ) by {
                        assert(fed_by(ports, e2.inputs[k], j as usize));
                    }
                },
                _ => {},
            }
        }
    }
}

/// Connecting two ports leaves the ports in order.
pub proof fn lemma_connected_wf(ports: Seq<Port>, a: usize, b: usize)
    requires
        wf(ports),
    ensures
        wf(connected(ports, a, b)),
        connected(ports, a, b).len() == ports.len(),
{
    if a < ports.len() && b < ports.len() {
        if ports[a as int] is Input && ports[b as int] is Output {
            lemma_joined_wf(ports, a, b);
        } else if ports[a as int] is Output && ports[b as int] is Input {
            lemma_joined_wf(ports, b, a);
        }
    }
}

/// Connecting an input to an output leaves the ports in order.
pub proof fn lemma_joined_wf(ports: Seq<Port>, input: usize, output: usize)
    requires
        wf(ports),
        input < ports.len(),
        output < ports.len(),
        ports[input as int] is Input,
        ports[output as int] is Output,
    ensures
        wf(joined(ports, input, output)),
        joined(ports, input, output).len() == ports.len(),
{
    if ports[input as int]->upstream != Some(output) {
        lemma_disconnected_wf(ports, input);
        assert(port_wf(ports, input as int));
        lemma_attached_wf(disconnected(ports, input), input, output);
    }
}

/// Deleting a port leaves the ports in order.
pub proof fn lemma_deleted_wf(ports: Seq<Port>, index: usize)
    requires
        wf(ports),
    ensures
        wf(deleted(ports, index)),
{
    if index < ports.len() {
        let isolated = disconnected(ports, index);
        let after = deleted(ports, index);
        lemma_disconnected_wf(ports, index);
        assert(!isolated[index as int].has_edge());
        assert forall|j: int| 0 <= j < after.len() implies #[trigger] port_wf(after, j) by {
            let source = if j < index {
                j
            } else {
                j + 1
            };
            assert(port_wf(isolated, source));
            assert(after[j] == renumbered(isolated[source], index));
            match isolated[source] {
                Port::Input { upstream: Some(output), .. } => {
                    assert(port_wf(isolated, output as int));
                    let moved = shifted(output, index);
                    assert(after[moved as int] == renumbered(isolated[output as int], index));
                    let e = isolated[output as int]->edge->0;
                    let k0 = choose|k0: int|
                        0 <= k0 < e.inputs.len() && e.inputs[k0] == source as usize;
                    assert(e.inputs.map_values(|i: usize| shifted(i, index))[k0] == j as usize);
                },
                Port::Output { edge: Some(e), .. } => {
                    let moved = e.inputs.map_values(|i: usize| shifted(i, index));
                    assert forall|k: int| 0 <= k < moved.len() implies fed_by(
                        after,
                        #[trigger] moved[k],
                        j as usize,
                    ) by {
                        assert(fed_by(isolated, e.inputs[k], source as usize));
                        assert(after[moved[k] as int] == renumbered(
                            isolated[e.inputs[k] as int],
                            index,
                        ));
                    }
                    assert forall|a: int, b: int|
                        0 <= a < moved.len() && 0 <= b < moved.len() && a != b implies moved[a]
                        != moved[b] by {
                        assert(fed_by(isolated, e.inputs[a], source as usize));
                        assert(fed_by(isolated, e.inputs[b], source as usize));
                    }
                },
                _ => {},
            }
        }
    }
}

} // verus!
