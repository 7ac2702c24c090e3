//! What holds of the manager's operations, over the ports that they leave.

use vstd::prelude::*;
use crate::nodes::connector_manager::connector::Port;
use crate::nodes::connector_manager::edge::{lemma_without_contains, lemma_without_distinct};
use crate::nodes::connector_manager::model::{
    attached,
    connected,
    deleted,
    disconnected,
    edge_without,
    fed_by,
    feeds,
    lemma_connected_wf,
    lemma_deleted_wf,
    lemma_disconnected_wf,
    port_wf,
    read,
    renumbered,
    severed,
    shifted,
    stored,
    unconnected_default,
    wf,
};
use crate::nodes::connector_manager::value::{converted, Task, Value};

verus! {

/// An input that was connected to an output is read as the value of that
/// output, converted to the input's own type, whatever the two types are and in
/// whichever order the two were named.
pub proof fn law_connected_input_reads_output(ports: Seq<Port>, input: usize, output: usize)
    requires
        wf(ports),
        input < ports.len(),
        output < ports.len(),
        ports[input as int] is Input,
        ports[output as int] is Output,
    ensures
        ({
            let after = connected(ports, input, output);
            let value = ports[output as int]->value;
            &&& connected(ports, output, input) == after
            &&& read(after, input) == converted(value, ports[input as int].declared())
            &&& read(after, output) == Ok::<Value, Task>(value)
        }),
{
    assert(port_wf(ports, input as int));
    assert(port_wf(ports, output as int));
    if ports[input as int]->upstream != Some(output) {
        lemma_disconnected_wf(ports, input);
    }
}

/// An input that is connected to another output than the one that feeds it
/// leaves the edge of the old output for the edge of the new one. Where it was
/// the only input of the old edge, the old output has no edge afterwards.
pub proof fn law_reconnection_leaves_old_output(
    ports: Seq<Port>,
    input: usize,
    old_output: usize,
    new_output: usize,
)
    requires
        wf(ports),
        input < ports.len(),
        new_output < ports.len(),
        fed_by(ports, input, old_output),
        ports[new_output as int] is Output,
        new_output != old_output,
    ensures
        ({
            let after = connected(ports, input, new_output);
            let old_edge = ports[old_output as int]->edge->0;
            &&& fed_by(after, input, new_output)
            &&& feeds(after, new_output, input)
            &&& !feeds(after, old_output, input)
            &&& after[old_output as int] == ports[old_output as int].with_edge(
                edge_without(old_edge, input),
            )
            &&& old_edge.inputs.len() == 1 ==> after[old_output as int]->edge is None
        }),
{
    let after = connected(ports, input, new_output);
    let isolated = disconnected(ports, input);
    let e = ports[old_output as int]->edge->0;
    assert(port_wf(ports, input as int));
    assert(port_wf(ports, old_output as int));
    assert(port_wf(ports, new_output as int));
    lemma_disconnected_wf(ports, input);
    lemma_without_distinct(e.inputs, input);
    lemma_without_contains(e.inputs, input, input);
    assert(after == attached(isolated, input, new_output));
    assert(port_wf(isolated, new_output as int));
    match isolated[new_output as int]->edge {
        Some(e2) => {
            if !e2.inputs.contains(input) {
                assert(e2.inputs.push(input)[e2.inputs.len() as int] == input);
            }
        },
        None => {
            assert(seq![input][0] == input);
        },
    }
}

/// After an output was disconnected it has no edge, and every input that it
/// fed is detached and read as the unconnected default.
pub proof fn law_disconnected_output_severs_inputs(ports: Seq<Port>, output: usize, input: usize)
    requires
        wf(ports),
        output < ports.len(),
        ports[output as int] is Output,
        fed_by(ports, input, output),
    ensures
        ({
            let after = disconnected(ports, output);
            &&& after[output as int]->edge is None
            &&& after[input as int] == ports[input as int].detached()
            &&& read(after, input) == Ok::<Value, Task>(unconnected_default())
        }),
{
}

/// After one of several inputs that an output feeds was disconnected, the
/// output still has its edge and its value, and every other input that it fed
/// is still fed by it and read as before.
pub proof fn law_disconnected_input_leaves_others(
    ports: Seq<Port>,
    input: usize,
    output: usize,
    other: usize,
)
    requires
        wf(ports),
        fed_by(ports, input, output),
        fed_by(ports, other, output),
        other != input,
    ensures
        ({
            let after = disconnected(ports, input);
            &&& after[input as int] == ports[input as int].detached()
            &&& after[other as int] == ports[other as int]
            &&& feeds(after, output, other)
            &&& !feeds(after, output, input)
            &&& read(after, other) == read(ports, other)
            &&& read(after, output) == read(ports, output)
        }),
{
    let e = ports[output as int]->edge->0;
    assert(port_wf(ports, input as int));
    assert(port_wf(ports, other as int));
    assert(port_wf(ports, output as int));
    lemma_without_contains(e.inputs, input, other);
    lemma_without_contains(e.inputs, input, input);
}

/// Deleting the port at `removed` leaves one port less. The ports before it
/// stay where they are and those after it move down by one, so that the
/// position `removed` holds what was at `removed + 1`. Each keeps its name,
/// its type and its value, holds its new position as its index, and every
/// index that it refers to is the new index of the port that it referred to.
pub proof fn law_deletion_renumbers(ports: Seq<Port>, removed: usize, i: usize)
    requires
        wf(ports),
        removed < ports.len(),
        i < ports.len(),
        i != removed,
    ensures
        ({
            let after = deleted(ports, removed);
            let moved = after[shifted(i, removed) as int];
            &&& wf(after)
            &&& after.len() == ports.len() - 1
            &&& moved == renumbered(disconnected(ports, removed)[i as int], removed)
            &&& moved.index() == shifted(i, removed)
            &&& moved.name() == ports[i as int].name()
            &&& moved.declared() == ports[i as int].declared()
            &&& (moved is Output) == (ports[i as int] is Output)
            &&& ports[i as int] is Output ==> moved->value == ports[i as int]->value
            &&& forall|j: usize|
                j < ports.len() && j != removed && fed_by(ports, i, j) ==> #[trigger] fed_by(
                    after,
                    shifted(i, removed),
                    shifted(j, removed),
                )
            &&& forall|j: usize|
                j < ports.len() && j != removed && feeds(ports, i, j) ==> #[trigger] feeds(
                    after,
                    shifted(i, removed),
                    shifted(j, removed),
                )
        }),
{
    let isolated = disconnected(ports, removed);
    let after = deleted(ports, removed);
    lemma_deleted_wf(ports, removed);
    lemma_disconnected_wf(ports, removed);
    assert(port_wf(ports, removed as int));
    assert(port_wf(ports, i as int));
    assert forall|j: usize|
        j < ports.len() && j != removed && fed_by(ports, i, j) implies #[trigger] fed_by(
        after,
        shifted(i, removed),
        shifted(j, removed),
    ) by {
        assert(port_wf(ports, j as int));
    }
    assert forall|j: usize|
        j < ports.len() && j != removed && feeds(ports, i, j) implies #[trigger] feeds(
        after,
        shifted(i, removed),
        shifted(j, removed),
    ) by {
        assert(port_wf(ports, j as int));
        let e = ports[i as int]->edge->0;
        let k0 = choose|k0: int| 0 <= k0 < e.inputs.len() && e.inputs[k0] == j;
        assert(fed_by(ports, e.inputs[k0], i));
        if ports[removed as int] is Input && ports[removed as int]->upstream == Some(i) {
            lemma_without_contains(e.inputs, removed, j);
            let rest = isolated[i as int]->edge->0;
            let k1 = choose|k1: int| 0 <= k1 < rest.inputs.len() && rest.inputs[k1] == j;
            assert(rest.inputs.map_values(|x: usize| shifted(x, removed))[k1] == shifted(
                j,
                removed,
            ));
        } else {
            assert(isolated[i as int] == ports[i as int]);
            assert(e.inputs.map_values(|x: usize| shifted(x, removed))[k0] == shifted(
                j,
                removed,
            ));
        }
    }
}

/// After the port at `removed` was deleted, its position holds the port that
/// came next, under its new index.
pub proof fn law_deletion_moves_the_next_port_up(ports: Seq<Port>, removed: usize, next: usize)
    requires
        wf(ports),
        next == removed + 1,
        next < ports.len(),
    ensures
        ({
            let after = deleted(ports, removed)[removed as int];
            &&& after.index() == removed
            &&& after.name() == ports[next as int].name()
            &&& after.declared() == ports[next as int].declared()
            &&& (after is Output) == (ports[next as int] is Output)
            &&& ports[next as int] is Output ==> after->value == ports[next as int]->value
        }),
{
    law_deletion_renumbers(ports, removed, next);
}

/// Connecting two inputs, or two outputs, changes nothing.
pub proof fn law_same_role_connection_is_noop(ports: Seq<Port>, a: usize, b: usize)
    requires
        a < ports.len(),
        b < ports.len(),
        (ports[a as int] is Input) == (ports[b as int] is Input),
    ensures
        connected(ports, a, b) == ports,
{
}

/// Connecting with an index that holds no port changes nothing.
pub proof fn law_missing_port_connection_is_noop(ports: Seq<Port>, a: usize, b: usize)
    requires
        a >= ports.len() || b >= ports.len(),
    ensures
        connected(ports, a, b) == ports,
{
}

/// The order in which two ports are named for connecting makes no
/// difference.
pub proof fn law_connection_order_is_irrelevant(ports: Seq<Port>, a: usize, b: usize)
    ensures
        connected(ports, a, b) == connected(ports, b, a),
{
}

/// Connecting two ports a second time changes nothing.
pub proof fn law_connecting_again_is_noop(ports: Seq<Port>, a: usize, b: usize)
    requires
        wf(ports),
    ensures
        connected(connected(ports, a, b), a, b) == connected(ports, a, b),
{
    if a < ports.len() && b < ports.len() {
        let (input, output) = if ports[a as int] is Input {
            (a, b)
        } else {
            (b, a)
        };
        if ports[input as int] is Input && ports[output as int] is Output {
            lemma_disconnected_wf(ports, input);
            assert(port_wf(ports, input as int));
        }
    }
}

/// Disconnecting a port a second time changes nothing.
pub proof fn law_disconnecting_again_is_noop(ports: Seq<Port>, index: usize)
    requires
        wf(ports),
    ensures
        disconnected(disconnected(ports, index), index) == disconnected(ports, index),
{
    let once = disconnected(ports, index);
    lemma_disconnected_wf(ports, index);
    if index < ports.len() {
        assert(port_wf(ports, index as int));
        assert(port_wf(once, index as int));
        if ports[index as int] is Output {
            assert forall|j: int| 0 <= j < once.len() implies #[trigger] severed(once, index, j)
                == once[j] by {
                assert(port_wf(once, j));
            }
            assert(disconnected(once, index) =~= once);
        }
    }
}

/// Connecting and disconnecting leave every port its position, its index, its
/// name, its role and its type, and every output its value.
pub proof fn law_connections_keep_the_ports(ports: Seq<Port>, a: usize, b: usize, i: int)
    requires
        wf(ports),
        0 <= i < ports.len(),
    ensures
        ({
            let joined = connected(ports, a, b);
            let parted = disconnected(ports, a);
            &&& joined.len() == ports.len()
            &&& parted.len() == ports.len()
            &&& kept(ports[i], joined[i])
            &&& kept(ports[i], parted[i])
            &&& ports[i] is Output ==> joined[i]->value == ports[i]->value
            &&& ports[i] is Output ==> parted[i]->value == ports[i]->value
        }),
{
    lemma_disconnected_wf(ports, a);
    lemma_disconnected_wf(ports, b);
    lemma_connected_wf(ports, a, b);
    if a < ports.len() {
        assert(port_wf(ports, a as int));
    }
    if b < ports.len() {
        assert(port_wf(ports, b as int));
    }
}

/// Giving an output a value leaves every port its position, its index, its
/// name, its role, its type and its connection, and every other output its
/// value.
pub proof fn law_value_keeps_the_ports(ports: Seq<Port>, output: usize, value: Value, i: int)
    requires
        0 <= i < ports.len(),
        output < ports.len() ==> ports[output as int] is Output,
    ensures
        ({
            let after = stored(ports, output, value);
            &&& after.len() == ports.len()
            &&& kept(ports[i], after[i])
            &&& after[i].connected() == ports[i].connected()
            &&& i != output ==> after[i] == ports[i]
        }),
{
}

/// Whether `after` is the port `before` but for its connection and its value:
/// it has the index, the name, the role and the type of `before`.
pub open spec fn kept(before: Port, after: Port) -> bool {
    &&& after.index() == before.index()
    &&& after.name() == before.name()
    &&& after.declared() == before.declared()
    &&& (after is Input) == (before is Input)
}

} // verus!
