//! The manager of the connectors of a node editor.

use vstd::prelude::*;

pub mod arithmetic;
pub mod binary32;
pub mod compare;
pub mod connector;
pub mod edge;
pub mod laws;
pub mod model;
pub mod text;
pub mod value;
pub mod value_laws;

use crate::helper::types::Null;
use crate::nodes::connector_manager::connector::{created, Connector, Port};
use crate::nodes::connector_manager::edge::ConnectorEdge;
use crate::nodes::connector_manager::value::{
    converted,
    outcome_view,
    ConnectorType,
    ConnectorTypeId,
    FloatTask,
};

verus! {

/// The connectors of an editor, each at the position that is its index.
///
/// An input connector has at most one connection and no value of its own: it
/// is read as the value of the output that feeds it. An output connector has a
/// value, and feeds any number of inputs through one edge.
pub struct Manager {
    connectors: Vec<Connector>,
}

impl View for Manager {
    type V = Seq<Port>;

    closed spec fn view(&self) -> Seq<Port> {
        self.connectors@.map_values(|c: Connector| c@)
    }
}

impl Manager {
    /// Whether every connector is in order: see `model::port_wf`.
    pub open spec fn wf(&self) -> bool {
        model::wf(self@)
    }

    /// A manager without connectors.
    pub fn new() -> (manager: Manager)
        ensures
            manager@ == Seq::<Port>::empty(),
            manager.wf(),
    {
        let manager: Manager = Manager { connectors: Vec::new() };
        assert(manager@ =~= Seq::<Port>::empty());
        manager
    }

    /// The connector at `index`, if there is one.
    pub fn get_connector(&self, index: usize) -> (connector: Option<&Connector>)
        ensures
            match connector {
                Some(c) => index < self@.len() && c@ == self@[index as int],
                None => index >= self@.len(),
            },
    {
        if index < self.connectors.len() {
            Some(&self.connectors[index])
        } else {
            None
        }
    }

    /// The connector at `index`, if there is one, to be changed in place.
    pub fn get_connector_mut(&mut self, index: usize) -> (connector: Option<&mut Connector>)
        ensures
            match connector {
                Some(c) => {
                    &&& index < old(self)@.len()
                    &&& c@ == old(self)@[index as int]
                    &&& final(self)@ == old(self)@.update(index as int, final(c)@)
                },
                None => index >= old(self)@.len() && final(self)@ == old(self)@,
            },
    {
        if index < self.connectors.len() {
            Some(&mut self.connectors[index])
        } else {
            None
        }
    }

    /// The connectors at two different indices, the one at the lower index
    /// first.
    pub fn get_two_connectors(&self, index1: usize, index2: usize) -> (pair: (
        &Connector,
        &Connector,
    ))
        requires
            index1 != index2,
            index1 < self@.len(),
            index2 < self@.len(),
        ensures
            index1 < index2 ==> pair.0@ == self@[index1 as int] && pair.1@ == self@[index2 as int],
            index2 < index1 ==> pair.0@ == self@[index2 as int] && pair.1@ == self@[index1 as int],
    {
        let (index1, index2) = if index1 < index2 {
            (index1, index2)
        } else {
            (index2, index1)
        };
        (&self.connectors[index1], &self.connectors[index2])
    }

    /// The connectors at two different indices, to be changed in place. Where
    /// one of them is an input and the other an output, the input comes first.
    pub fn get_input_output_mut(&mut self, index1: usize, index2: usize) -> (pair: (
        &mut Connector,
        &mut Connector,
    ))
        requires
            index1 != index2,
            index1 < old(self)@.len(),
            index2 < old(self)@.len(),
        ensures
            ({
                let low = if index1 < index2 {
                    index1
                } else {
                    index2
                };
                let high = if index1 < index2 {
                    index2
                } else {
                    index1
                };
                let (first, second) = if old(self)@[low as int] is Output {
                    (high, low)
                } else {
                    (low, high)
                };
                &&& pair.0@ == old(self)@[first as int]
                &&& pair.1@ == old(self)@[second as int]
                &&& final(self)@ == old(self)@.update(first as int, final(pair.0)@).update(
                    second as int,
                    final(pair.1)@,
                )
            }),
    {
        let (index1, index2) = if index1 < index2 {
            (index1, index2)
        } else {
            (index2, index1)
        };
        let (left, right) = self.connectors.as_mut_slice().split_at_mut(index1 + 1);
        let (input, output) = (&mut left[index1], &mut right[index2 - index1 - 1]);
        let (input, output) = if input.is_output() {
            (output, input)
        } else {
            (input, output)
        };
        (input, output)
    }

    /// Adds a connector at the end and returns its index. An input ignores
    /// `value`; an output holds `value` converted to its type, and nothing is
    /// added where that conversion ends in work to do.
    pub fn add_connector(
        &mut self,
        name: String,
        value: ConnectorType,
        connector_type: i32,
        is_output: bool,
    ) -> (outcome: Result<usize, FloatTask>)
        requires
            old(self).wf(),
            ConnectorTypeId::is_declarable(connector_type),
        ensures
            final(self).wf(),
            match created(old(self)@.len() as usize, name@, value@, connector_type, is_output) {
                Ok(port) => {
                    &&& outcome == Ok::<usize, FloatTask>(old(self)@.len() as usize)
                    &&& final(self)@ == old(self)@.push(port)
                },
                Err(task) => {
                    &&& outcome is Err
                    &&& outcome->Err_0@ == task
                    &&& final(self)@ == old(self)@
                },
            },
    {
        let index: usize = self.connectors.len();
        match Connector::new(index, name, value, connector_type, is_output) {
            Ok(connector) => {
                proof {
                    model::lemma_push_wf(self@, connector@);
                    assert(self@.push(connector@) =~= self.connectors@.push(connector).map_values(
                        |c: Connector| c@,
                    ));
                }
                self.connectors.push(connector);
                Ok(index)
            },
            Err(task) => Err(task),
        }
    }

    /// Gives the output at `index` the value `value`, converted to the
    /// output's type. Nothing changes where there is no connector at `index`,
    /// or where the conversion ends in work to do.
    pub fn set_value(&mut self, index: usize, value: ConnectorType) -> (outcome: Result<
        (),
        FloatTask,
    >)
        requires
            old(self).wf(),
            index < old(self)@.len() ==> old(self)@[index as int] is Output,
        ensures
            final(self).wf(),
            final(self)@ == model::stored(old(self)@, index, value@),
            index >= old(self)@.len() ==> outcome is Ok,
            index < old(self)@.len() ==> match converted(
                value@,
                old(self)@[index as int].declared(),
            ) {
                Ok(_) => outcome is Ok,
                Err(task) => outcome is Err && outcome->Err_0@ == task,
            },
    {
        if index >= self.connectors.len() {
            return Ok(());
        }
        proof {
            model::lemma_stored_wf(self@, index, value@);
            assert(model::port_wf(self@, index as int));
        }
        let outcome: Result<(), FloatTask> = self.connectors[index].set_value(value);
        assert(self@ =~= model::stored(old(self)@, index, value@));
        outcome
    }

    /// The value of the connector at `index`: for an output its own, for an
    /// input the value of the output that feeds it, converted to the input's
    /// type. An input that nothing feeds is read as the integer zero, and an
    /// index without a connector as `Null`.
    pub fn get_value(&self, index: usize) -> (outcome: Result<ConnectorType, FloatTask>)
        requires
            self.wf(),
        ensures
            outcome_view(outcome) == model::read(self@, index),
    {
        if index >= self.connectors.len() {
            return Ok(ConnectorType::Null(Null::new()));
        }
        proof {
            assert(model::port_wf(self@, index as int));
        }
        match &self.connectors[index] {
            Connector::Input(_, connected, connector_type) => {
                match connected {
                    Some(connected) => self.connectors[*connected].get_value().get_variant(
                        *connector_type,
                    ),
                    None => Ok(ConnectorType::Integer(0)),
                }
            },
            Connector::Output(_, _, value, _) => Ok(value.clone()),
        }
    }

    /// Connects the connectors at the two indices, in either order. Nothing
    /// changes unless both are there, one an input and the other an output, and
    /// not connected to each other already. An input that another output feeds
    /// is disconnected from it first.
    pub fn connect(&mut self, input_index: usize, output_index: usize)
        requires
            old(self).wf(),
        ensures
            final(self).wf(),
            final(self)@ == model::connected(old(self)@, input_index, output_index),
    {
        let count: usize = self.connectors.len();
        if input_index >= count || output_index >= count {
            return;
        }
        proof {
            model::lemma_connected_wf(self@, input_index, output_index);
        }
        let (input_index, output_index) = match (
            self.connectors[input_index].is_output(),
            self.connectors[output_index].is_output(),
        ) {
            (true, false) => (output_index, input_index),
            (false, true) => (input_index, output_index),
            _ => {
                return;
            },
        };
        proof {
            model::lemma_disconnected_wf(self@, input_index);
            assert(model::port_wf(self@, input_index as int));
            assert(model::port_wf(self@, output_index as int));
        }
        if self.connectors[input_index].has_edge() {
            match self.connectors[input_index].get_connected_to(output_index) {
                Some(_) => {
                    return;
                },
                None => {},
            }
            self.disconnect(input_index);
        }
        let ghost detached = self@;
        assert(model::port_wf(detached, output_index as int));
        let (input, output) = self.get_input_output_mut(input_index, output_index);
        if output.has_edge() {
            match output.get_edge_mut() {
                Some(edge) => {
                    edge.add_input(input_index);
                },
                None => {},
            }
        } else {
            let inputs: Vec<usize> = vec![input_index];
            assert(inputs@ =~= seq![input_index]);
            output.connect_output(ConnectorEdge::new(inputs, output_index));
        }
        input.connect_input(output);
        assert(self@ =~= model::attached(detached, input_index, output_index));
    }

    /// Disconnects the connector at `index`, if there is one. An output loses
    /// its edge, and every input that it fed is detached with it. An input is
    /// detached and leaves the edge of the output that fed it; where it was the
    /// only input of that edge, the edge goes too.
    pub fn disconnect(&mut self, index: usize)
        requires
            old(self).wf(),
        ensures
            final(self).wf(),
            final(self)@ == model::disconnected(old(self)@, index),
    {
        let count: usize = self.connectors.len();
        if index >= count {
            return;
        }
        proof {
            model::lemma_disconnected_wf(self@, index);
            assert(model::port_wf(self@, index as int));
        }
        match &self.connectors[index] {
            Connector::Output(_, _, _, _) => {
                let mut j: usize = 0;
                while j < count
                    invariant
                        j <= count,
                        index < count,
                        count == self.connectors.len(),
                        count == old(self)@.len(),
                        forall|k: int|
                            0 <= k < count ==> #[trigger] self@[k] == if k < j {
                                model::severed(old(self)@, index, k)
                            } else {
                                old(self)@[k]
                            },
                    decreases count - j,
                {
                    let ghost before = self@;
                    assert(before[j as int] == old(self)@[j as int]);
                    let fed: bool = match &self.connectors[j] {
                        Connector::Input(_, Some(output), _) => *output == index,
                        _ => false,
                    };
                    if j == index || fed {
                        self.connectors[j].remove_edge();
                    }
                    assert(self@ =~= before.update(
                        j as int,
                        model::severed(old(self)@, index, j as int),
                    ));
                    j = j + 1;
                }
                assert(self@ =~= model::disconnected(old(self)@, index));
            },
            Connector::Input(_, None, _) => {},
            Connector::Input(_, Some(output), _) => {
                let output: usize = *output;
                assert(model::port_wf(self@, output as int));
                self.connectors[output].disconnect_from_edge(index);
                if self.connectors[output].get_connected().len() == 0 {
                    self.connectors[output].remove_edge();
                }
                self.connectors[index].remove_edge();
                assert(self@ =~= model::disconnected(old(self)@, index));
            },
        }
    }

    /// Deletes the connector at `index`, if there is one: it is disconnected
    /// and taken out, and the connectors after it move down by one. Every index
    /// above `index`, a connector's own or one that a connection refers to,
    /// becomes one less.
    pub fn delete_connector(&mut self, index: usize)
        requires
            old(self).wf(),
        ensures
            final(self).wf(),
            final(self)@ == model::deleted(old(self)@, index),
    {
        if index >= self.connectors.len() {
            return;
        }
        proof {
            model::lemma_deleted_wf(self@, index);
            model::lemma_disconnected_wf(self@, index);
        }
        self.disconnect(index);
        let ghost isolated = self@;
        self.connectors.remove(index);
        let ghost rest = self@;
        assert(rest =~= isolated.remove(index as int));
        let count: usize = self.connectors.len();
        let mut j: usize = 0;
        while j < count
            invariant
                j <= count,
                count == self.connectors.len(),
                count == rest.len(),
                forall|k: int|
                    0 <= k < count ==> #[trigger] self@[k] == if k < j {
                        model::renumbered(rest[k], index)
                    } else {
                        rest[k]
                    },
            decreases count - j,
        {
            let ghost before = self@;
            assert(before[j as int] == rest[j as int]);
            renumber(&mut self.connectors[j], index);
            assert(self@ =~= before.update(j as int, model::renumbered(rest[j as int], index)));
            j = j + 1;
        }
        assert(self@ =~= model::deleted(old(self)@, index));
    }
}

/// The index `i` after the connector at `removed` left.
fn shift(i: usize, removed: usize) -> (moved: usize)
    ensures
        moved == model::shifted(i, removed),
{
    if i > removed {
        i - 1
    } else {
        i
    }
}

/// Renumbers a connector after the connector at `removed` left: its own index
/// and every index that it refers to.
fn renumber(connector: &mut Connector, removed: usize)
    ensures
        final(connector)@ == model::renumbered(old(connector)@, removed),
{
    let index: usize = connector.get_index();
    connector.set_index(shift(index, removed));
    match connector {
        Connector::Input(_, connected, _) => {
            match connected {
                Some(output) => {
                    *output = shift(*output, removed);
                },
                None => {},
            }
        },
        Connector::Output(_, edge, _, _) => {
            match edge {
                Some(e) => {
                    let inputs: Vec<usize> = e.get_input();
                    let mut moved: Vec<usize> = Vec::new();
                    let mut k: usize = 0;
                    while k < inputs.len()
                        invariant
                            k <= inputs.len(),
                            moved@.len() == k,
                            forall|i: int|
                                0 <= i < k ==> moved@[i] == model::shifted(inputs@[i], removed),
                        decreases inputs.len() - k,
                    {
                        moved.push(shift(inputs[k], removed));
                        k = k + 1;
                    }
                    assert(moved@ =~= inputs@.map_values(|i: usize| model::shifted(i, removed)));
                    *e = ConnectorEdge::new(moved, shift(e.get_output(), removed));
                },
                None => {},
            }
        },
    }
}

} // verus!
