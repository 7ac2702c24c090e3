//! A connector: a typed port of a node, for input or for output.

use vstd::prelude::*;
use crate::helper::types::Null;
use crate::nodes::connector_manager::edge::{without, ConnectorEdge, EdgeView};
use crate::nodes::connector_manager::value::{
    converted,
    type_of,
    ConnectorType,
    ConnectorTypeId,
    FloatTask,
    Task,
    Value,
};

verus! {

/// The index and the name of a connector.
#[derive(Debug)]
pub struct ConnectorInfo {
    index: usize,
    name: String,
}

/// What a `ConnectorInfo` holds.
pub struct InfoView {
    pub index: usize,
    pub name: Seq<char>,
}

impl View for ConnectorInfo {
    type V = InfoView;

    closed spec fn view(&self) -> InfoView {
        InfoView { index: self.index, name: self.name@ }
    }
}

impl Clone for ConnectorInfo {
    fn clone(&self) -> (copy: ConnectorInfo)
        ensures
            copy@ == self@,
    {
        ConnectorInfo { index: self.index, name: self.name.clone() }
    }
}

impl ConnectorInfo {
    pub fn new(index: usize, name: String) -> (info: ConnectorInfo)
        ensures
            info@ == (InfoView { index, name: name@ }),
    {
        ConnectorInfo { index, name }
    }

    pub fn set_index(&mut self, index: usize)
        ensures
            final(self)@ == (InfoView { index, name: old(self)@.name }),
    {
        self.index = index;
    }

    pub fn get_index(&self) -> (index: usize)
        ensures
            index == self@.index,
    {
        self.index
    }

    pub fn get_name(&self) -> (name: String)
        ensures
            name@ == self@.name,
    {
        self.name.clone()
    }
}

/// A connector of a node.
///
/// An input holds its index and name, the index of the output that feeds it,
/// if one does, and the identifier of its type. An output holds its index and
/// name, the edge to the inputs that it feeds, if it feeds any, its value, and
/// the identifier of its type.
#[derive(Debug)]
pub enum Connector {
    Input(ConnectorInfo, Option<usize>, i32),
    Output(ConnectorInfo, Option<ConnectorEdge>, ConnectorType, i32),
}

/// What a `Connector` holds.
pub enum Port {
    Input { index: usize, name: Seq<char>, upstream: Option<usize>, declared: i32 },
    Output { index: usize, name: Seq<char>, edge: Option<EdgeView>, value: Value, declared: i32 },
}

impl Port {
    pub open spec fn index(self) -> usize {
        match self {
            Port::Input { index, .. } => index,
            Port::Output { index, .. } => index,
        }
    }

    pub open spec fn name(self) -> Seq<char> {
        match self {
            Port::Input { name, .. } => name,
            Port::Output { name, .. } => name,
        }
    }

    pub open spec fn declared(self) -> i32 {
        match self {
            Port::Input { declared, .. } => declared,
            Port::Output { declared, .. } => declared,
        }
    }

    /// Whether the port is attached: an input to an output, an output to an
    /// edge.
    pub open spec fn has_edge(self) -> bool {
        match self {
            Port::Input { upstream, .. } => upstream is Some,
            Port::Output { edge, .. } => edge is Some,
        }
    }

    /// The indices that the port is connected to: for an input the output that
    /// feeds it, for an output the inputs that it feeds.
    pub open spec fn connected(self) -> Seq<usize> {
        match self {
            Port::Input { upstream, .. } => match upstream {
                Some(output) => seq![output],
                None => Seq::empty(),
            },
            Port::Output { edge, .. } => match edge {
                Some(e) => e.inputs,
                None => Seq::empty(),
            },
        }
    }

    /// The port under another index.
    pub open spec fn at_index(self, index: usize) -> Port {
        match self {
            Port::Input { name, upstream, declared, .. } => Port::Input {
                index,
                name,
                upstream,
                declared,
            },
            Port::Output { name, edge, value, declared, .. } => Port::Output {
                index,
                name,
                edge,
                value,
                declared,
            },
        }
    }

    /// The port with nothing attached.
    pub open spec fn detached(self) -> Port {
        match self {
            Port::Input { index, name, declared, .. } => Port::Input {
                index,
                name,
                upstream: None,
                declared,
            },
            Port::Output { index, name, value, declared, .. } => Port::Output {
                index,
                name,
                edge: None,
                value,
                declared,
            },
        }
    }

    /// The input fed by `output`.
    pub open spec fn fed_by(self, output: usize) -> Port
        recommends
            self is Input,
    {
        Port::Input {
            index: self.index(),
            name: self.name(),
            upstream: Some(output),
            declared: self.declared(),
        }
    }

    /// The output with `edge` in place of its own.
    pub open spec fn with_edge(self, edge: Option<EdgeView>) -> Port
        recommends
            self is Output,
    {
        Port::Output {
            index: self.index(),
            name: self.name(),
            edge,
            value: self->value,
            declared: self.declared(),
        }
    }

    /// The output with `value` in place of its own.
    pub open spec fn with_value(self, value: Value) -> Port
        recommends
            self is Output,
    {
        Port::Output {
            index: self.index(),
            name: self.name(),
            edge: self->edge,
            value,
            declared: self.declared(),
        }
    }

    /// Whether the port is declared with a type that a connector can have, and
    /// its value, if it has one, is of that type.
    pub open spec fn typed(self) -> bool {
        &&& ConnectorTypeId::is_declarable(self.declared())
        &&& self is Output ==> type_of(self->value) == self.declared()
    }
}

/// The connector that `Connector::new` makes of its arguments: an input with
/// nothing attached, or an output with nothing attached that holds `value`
/// converted to its type; no connector where that conversion ends in work to do.
pub open spec fn created(
    index: usize,
    name: Seq<char>,
    value: Value,
    declared: i32,
    is_output: bool,
) -> Result<Port, Task> {
    if is_output {
        match converted(value, declared) {
            Ok(stored) => Ok(Port::Output { index, name, edge: None, value: stored, declared }),
            Err(task) => Err(task),
        }
    } else {
        Ok(Port::Input { index, name, upstream: None, declared })
    }
}

/// What an optional edge holds.
pub open spec fn edge_view(edge: Option<ConnectorEdge>) -> Option<EdgeView> {
    match edge {
        Some(e) => Some(e@),
        None => None,
    }
}

impl View for Connector {
    type V = Port;

    open spec fn view(&self) -> Port {
        match self {
            Connector::Input(info, upstream, declared) => Port::Input {
                index: info@.index,
                name: info@.name,
                upstream: *upstream,
                declared: *declared,
            },
            Connector::Output(info, edge, value, declared) => Port::Output {
                index: info@.index,
                name: info@.name,
                edge: edge_view(*edge),
                value: value@,
                declared: *declared,
            },
        }
    }
}

impl Clone for Connector {
    fn clone(&self) -> (copy: Connector)
        ensures
            copy@ == self@,
    {
        match self {
            Connector::Input(info, upstream, declared) => Connector::Input(
                info.clone(),
                *upstream,
                *declared,
            ),
            Connector::Output(info, edge, value, declared) => {
                let edge_copy: Option<ConnectorEdge> = match edge {
                    Some(e) => Some(e.clone()),
                    None => None,
                };
                Connector::Output(info.clone(), edge_copy, value.clone(), *declared)
            },
        }
    }
}

impl Connector {
    /// A connector with nothing attached. An input ignores `value`; an output
    /// holds `value` converted to its type, and there is no output where that
    /// conversion ends in work to do.
    pub fn new(
        index: usize,
        name: String,
        value: ConnectorType,
        connector_type: i32,
        is_output: bool,
    ) -> (outcome: Result<Connector, FloatTask>)
        requires
            ConnectorTypeId::is_declarable(connector_type),
        ensures
            match created(index, name@, value@, connector_type, is_output) {
                Ok(port) => outcome is Ok && outcome->Ok_0@ == port,
                Err(task) => outcome is Err && outcome->Err_0@ == task,
            },
            outcome is Ok ==> outcome->Ok_0@.typed(),
    {
        let info: ConnectorInfo = ConnectorInfo::new(index, name);
        if is_output {
            match value.get_variant(connector_type) {
                Ok(stored) => Ok(Connector::Output(info, None, stored, connector_type)),
                Err(task) => Err(task),
            }
        } else {
            Ok(Connector::Input(info, None, connector_type))
        }
    }

    pub fn is_input(&self) -> (input: bool)
        ensures
            input == (self@ is Input),
    {
        match self {
            Connector::Input(_, _, _) => true,
            Connector::Output(_, _, _, _) => false,
        }
    }

    pub fn is_output(&self) -> (output: bool)
        ensures
            output == (self@ is Output),
    {
        match self {
            Connector::Input(_, _, _) => false,
            Connector::Output(_, _, _, _) => true,
        }
    }

    pub fn set_index(&mut self, index: usize)
        ensures
            final(self)@ == old(self)@.at_index(index),
    {
        match self {
            Connector::Input(info, _, _) => info.index = index,
            Connector::Output(info, _, _, _) => info.index = index,
        }
    }

    pub fn get_index(&self) -> (index: usize)
        ensures
            index == self@.index(),
    {
        match self {
            Connector::Input(info, _, _) => info.index,
            Connector::Output(info, _, _, _) => info.index,
        }
    }

    /// The identifier of the connector's type.
    pub fn get_type(&self) -> (declared: i32)
        ensures
            declared == self@.declared(),
    {
        match self {
            Connector::Input(_, _, connector_type) => *connector_type,
            Connector::Output(_, _, _, connector_type) => *connector_type,
        }
    }

    pub fn get_name(&self) -> (name: String)
        ensures
            name@ == self@.name(),
    {
        match self {
            Connector::Input(info, _, _) => info.name.clone(),
            Connector::Output(info, _, _, _) => info.name.clone(),
        }
    }

    /// Whether the connector is attached: an input to an output, an output to
    /// an edge.
    pub fn has_edge(&self) -> (attached: bool)
        ensures
            attached == self@.has_edge(),
    {
        match self {
            Connector::Input(_, connected, _) => connected.is_some(),
            Connector::Output(_, edge, _, _) => edge.is_some(),
        }
    }

    /// The value of an output; an input has none of its own.
    pub fn get_value(&self) -> (value: ConnectorType)
        ensures
            value@ == match self@ {
                Port::Output { value, .. } => value,
                Port::Input { .. } => Value::Null,
            },
    {
        match self {
            Connector::Output(_, _, value, _) => value.clone(),
            _ => ConnectorType::Null(Null::new()),
        }
    }

    /// Gives an output the value `new_val`, converted to the output's type.
    /// Where that conversion ends in work to do, the output keeps its value.
    pub fn set_value(&mut self, new_val: ConnectorType) -> (outcome: Result<(), FloatTask>)
        requires
            old(self)@ is Output,
            ConnectorTypeId::is_known(old(self)@.declared()),
        ensures
            match converted(new_val@, old(self)@.declared()) {
                Ok(stored) => outcome is Ok && final(self)@ == old(self)@.with_value(stored),
                Err(task) => {
                    &&& outcome is Err
                    &&& outcome->Err_0@ == task
                    &&& final(self)@ == old(self)@
                },
            },
            old(self)@.typed() ==> final(self)@.typed(),
    {
        match self {
            Connector::Output(_, _, value, connector_type) => {
                match new_val.get_variant(*connector_type) {
                    Ok(stored) => {
                        *value = stored;
                        Ok(())
                    },
                    Err(task) => Err(task),
                }
            },
            _ => unreached(),
        }
    }

    /// The edge of an output, if it has one.
    pub fn get_edge(&self) -> (edge: Option<&ConnectorEdge>)
        requires
            self@ is Output,
        ensures
            match edge {
                Some(e) => self@->edge == Some(e@),
                None => self@->edge is None,
            },
    {
        match self {
            Connector::Output(_, edge, _, _) => edge.as_ref(),
            _ => unreached(),
        }
    }

    /// The edge of an output, if it has one, to be changed in place.
    pub fn get_edge_mut(&mut self) -> (edge: Option<&mut ConnectorEdge>)
        requires
            old(self)@ is Output,
        ensures
            match edge {
                Some(e) => old(self)@->edge == Some(e@) && final(self)@ == old(self)@.with_edge(
                    Some(final(e)@),
                ),
                None => old(self)@->edge is None && final(self)@ == old(self)@,
            },
    {
        match self {
            Connector::Output(_, edge, _, _) => edge.as_mut(),
            _ => unreached(),
        }
    }

    /// Detaches the connector: an input from the output that feeds it, an
    /// output from its edge.
    pub fn remove_edge(&mut self)
        ensures
            final(self)@ == old(self)@.detached(),
    {
        match self {
            Connector::Input(_, connected, _) => *connected = None,
            Connector::Output(_, edge, _, _) => *edge = None,
        }
    }

    /// Records `output` as the one output that feeds this input.
    pub fn connect_input(&mut self, output: &Connector)
        requires
            old(self)@ is Input,
        ensures
            final(self)@ == old(self)@.fed_by(output@.index()),
    {
        match self {
            Connector::Input(_, connected, _) => {
                *connected = Some(output.get_index());
            },
            _ => unreached(),
        }
    }

    /// Attaches `new_edge` to an output that has no edge.
    pub fn connect_output(&mut self, new_edge: ConnectorEdge)
        requires
            old(self)@ is Output,
            old(self)@->edge is None,
        ensures
            final(self)@ == old(self)@.with_edge(Some(new_edge@)),
    {
        match self {
            Connector::Output(_, edge, _, _) => {
                match edge {
                    None => {
                        *edge = Some(new_edge);
                    },
                    Some(_) => unreached(),
                }
            },
            _ => unreached(),
        }
    }

    /// Takes `input` out of the inputs of the output's edge. The edge stays,
    /// even with no input left.
    pub fn disconnect_from_edge(&mut self, input: usize)
        requires
            old(self)@ is Output,
        ensures
            final(self)@ == old(self)@.with_edge(
                match old(self)@->edge {
                    Some(e) => Some(
                        EdgeView { inputs: without(e.inputs, input), output: e.output },
                    ),
                    None => None,
                },
            ),
    {
        match self {
            Connector::Output(_, edge, _, _) => {
                match edge {
                    Some(e) => {
                        e.remove_input(input);
                    },
                    None => {},
                }
            },
            _ => unreached(),
        }
    }

    /// `connection` where the connector is connected to it first of all: an
    /// input to the output that feeds it, an output to the first input of its
    /// edge.
    pub fn get_connected_to(&self, connection: usize) -> (found: Option<usize>)
        requires
            self@ is Output && self@->edge is Some ==> self@.connected().len() > 0,
        ensures
            found == if self@.connected().len() > 0 && self@.connected()[0] == connection {
                Some(connection)
            } else {
                None
            },
    {
        match self {
            Connector::Input(_, connected, _) => {
                match connected {
                    Some(connected) => {
                        if *connected == connection {
                            Some(*connected)
                        } else {
                            None
                        }
                    },
                    None => None,
                }
            },
            Connector::Output(_, edge, _, _) => {
                match edge {
                    Some(edge) => {
                        let inputs: Vec<usize> = edge.get_input();
                        if inputs[0] == connection {
                            Some(inputs[0])
                        } else {
                            None
                        }
                    },
                    None => None,
                }
            },
        }
    }

    /// The indices that the connector is connected to: for an input the output
    /// that feeds it, for an output the inputs that it feeds.
    pub fn get_connected(&self) -> (connected: Vec<usize>)
        ensures
            connected@ == self@.connected(),
    {
        match self {
            Connector::Input(_, connected, _) => {
                let mut list: Vec<usize> = Vec::new();
                match connected {
                    Some(output) => {
                        list.push(*output);
                        assert(list@ =~= seq![*output]);
                    },
                    None => {},
                }
                list
            },
            Connector::Output(_, edge, _, _) => match edge {
                Some(edge) => edge.get_input(),
                None => Vec::new(),
            },
        }
    }
}

} // verus!
