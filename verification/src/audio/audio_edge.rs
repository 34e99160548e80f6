use super::audio_node::AudioNode;
use super::frame::Frame;
use vstd::prelude::*;

verus! {

/// How an edge combines the content of its source into its target.
#[derive(Clone, Copy, Debug, PartialEq, Eq, Structural)]
pub enum Operation {
    /// The target gains the source.
    Add,
    /// The target loses the source.
    Subtract,
    /// The target is multiplied by the source, channel by channel.
    Multiply,
    /// The target becomes the midpoint of itself and the source.
    Crossfade,
    /// The target stays as it is.
    Bypass,
}

/// One frame of the target after `operation` has combined `parent` into it.
pub open spec fn combined<F: Frame>(operation: Operation, child: F, parent: F) -> F {
    match operation {
        Operation::Add => child.spec_add_amp(parent),
        Operation::Subtract => child.spec_sub_amp(parent),
        Operation::Multiply => child.spec_mul_amp(parent),
        Operation::Crossfade => child.spec_mid_amp(parent),
        Operation::Bypass => child,
    }
}

/// Combines one frame of the source into one frame of the target.
pub fn combine<F: Frame>(operation: Operation, child: F, parent: F) -> (frame: F)
    ensures
        frame == combined(operation, child, parent),
{
    match operation {
        Operation::Add => child.add_amp(parent),
        Operation::Subtract => child.sub_amp(parent),
        Operation::Multiply => child.mul_amp(parent),
        Operation::Crossfade => child.mid_amp(parent),
        Operation::Bypass => child,
    }
}

/// Something that stands for one of the operations an edge can carry.
pub trait AudioOperation {
    /// The operation this value stands for.
    spec fn kind(&self) -> Operation;

    fn operation(&self) -> (operation: Operation)
        ensures
            operation == self.kind(),
    ;

    /// Extends `child_node` to hold `parent_node`'s window and combines
    /// `parent_node`'s content into it over that window.
    fn apply<F: Frame>(&self, parent_node: &AudioNode<F>, child_node: &mut AudioNode<F>)
        requires
            old(child_node)@.wf(),
            parent_node@.wf(),
        ensures
            final(child_node)@ == old(child_node)@.normalized(parent_node@).mixed(
                self.kind(),
                parent_node@,
            ),
            final(child_node)@.wf(),
    {
        child_node.normalize_clip_bounds(parent_node);
        child_node.mix(self.operation(), parent_node);
    }
}

/// An operation under which the sum of two sources acts as the two sources
/// one after the other.
pub trait LinearOperation: AudioOperation {

}

/// An operation that is not linear.
pub trait NonLinearOperation: AudioOperation {

}

#[derive(Clone, Copy)]
pub struct AddOperation;

#[derive(Clone, Copy)]
pub struct SubtractOperation;

#[derive(Clone, Copy)]
pub struct MultiplyOperation;

#[derive(Clone, Copy)]
pub struct CrossfadeOperation;

#[derive(Clone, Copy)]
pub struct BypassOperation;

impl AudioOperation for AddOperation {
    open spec fn kind(&self) -> Operation {
        Operation::Add
    }

    fn operation(&self) -> (operation: Operation) {
        Operation::Add
    }
}

impl LinearOperation for AddOperation {

}

impl AudioOperation for SubtractOperation {
    open spec fn kind(&self) -> Operation {
        Operation::Subtract
    }

    fn operation(&self) -> (operation: Operation) {
        Operation::Subtract
    }
}

impl LinearOperation for SubtractOperation {

}

impl AudioOperation for MultiplyOperation {
    open spec fn kind(&self) -> Operation {
        Operation::Multiply
    }

    fn operation(&self) -> (operation: Operation) {
        Operation::Multiply
    }
}

impl NonLinearOperation for MultiplyOperation {

}

impl AudioOperation for CrossfadeOperation {
    open spec fn kind(&self) -> Operation {
        Operation::Crossfade
    }

    fn operation(&self) -> (operation: Operation) {
        Operation::Crossfade
    }
}

impl NonLinearOperation for CrossfadeOperation {

}

impl AudioOperation for BypassOperation {
    open spec fn kind(&self) -> Operation {
        Operation::Bypass
    }

    fn operation(&self) -> (operation: Operation) {
        Operation::Bypass
    }
}

impl LinearOperation for BypassOperation {

}

impl AudioOperation for Operation {
    open spec fn kind(&self) -> Operation {
        *self
    }

    fn operation(&self) -> (operation: Operation) {
        *self
    }
}

/// An edge of the graph: the operation it carries and a label for it.
pub struct AudioGraphEdge {
    pub operation: Operation,
    pub description: &'static str,
}

impl AudioGraphEdge {
    /// An edge that carries the operation `operation` stands for.
    pub fn new<O: AudioOperation>(operation: O, description: &'static str) -> (edge: Self)
        ensures
            edge.operation == operation.kind(),
            edge.description == description,
    {
        AudioGraphEdge { operation: operation.operation(), description }
    }

    /// Extends `child_node` to hold `parent_node`'s window and combines
    /// `parent_node`'s content into it over that window, by the operation of
    /// this edge.
    pub fn apply<F: Frame>(&self, parent_node: &AudioNode<F>, child_node: &mut AudioNode<F>)
        requires
            old(child_node)@.wf(),
            parent_node@.wf(),
        ensures
            final(child_node)@ == old(child_node)@.normalized(parent_node@).mixed(
                self.operation,
                parent_node@,
            ),
            final(child_node)@.wf(),
    {
        self.operation.apply(parent_node, child_node)
    }

    /// The label of the edge.
    pub fn describe(&self) -> (text: &'static str)
        ensures
            text == self.description,
    {
        self.description
    }
}

} // verus!
