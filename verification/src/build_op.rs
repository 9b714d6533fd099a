//! Build synthesis: from the effective configuration of the build
//! operation and the initializers of all fields to the build operation.

use vstd::prelude::*;
use vstd::string::*;
use crate::field::{Initializer, InitializerView};
use crate::pattern::{select, shape_of, Receiver};
use crate::resolve::{EffectiveBuildConfig, EffectiveBuildConfigView};
use crate::text::{copy_opt_text, opt_text, views_of};

verus! {

/// The build operation of a builder. It evaluates the initializers in the
/// order of the fields and stops at the first field that has no value;
/// then it asks the validator, where there is one, and hands its failure
/// back as it is; then it assembles the record.
#[derive(Clone, Debug, PartialEq, Eq)]
pub struct BuildOp {
    pub name: String,
    /// The name of the record that is built.
    pub target: String,
    pub receiver: Receiver,
    /// One initializer for each field, in the order of the fields.
    pub initializers: Vec<Initializer>,
    /// The function that checks the builder before the record is assembled.
    pub validator: Option<String>,
}

/// Model of a [`BuildOp`].
pub struct BuildOpView {
    pub name: Seq<char>,
    pub target: Seq<char>,
    pub receiver: Receiver,
    pub initializers: Seq<InitializerView>,
    pub validator: Option<Seq<char>>,
}

impl View for BuildOp {
    type V = BuildOpView;

    open spec fn view(&self) -> BuildOpView {
        BuildOpView {
            name: self.name@,
            target: self.target@,
            receiver: self.receiver,
            initializers: views_of(self.initializers@),
            validator: opt_text(self.validator),
        }
    }
}

/// The view of an optional build operation.
pub open spec fn opt_build(o: Option<BuildOp>) -> Option<BuildOpView> {
    match o {
        Some(b) => Some(b@),
        None => None,
    }
}

/// The build operation of the record `target`: none where it is skipped.
pub open spec fn build_op_of(
    target: Seq<char>,
    c: EffectiveBuildConfigView,
    initializers: Seq<InitializerView>,
) -> Option<BuildOpView> {
    if c.enabled {
        Some(
            BuildOpView {
                name: c.name,
                target,
                receiver: shape_of(c.pattern).build_receiver,
                initializers,
                validator: c.validate,
            },
        )
    } else {
        None
    }
}

/// Synthesizes the build operation of the record `target` from the
/// initializers of its fields. Nothing is synthesized where the build
/// operation is skipped.
pub fn synthesize_build(target: &str, c: &EffectiveBuildConfig, initializers: Vec<Initializer>)
    -> (r: Option<BuildOp>)
    ensures
        opt_build(r) == build_op_of(target@, c@, views_of(initializers@)),
{
    if c.enabled {
        Some(
            BuildOp {
                name: c.name.clone(),
                target: String::from_str(target),
                receiver: select(c.pattern).build_receiver,
                initializers,
                validator: copy_opt_text(&c.validate),
            },
        )
    } else {
        None
    }
}

} // verus!
