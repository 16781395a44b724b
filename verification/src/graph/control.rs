//! Control flow node types.

use vstd::prelude::*;

use crate::graph::link::Link;

verus! {

/// Value types for function signatures.
#[derive(Clone, Copy, Debug, PartialEq, Eq, Structural)]
pub enum ValueType {
    /// A 32-bit integer.
    I32,
    /// A 64-bit integer.
    I64,
    /// A 32-bit float.
    F32,
    /// A 64-bit float.
    F64,
    /// A reference.
    Reference,
}

/// A function type with argument and result types.
#[derive(Debug)]
pub struct FunctionType {
    /// The argument types.
    pub arguments: Vec<ValueType>,
    /// The result types.
    pub results: Vec<ValueType>,
}

/// An exported symbol.
#[derive(Debug)]
pub struct Export {
    /// The export name.
    pub identifier: String,
    /// The exported value link.
    pub reference: Link,
}

/// A lambda (function) input node.
#[derive(Debug)]
pub struct LambdaIn {
    /// The paired output node.
    pub output: u32,
    /// The type of the operation.
    pub kind: Box<FunctionType>,
    /// The closure dependencies.
    pub dependencies: Vec<Link>,
    /// The structural function type key, if any.
    pub key: Option<String>,
}

/// A lambda (function) output node.
#[derive(Debug)]
pub struct LambdaOut {
    /// The paired input node.
    pub input: u32,
    /// The result links.
    pub results: Vec<Link>,
}

/// A region (scope) input node.
#[derive(Clone, Copy, Debug, PartialEq, Eq, Structural)]
pub struct RegionIn {
    /// The paired input node.
    pub input: u32,
    /// The paired output node.
    pub output: u32,
}

/// A region (scope) output node.
#[derive(Debug)]
pub struct RegionOut {
    /// The paired input node.
    pub input: u32,
    /// The paired output node.
    pub output: u32,
    /// The result links.
    pub results: Vec<Link>,
}

/// A gamma (conditional) input node.
#[derive(Debug)]
pub struct GammaIn {
    /// The paired output node.
    pub output: u32,
    /// The argument links.
    pub arguments: Vec<Link>,
    /// The condition link.
    pub condition: Link,
}

/// A gamma (conditional) output node.
#[derive(Debug)]
pub struct GammaOut {
    /// The paired input node.
    pub input: u32,
    /// The region output nodes for each branch.
    pub regions: Vec<u32>,
}

/// A theta (loop) input node.
#[derive(Debug)]
pub struct ThetaIn {
    /// The paired output node.
    pub output: u32,
    /// The argument links.
    pub arguments: Vec<Link>,
}

/// A theta (loop) output node.
#[derive(Debug)]
pub struct ThetaOut {
    /// The paired input node.
    pub input: u32,
    /// The result links.
    pub results: Vec<Link>,
    /// The loop continuation condition.
    pub condition: Link,
}

/// An external import node.
#[derive(Debug)]
pub struct Import {
    /// The environment link.
    pub environment: Link,
    /// The import namespace.
    pub namespace: String,
    /// The import name.
    pub identifier: String,
}

/// An omega (program) input node.
#[derive(Clone, Copy, Debug, PartialEq, Eq, Structural)]
pub struct OmegaIn {
    /// The paired output node.
    pub output: u32,
}

/// An omega (program) output node.
#[derive(Debug)]
pub struct OmegaOut {
    /// The paired input node.
    pub input: u32,
    /// The final state link.
    pub state: Link,
    /// The exported symbols.
    pub exports: Vec<Export>,
}

} // verus!
