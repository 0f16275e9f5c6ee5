//! The tree of corpus tests that a test file parses into.

use vstd::prelude::*;

verus! {

/// What a corpus example expects of the parse of its input.
#[derive(Clone, Copy, Debug, PartialEq, Eq, Structural)]
pub enum TestExpectation {
    /// The input parses to the expected tree.
    Pass,
    /// The input is expected to produce a parse error.
    Error,
}

/// The attributes written in an example's header.
pub struct TestAttributes {
    /// The languages the example is meant for; empty means any.
    pub languages: Vec<Box<str>>,
    pub expectation: TestExpectation,
}

/// A node of a corpus file: a group of entries or a single example.
pub enum TestEntry {
    Group {
        name: String,
        children: Vec<TestEntry>,
    },
    Example {
        name: String,
        input: Vec<u8>,
        output: String,
        has_fields: bool,
        attributes: TestAttributes,
    },
}

/// An example that stands on its own, with its fully qualified name.
pub struct FlattenedTest {
    pub name: String,
    pub input: Vec<u8>,
    pub output: String,
    pub languages: Vec<Box<str>>,
    pub expectation: TestExpectation,
    pub has_fields: bool,
    pub template_delimiters: Option<(&'static str, &'static str)>,
}

} // verus!
