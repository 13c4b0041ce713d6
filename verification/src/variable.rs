use vstd::prelude::*;

verus! {

/// A jump out of a loop body.
#[derive(Debug, Clone, Copy, PartialEq, Eq, Hash, Structural)]
pub enum ControlFlowType {
    Break,
    Continue,
}

/// A chain of struct field accesses, such as `foo.bar.baz`. The first entry
/// names the variable that holds the struct.
#[derive(Debug, Clone, PartialEq, Eq, Hash)]
pub struct StructFieldReference {
    /// The names of the fields referenced, outermost first.
    pub field_stack: Vec<String>,
}

impl Default for StructFieldReference {
    fn default() -> (r: Self)
        ensures
            r.field_stack@.len() == 0,
    {
        Self::new()
    }
}

impl StructFieldReference {
    /// A reference of one entry.
    pub fn from_single_entry(field_name: String) -> (r: Self)
        ensures
            r.field_stack@ == seq![field_name],
    {
        let mut field_stack: Vec<String> = Vec::new();
        field_stack.push(field_name);
        Self { field_stack }
    }

    /// A reference of the given entries.
    pub fn from_stack(field_stack: Vec<String>) -> (r: Self)
        ensures
            r.field_stack == field_stack,
    {
        Self { field_stack }
    }

    /// An empty reference.
    pub fn new() -> (r: Self)
        ensures
            r.field_stack@.len() == 0,
    {
        Self { field_stack: Vec::with_capacity(1) }
    }
}

} // verus!
