//! The commands of the debugger that the machine itself answers.
use crate::text::{decimal, push_decimal};
use crate::value::{value_text, Value};
use vstd::prelude::*;
use vstd::string::*;

verus! {

/// One line of the listing of the stack: the index of the value, a colon,
/// and the value.
pub open spec fn stack_line(index: nat, value: Value) -> Seq<char> {
    decimal(index) + ": "@ + value_text(value)
}

/// The command that lists the values on the stack.
pub struct StackCommand {}

impl StackCommand {
    pub fn new() -> (c: Self) {
        StackCommand {  }
    }

    /// The word that calls the command.
    pub fn name(&self) -> (n: &'static str)
        ensures
            n@ == "stack"@,
    {
        "stack"
    }

    /// What the command is for.
    pub fn description(&self) -> (d: &'static str)
        ensures
            d@ == "Commands for operating stack."@,
    {
        "Commands for operating stack."
    }

    /// The listing of the stack: one line for each value, the lowest
    /// first, each with its index.
    pub fn run(&self, stack_values: &Vec<Value>) -> (lines: Vec<String>)
        ensures
            lines@.len() == stack_values@.len(),
            forall|i: int|
                0 <= i < lines@.len() ==> (#[trigger] lines@[i])@ == stack_line(
                    i as nat,
                    stack_values@[i],
                ),
    {
        let mut lines: Vec<String> = Vec::new();
        let mut index: usize = 0;
        while index < stack_values.len()
            invariant
                index <= stack_values@.len(),
                lines@.len() == index,
                forall|i: int|
                    0 <= i < lines@.len() ==> (#[trigger] lines@[i])@ == stack_line(
                        i as nat,
                        stack_values@[i],
                    ),
            decreases stack_values@.len() - index,
        {
            let mut line = String::new();
            push_decimal(&mut line, index as u64);
            line.append(": ");
            stack_values[index].push_text(&mut line);
            assert(line@ =~= stack_line(index as nat, stack_values@[index as int]));
            lines.push(line);
            index += 1;
        }
        lines
    }
}

} // verus!
