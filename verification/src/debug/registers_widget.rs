use vstd::prelude::*;

use crate::debug::instrumentation::{get_registers, register_text};
use crate::gameboy::debug::{lookup, Registers};
use crate::gameboy::messages::{padded, row_text};
use crate::gameboy::instruction_set::Machine;
use crate::gameboy::Gameboy;

verus! {

/// The registers a widget lists, in order.
pub open spec fn register_order() -> Seq<Seq<char>> {
    seq![
        "A"@, "F"@, "AF"@, "B"@, "C"@, "BC"@, "D"@, "E"@, "DE"@, "H"@, "L"@, "HL"@, "PC"@, "SP"@,
    ]
}

/// The text of a register's value in a snapshot, or `Invalid register`
/// where the snapshot has no such register.
pub open spec fn shown_value(registers: Seq<(String, String)>, name: Seq<char>) -> Seq<char> {
    match lookup(registers, name) {
        Some(text) => text,
        None => "Invalid register"@,
    }
}

/// A row of the widget: the name padded to eight characters, ` : ` and the
/// value.
pub open spec fn row(name: Seq<char>, value: Seq<char>) -> Seq<char> {
    padded(name, 8) + " : "@ + value
}

/// A view of the registers of a Game Boy, for display.
pub struct RegistersWidget<'a> {
    gb: &'a Gameboy,
}

impl<'a> RegistersWidget<'a> {
    /// The machine the widget shows.
    pub closed spec fn shown(&self) -> Machine {
        self.gb@
    }

    /// A widget showing the registers of `gb`.
    pub fn new(gb: &'a Gameboy) -> (w: RegistersWidget<'a>)
        ensures
            w.shown() == gb@,
    {
        RegistersWidget { gb }
    }

    /// The lines the widget prints: a rule, a heading row, a rule, then one
    /// row for each register of `register_order` with its value in
    /// hexadecimal.
    pub fn print(&self) -> (output: Vec<String>)
        ensures
            output@.len() == 3 + register_order().len(),
            output@[0]@ == "----------------"@,
            output@[1]@ == row("Register"@, "Value"@),
            output@[2]@ == "----------------"@,
            forall|i: int|
                0 <= i < register_order().len() ==> #[trigger] output@[i + 3]@ == row(
                    register_order()[i],
                    register_text(self.shown(), register_order()[i]),
                ),
    {
        let registers = get_registers(self.gb);
        let output = register_rows(&registers);
        proof {
            assert forall|i: int| 0 <= i < register_order().len() implies #[trigger] output@[i + 3]@
                == row(register_order()[i], register_text(self.shown(), register_order()[i])) by {
                assert(lookup(registers.entries(), register_order()[i]) == Some(
                    register_text(self.gb@, register_order()[i]),
                ));
            }
        }
        output
    }
}

/// The lines a registers widget prints for a snapshot of the registers: a
/// rule, a heading row, a rule, then one row for each register of
/// `register_order`, with its value as the snapshot gives it.
pub fn register_rows(registers: &Registers) -> (output: Vec<String>)
    ensures
        output@.len() == 3 + register_order().len(),
        output@[0]@ == "----------------"@,
        output@[1]@ == row("Register"@, "Value"@),
        output@[2]@ == "----------------"@,
        forall|i: int|
            0 <= i < register_order().len() ==> #[trigger] output@[i + 3]@ == row(
                register_order()[i],
                shown_value(registers.entries(), register_order()[i]),
            ),
{
    let names: Vec<&str> = vec![
        "A", "F", "AF", "B", "C", "BC", "D", "E", "DE", "H", "L", "HL", "PC", "SP",
    ];
    proof {
        assert(names@.map_values(|s: &str| s@) =~= register_order());
    }
    let mut output: Vec<String> = Vec::new();
    output.push(String::from_str("----------------"));
    output.push(row_text("Register", "Value"));
    output.push(String::from_str("----------------"));
    let mut i: usize = 0;
    while i < names.len()
        invariant
            i <= names@.len(),
            names@.len() == register_order().len(),
            forall|k: int| 0 <= k < names@.len() ==> names@[k]@ == register_order()[k],
            output@.len() == 3 + i,
            output@[0]@ == "----------------"@,
            output@[1]@ == row("Register"@, "Value"@),
            output@[2]@ == "----------------"@,
            forall|k: int|
                0 <= k < i ==> #[trigger] output@[k + 3]@ == row(
                    register_order()[k],
                    shown_value(registers.entries(), register_order()[k]),
                ),
        decreases names@.len() - i,
    {
        let name = names[i];
        let value = registers.get_register_val(&String::from_str(name));
        output.push(row_text(name, value.as_str()));
        i = i + 1;
    }
    output
}

} // verus!
