//! Which program a start is meant for.

use vstd::prelude::*;

use crate::text::same_text;

verus! {

/// Where the graphical program is installed.
pub const GUI_PROGRAM: &'static str = "/usr/share/rustdesk/rustdesk";

/// Whether an argument asks for the graphical program.
pub open spec fn is_gui_arg(arg: Seq<char>) -> bool {
    arg == "--cm"@ || arg == "--install"@ || arg == "--noinstall"@
}

/// Whether a start is meant for the graphical program: one of the arguments, the name of the
/// program among them, asks for it, or there is nothing but that name.
pub open spec fn wants_gui_program(args: Seq<String>) -> bool {
    args.len() <= 1 || exists|i: int| 0 <= i < args.len() && is_gui_arg((#[trigger] args[i])@)
}

/// Whether a start is meant for the graphical program.
pub fn wants_gui(args: &Vec<String>) -> (r: bool)
    ensures
        r == wants_gui_program(args@),
{
    if args.len() <= 1 {
        return true;
    }
    let mut i: usize = 0;
    while i < args.len()
        invariant
            i <= args@.len(),
            forall|k: int| 0 <= k < i ==> !is_gui_arg((#[trigger] args@[k])@),
        decreases args.len() - i,
    {
        let a = args[i].as_str();
        if same_text(a, "--cm") || same_text(a, "--install") || same_text(a, "--noinstall") {
            return true;
        }
        i += 1;
    }
    false
}

/// The exit code after the graphical program ran: its own, or zero where it has none. The outer
/// `None` stands for a program that could not be run.
pub fn exit_code(status: Option<Option<i32>>) -> (r: i32)
    ensures
        r == (match status {
            Some(Some(code)) => code,
            _ => 0i32,
        }),
{
    match status {
        Some(Some(code)) => code,
        _ => 0,
    }
}

/// A start with more than the name of the program is meant for the graphical program if and only if
/// one of the three arguments that ask for it is among the arguments.
pub proof fn law_arguments_ask_for_the_gui(args: Seq<String>)
    ensures
        args.len() <= 1 ==> wants_gui_program(args),
        args.len() > 1 ==> (wants_gui_program(args) <==> exists|i: int|
            0 <= i < args.len() && ((#[trigger] args[i])@ == "--cm"@ || args[i]@ == "--install"@
                || args[i]@ == "--noinstall"@)),
{
}

} // verus!
