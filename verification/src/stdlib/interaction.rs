//! The procedures that talk to the user.

use vstd::prelude::*;

use crate::ty::iface::{Param, Procedure};

verus! {

/// The signatures of the procedures of this module: `MsgBox(Prompt)`, a
/// function with one parameter, not optional, without type or default, and
/// no return type.
pub fn signatures() -> (procs: Vec<Procedure>)
    ensures
        procs@.len() == 1,
        procs@[0].name@ == seq!['M', 's', 'g', 'B', 'o', 'x'],
        procs@[0].params@.len() == 1,
        procs@[0].ret_ty is None,
        !procs@[0].params@[0].optional,
        procs@[0].params@[0].name@ == seq!['P', 'r', 'o', 'm', 'p', 't'],
        procs@[0].params@[0].ty is None,
        procs@[0].params@[0].default_val is None,
{
    proof {
        reveal_strlit("MsgBox");
        reveal_strlit("Prompt");
    }
    let prompt = Param { optional: false, name: "Prompt", ty: None, default_val: None };
    let msg_box = Procedure { name: "MsgBox", params: vec![prompt], ret_ty: None };
    assert(msg_box.name@ =~= seq!['M', 's', 'g', 'B', 'o', 'x']);
    assert(msg_box.params@[0].name@ =~= seq!['P', 'r', 'o', 'm', 'p', 't']);
    vec![msg_box]
}

} // verus!
