//! The dispatcher of the emitted text: the transition table written out
//! as one `match` with an arm for each state and event.

use vstd::prelude::*;
use crate::text::Text;
use crate::fsm::{Action, ActionView, FsmDefinition, FsmView};
use crate::machine::{entry_of, exit_of};
use crate::fsm::state_index;
use crate::table::{EntryView, RowKind, RowView, TableEntry, TableRow};
use crate::codegen::{action_idents, action_names, idents};
use crate::codegen::names::{ident, lines, pascal_case, pascal_string, write_lines};
use crate::codegen::pieces::{
    arm_head_text, process_head_text, state_change_text, write_arm_head, write_process_head,
    write_state_change,
};

verus! {

/// The call of the guard method for the guard `g`.
pub open spec fn guard_call(g: Text) -> Text {
    "self.actions."@ + ident(g) + "()"@
}

/// The condition under which the first `n` guards hold.
pub open spec fn condition_prefix(guards: Seq<Text>, n: int) -> Text
    decreases n,
{
    if n <= 0 {
        Seq::empty()
    } else if n == 1 {
        guard_call(guards[0])
    } else {
        condition_prefix(guards, n - 1) + " && "@ + guard_call(guards[n - 1])
    }
}

/// The condition of a row: its guards joined by `&&`, or `true` where it
/// has none.
pub open spec fn condition(guards: Seq<Text>) -> Text {
    if guards.len() == 0 {
        "true"@
    } else {
        condition_prefix(guards, guards.len() as int)
    }
}

/// Writes the condition of a row.
pub fn write_condition(out: &mut String, guards: &Vec<String>)
    ensures
        final(out)@ == old(out)@ + condition(guards.deep_view()),
{
    let ghost start = out@;
    let ghost gs = guards.deep_view();
    if guards.len() == 0 {
        out.append("true");
        return ;
    }
    let mut i: usize = 0;
    assert(start + condition_prefix(gs, 0) =~= start);
    while i < guards.len()
        invariant
            i <= guards.len(),
            gs == guards.deep_view(),
            out@ == start + condition_prefix(gs, i as int),
        decreases guards.len() - i,
    {
        assert(gs[i as int] == guards[i as int]@);
        if i > 0 {
            out.append(" && ");
        }
        let id = crate::codegen::names::ident_string(guards[i].as_str());
        out.append("self.actions.");
        out.append(id.as_str());
        out.append("()");
        i += 1;
        assert(out@ =~= start + condition_prefix(gs, i as int));
    }
}

/// The calls of the methods for the actions, one on each line.
pub open spec fn calls(actions: Seq<ActionView>) -> Text {
    let ids = idents(action_names(actions, actions.len() as int), actions.len() as int);
    lines("                    self.actions."@, ids, "();\n"@, ids.len() as int)
}

/// Writes the calls of the methods for the actions.
pub fn write_calls(out: &mut String, actions: &Vec<Action>)
    ensures
        final(out)@ == old(out)@ + calls(actions.deep_view()),
{
    let ids = action_idents(actions);
    proof {
        crate::codegen::lemma_action_names_len(actions.deep_view(), actions.len() as int);
        lemma_idents_len(
            action_names(actions.deep_view(), actions.len() as int),
            actions.len() as int,
        );
    }
    write_lines(out, "                    self.actions.", &ids, "();\n");
}

/// There are as many identifiers as names.
pub proof fn lemma_idents_len(names: Seq<Text>, n: int)
    requires
        0 <= n,
    ensures
        idents(names, n).len() == n,
    decreases n,
{
    if n > 0 {
        lemma_idents_len(names, n - 1);
    }
}

/// What a row does when it fires. An internal row runs its actions. An
/// external row runs the exit actions of the state, its own actions,
/// changes the state, and runs the entry actions of the new state.
pub open spec fn row_body(p: Text, m: FsmView, state: Text, row: RowView) -> Text {
    match row.kind {
        RowKind::Internal => calls(row.actions),
        RowKind::External => calls(exit_of(m, state)) + calls(row.actions) + state_change_text(
            p,
            pascal_case(row.target),
        ) + calls(entry_of(m, row.target)),
    }
}

/// A row of the table as a conditional statement.
pub open spec fn row_text(p: Text, m: FsmView, state: Text, row: RowView) -> Text {
    "                if "@ + condition(row.guards) + " {\n"@ + row_body(p, m, state, row)
        + "                    return true;\n                }\n"@
}

/// The first `n` rows as conditional statements, in order.
pub open spec fn rows_text(p: Text, m: FsmView, state: Text, rows: Seq<RowView>, n: int) -> Text
    decreases n,
{
    if n <= 0 {
        Seq::empty()
    } else {
        rows_text(p, m, state, rows, n - 1) + row_text(p, m, state, rows[n - 1])
    }
}

/// An entry of the table as an arm of the dispatcher: its rows in order,
/// and `false` where none fires.
pub open spec fn arm_text(p: Text, m: FsmView, e: EntryView) -> Text {
    arm_head_text(p, pascal_case(e.state), pascal_case(e.event)) + rows_text(
        p,
        m,
        e.state,
        e.rows,
        e.rows.len() as int,
    ) + "                false\n            }\n"@
}

/// The first `n` entries of the table as arms.
pub open spec fn arms_text(p: Text, m: FsmView, table: Seq<EntryView>, n: int) -> Text
    decreases n,
{
    if n <= 0 {
        Seq::empty()
    } else {
        arms_text(p, m, table, n - 1) + arm_text(p, m, table[n - 1])
    }
}

/// The dispatch method: an arm for each entry of the table, and `false`
/// for every other state and event.
pub open spec fn process_text(p: Text, m: FsmView, table: Seq<EntryView>) -> Text {
    process_head_text(p) + arms_text(p, m, table, table.len() as int)
        + "            _ => false,\n        }\n    }\n"@
}

/// Writes the calls of the entry or exit actions of the state called
/// `state`.
fn write_state_calls(out: &mut String, fsm: &FsmDefinition, state: &String, entry: bool)
    ensures
        final(out)@ == old(out)@ + calls(
            if entry {
                entry_of(fsm@, state@)
            } else {
                exit_of(fsm@, state@)
            },
        ),
{
    let ghost start = out@;
    let i = state_index(fsm, state);
    if i < fsm.states.len() {
        assert(fsm@.states[i as int] == fsm.states[i as int]@);
        if entry {
            write_calls(out, &fsm.states[i].entry_actions);
        } else {
            write_calls(out, &fsm.states[i].exit_actions);
        }
    } else {
        let none: Vec<Action> = Vec::new();
        assert(none.deep_view() =~= Seq::<ActionView>::empty());
        write_calls(out, &none);
    }
}

/// Writes a row of the table.
pub fn write_row(out: &mut String, p: &str, fsm: &FsmDefinition, state: &String, row: &TableRow)
    ensures
        final(out)@ == old(out)@ + row_text(p@, fsm@, state@, row@),
{
    let ghost start = out@;
    out.append("                if ");
    write_condition(out, &row.guards);
    out.append(" {\n");
    let ghost head = out@;
    match row.kind {
        RowKind::Internal => {
            write_calls(out, &row.actions);
        },
        RowKind::External => {
            write_state_calls(out, fsm, state, false);
            write_calls(out, &row.actions);
            let target = pascal_string(row.target.as_str());
            write_state_change(out, p, target.as_str());
            write_state_calls(out, fsm, &row.target, true);
        },
    }
    assert(out@ =~= head + row_body(p@, fsm@, state@, row@));
    out.append("                    return true;\n                }\n");
    assert(out@ =~= start + row_text(p@, fsm@, state@, row@));
}

/// Writes an arm of the dispatcher.
pub fn write_arm(out: &mut String, p: &str, fsm: &FsmDefinition, entry: &TableEntry)
    ensures
        final(out)@ == old(out)@ + arm_text(p@, fsm@, entry@),
{
    let ghost start = out@;
    let ghost rows = entry@.rows;
    let state = pascal_string(entry.state.as_str());
    let event = pascal_string(entry.event.as_str());
    write_arm_head(out, p, state.as_str(), event.as_str());
    let ghost head = out@;
    let mut r: usize = 0;
    assert(head + rows_text(p@, fsm@, entry@.state, rows, 0) =~= head);
    while r < entry.rows.len()
        invariant
            r <= entry.rows.len(),
            rows == entry.rows.deep_view(),
            out@ == head + rows_text(p@, fsm@, entry@.state, rows, r as int),
        decreases entry.rows.len() - r,
    {
        assert(rows[r as int] == entry.rows[r as int]@);
        write_row(out, p, fsm, &entry.state, &entry.rows[r]);
        r += 1;
        assert(out@ =~= head + rows_text(p@, fsm@, entry@.state, rows, r as int));
    }
    out.append("                false\n            }\n");
    assert(out@ =~= start + arm_text(p@, fsm@, entry@));
}

/// Writes the dispatch method.
pub fn write_process(out: &mut String, p: &str, fsm: &FsmDefinition, table: &Vec<TableEntry>)
    ensures
        final(out)@ == old(out)@ + process_text(p@, fsm@, table.deep_view()),
{
    let ghost start = out@;
    let ghost tv = table.deep_view();
    write_process_head(out, p);
    let ghost head = out@;
    let mut k: usize = 0;
    assert(head + arms_text(p@, fsm@, tv, 0) =~= head);
    while k < table.len()
        invariant
            k <= table.len(),
            tv == table.deep_view(),
            out@ == head + arms_text(p@, fsm@, tv, k as int),
        decreases table.len() - k,
    {
        assert(tv[k as int] == table[k as int]@);
        write_arm(out, p, fsm, &table[k]);
        k += 1;
        assert(out@ =~= head + arms_text(p@, fsm@, tv, k as int));
    }
    out.append("            _ => false,\n        }\n    }\n");
    assert(out@ =~= start + process_text(p@, fsm@, tv));
}

} // verus!
