//! What is written when the machines of a text are exported to a folder:
//! the name and the first lines of each file, the module file that names
//! them all, and a page that describes them.
//!
//! The functions here write texts. Putting them on disk is left to the
//! caller.

use vstd::prelude::*;
use crate::text::{Text, join_strings, join_text};
use crate::codegen::CodegenTarget;
use crate::editor::{snake_case, to_snake_case};

verus! {

/// The name of a target, as it is shown.
pub open spec fn target_text(target: CodegenTarget) -> Text {
    match target {
        CodegenTarget::Standard => "Standard"@,
        CodegenTarget::Embassy => "Embassy"@,
        CodegenTarget::Rtic => "Rtic"@,
    }
}

/// The name of a target, as it is shown.
pub fn target_name(target: CodegenTarget) -> (out: String)
    ensures
        out@ == target_text(target),
{
    match target {
        CodegenTarget::Standard => "Standard".to_owned(),
        CodegenTarget::Embassy => "Embassy".to_owned(),
        CodegenTarget::Rtic => "Rtic".to_owned(),
    }
}

/// The name of the file for the machine `name`.
pub open spec fn file_name_text(name: Text) -> Text {
    snake_case(name) + ".rs"@
}

/// The name of the file for the machine `name`: the name in snake case
/// with the ending `.rs`.
pub fn export_file_name(name: &str) -> (out: String)
    ensures
        out@ == file_name_text(name@),
{
    let mut out = to_snake_case(name);
    out.append(".rs");
    out
}

/// The first lines of the file for the machine `name`.
pub open spec fn file_header_text(name: Text, target: CodegenTarget) -> Text {
    "//! Auto-generated code for "@ + name
        + " FSM\n//! DO NOT EDIT - Generated by Oxidate\n//! Target: "@ + target_text(target)
        + "\n\n"@
}

/// The first lines of the file for the machine `name`.
pub fn export_file_header(name: &str, target: CodegenTarget) -> (out: String)
    ensures
        out@ == file_header_text(name@, target),
{
    let mut out = "//! Auto-generated code for ".to_owned();
    out.append(name);
    out.append(" FSM\n//! DO NOT EDIT - Generated by Oxidate\n//! Target: ");
    out.append(target_name(target).as_str());
    out.append("\n\n");
    out
}

/// One line for each of the first `n` machines: the name of the machine
/// in snake case between `before` and `after`.
pub open spec fn module_lines(before: Text, names: Seq<Text>, after: Text, n: int) -> Text
    decreases n,
{
    if n <= 0 {
        Seq::empty()
    } else {
        module_lines(before, names, after, n - 1) + before + snake_case(names[n - 1]) + after
    }
}

/// Writes one line for each machine.
fn write_module_lines(out: &mut String, before: &str, names: &Vec<String>, after: &str)
    ensures
        final(out)@ == old(out)@ + module_lines(
            before@,
            names.deep_view(),
            after@,
            names.len() as int,
        ),
{
    let ghost start = out@;
    let mut i: usize = 0;
    assert(start + module_lines(before@, names.deep_view(), after@, 0) =~= start);
    while i < names.len()
        invariant
            i <= names.len(),
            out@ == start + module_lines(before@, names.deep_view(), after@, i as int),
        decreases names.len() - i,
    {
        assert(names.deep_view()[i as int] == names[i as int]@);
        out.append(before);
        out.append(to_snake_case(names[i].as_str()).as_str());
        out.append(after);
        i += 1;
        assert(out@ =~= start + module_lines(before@, names.deep_view(), after@, i as int));
    }
}

/// The module file for the machines `names`.
pub open spec fn mod_text(names: Seq<Text>) -> Text {
    "//! Auto-generated FSM code\n//! DO NOT EDIT - Generated by Oxidate\n\n"@ + module_lines(
        "pub mod "@,
        names,
        ";\n"@,
        names.len() as int,
    ) + "\n// Re-exports\n"@ + module_lines("pub use "@, names, "::*;\n"@, names.len() as int)
}

/// The module file that declares a module for each machine and exports
/// what each of them holds.
pub fn export_mod_content(names: &Vec<String>) -> (out: String)
    ensures
        out@ == mod_text(names.deep_view()),
{
    let mut out = "//! Auto-generated FSM code\n//! DO NOT EDIT - Generated by Oxidate\n\n".to_owned();
    write_module_lines(&mut out, "pub mod ", names, ";\n");
    out.append("\n// Re-exports\n");
    write_module_lines(&mut out, "pub use ", names, "::*;\n");
    assert(out@ =~= mod_text(names.deep_view()));
    out
}

/// The first `n` entries of the list of files.
pub open spec fn file_entries(names: Seq<Text>, n: int) -> Seq<Text>
    decreases n,
{
    if n <= 0 {
        Seq::empty()
    } else {
        file_entries(names, n - 1).push(
            "- `"@ + snake_case(names[n - 1]) + ".rs` - "@ + names[n - 1] + " state machine"@,
        )
    }
}

/// The page that describes the exported files.
pub open spec fn readme_text(names: Seq<Text>, target: CodegenTarget) -> Text {
    "# Auto-generated FSM Code\n\nGenerated by Oxidate FSM Visualizer\n\n## Files\n\n- `mod.rs` - Module declarations\n"@
        + join_text(file_entries(names, names.len() as int), "\n"@)
        + "\n\n## Usage\n\nAdd to your `lib.rs` or `main.rs`:\n\n```rust\nmod autogen;\nuse autogen::*;\n```\n\n## Target: "@
        + target_text(target) + "\n"@
}

/// The page that describes the exported files: which there are, how to
/// use them, and for which target they were written.
pub fn export_readme(names: &Vec<String>, target: CodegenTarget) -> (out: String)
    ensures
        out@ == readme_text(names.deep_view(), target),
{
    let mut entries: Vec<String> = Vec::new();
    assert(entries.deep_view() =~= Seq::<Text>::empty());
    let mut i: usize = 0;
    while i < names.len()
        invariant
            i <= names.len(),
            entries.deep_view() == file_entries(names.deep_view(), i as int),
        decreases names.len() - i,
    {
        assert(names.deep_view()[i as int] == names[i as int]@);
        let ghost before = entries.deep_view();
        let mut entry = "- `".to_owned();
        entry.append(to_snake_case(names[i].as_str()).as_str());
        entry.append(".rs` - ");
        entry.append(names[i].as_str());
        entry.append(" state machine");
        entries.push(entry);
        assert(entries.deep_view() =~= before.push(
            "- `"@ + snake_case(names[i as int]@) + ".rs` - "@ + names[i as int]@
                + " state machine"@,
        ));
        i += 1;
    }
    let mut out = "# Auto-generated FSM Code\n\nGenerated by Oxidate FSM Visualizer\n\n## Files\n\n- `mod.rs` - Module declarations\n".to_owned();
    out.append(join_strings(&entries, "\n").as_str());
    out.append("\n\n## Usage\n\nAdd to your `lib.rs` or `main.rs`:\n\n```rust\nmod autogen;\nuse autogen::*;\n```\n\n## Target: ");
    out.append(target_name(target).as_str());
    out.append("\n");
    assert(out@ =~= readme_text(names.deep_view(), target));
    out
}

} // verus!
