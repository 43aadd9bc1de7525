//! Help-text rendering: the usage banner, where the manifest was loaded
//! from, and the table of available commands sorted by command name.

use vstd::prelude::*;

use crate::chars::{append_chars, chars_to_string, str_to_chars, subrange_chars};
use crate::config::{ConfigView, Configuration, ToolView};

verus! {

/// The tool's presented name.
pub const NAME: &'static str = "tool-tool";

/// The tool's presented version.
pub const VERSION: &'static str = "0.1.0";

/// Where the project's documentation lives.
pub const HOMEPAGE: &'static str = "https://example.invalid/tool-tool";

/// Lexicographic order on character sequences by code point, the order the
/// command table is sorted in.
pub open spec fn spec_lex_le(a: Seq<char>, b: Seq<char>) -> bool
    decreases a.len(),
{
    if a.len() == 0 {
        true
    } else if b.len() == 0 {
        false
    } else if a[0] != b[0] {
        (a[0] as u32) < (b[0] as u32)
    } else {
        spec_lex_le(a.drop_first(), b.drop_first())
    }
}

/// Whether `a` sorts at or before `b`.
fn lex_le(a: &Vec<char>, b: &Vec<char>) -> (r: bool)
    ensures
        r == spec_lex_le(a@, b@),
    decreases a@.len(),
{
    if a.len() == 0 {
        true
    } else if b.len() == 0 {
        false
    } else if a[0] != b[0] {
        (a[0] as u32) < (b[0] as u32)
    } else {
        let ar = subrange_chars(a, 1, a.len());
        let br = subrange_chars(b, 1, b.len());
        proof {
            assert(ar@ =~= a@.drop_first());
            assert(br@ =~= b@.drop_first());
        }
        lex_le(&ar, &br)
    }
}

/// `row` placed into already-sorted `rows`, before any row of equal name.
pub open spec fn spec_insert_row(
    row: (Seq<char>, Seq<char>),
    rows: Seq<(Seq<char>, Seq<char>)>,
) -> Seq<(Seq<char>, Seq<char>)>
    decreases rows.len(),
{
    if rows.len() == 0 {
        seq![row]
    } else if spec_lex_le(row.0, rows[0].0) {
        seq![row] + rows
    } else {
        seq![rows[0]] + spec_insert_row(row, rows.drop_first())
    }
}

/// The rows sorted by command name; rows with equal names keep their
/// order.
pub open spec fn spec_sort_rows(rows: Seq<(Seq<char>, Seq<char>)>) -> Seq<(Seq<char>, Seq<char>)>
    decreases rows.len(),
{
    if rows.len() == 0 {
        Seq::empty()
    } else {
        spec_insert_row(rows[0], spec_sort_rows(rows.drop_first()))
    }
}

fn insert_row(row: (String, String), rows: Vec<(String, String)>) -> (r: Vec<(String, String)>)
    ensures
        r.deep_view() == spec_insert_row((row.0@, row.1@), rows.deep_view()),
    decreases rows@.len(),
{
    let ghost dv = rows.deep_view();
    let ghost rv = (row.0@, row.1@);
    if rows.len() == 0 {
        let mut r: Vec<(String, String)> = Vec::new();
        r.push(row);
        proof {
            assert(r.deep_view().len() == 1);
            assert(r.deep_view()[0] == rv);
            assert(r.deep_view() =~= seq![rv]);
        }
        return r;
    }
    proof {
        assert(dv[0] == rows@[0].deep_view());
        assert(dv.drop_first() =~= rows.deep_view().skip(1));
    }
    let rc = str_to_chars(row.0.as_str());
    let hc = str_to_chars(rows[0].0.as_str());
    if lex_le(&rc, &hc) {
        let mut r: Vec<(String, String)> = Vec::new();
        r.push(row);
        let ghost head_dv = r.deep_view();
        let mut rest = rows;
        let ghost rest_dv = rest.deep_view();
        r.append(&mut rest);
        proof {
            assert(head_dv.len() == 1);
            assert(head_dv[0] == rv);
            assert(head_dv =~= seq![rv]);
            assert(r.deep_view() =~= head_dv + rest_dv);
        }
        r
    } else {
        let mut rest = rows;
        let head = rest.remove(0);
        proof {
            assert(rest.deep_view() =~= dv.drop_first());
        }
        let ghost headv = (head.0@, head.1@);
        proof {
            assert(headv == dv[0]);
        }
        let tail = insert_row(row, rest);
        let mut r: Vec<(String, String)> = Vec::new();
        r.push(head);
        let ghost head_dv = r.deep_view();
        let mut tail2 = tail;
        let ghost tail_dv = tail2.deep_view();
        r.append(&mut tail2);
        proof {
            assert(head_dv.len() == 1);
            assert(head_dv[0] == headv);
            assert(head_dv =~= seq![dv[0]]);
            assert(r.deep_view() =~= head_dv + tail_dv);
        }
        r
    }
}

fn sort_rows(rows: Vec<(String, String)>) -> (r: Vec<(String, String)>)
    ensures
        r.deep_view() == spec_sort_rows(rows.deep_view()),
    decreases rows@.len(),
{
    let ghost dv = rows.deep_view();
    if rows.len() == 0 {
        let r: Vec<(String, String)> = Vec::new();
        proof {
            assert(r.deep_view() =~= Seq::<(Seq<char>, Seq<char>)>::empty());
        }
        return r;
    }
    proof {
        assert(dv[0] == rows@[0].deep_view());
    }
    let mut rest = rows;
    let head = rest.remove(0);
    proof {
        assert(rest.deep_view() =~= dv.drop_first());
    }
    let sorted = sort_rows(rest);
    insert_row(head, sorted)
}

/// The rows are pairwise ordered by command name.
pub open spec fn rows_sorted(rows: Seq<(Seq<char>, Seq<char>)>) -> bool {
    forall|i: int, j: int|
        0 <= i < j < rows.len() ==> spec_lex_le(#[trigger] rows[i].0, #[trigger] rows[j].0)
}

/// Of any two names, one sorts at or before the other.
proof fn lemma_lex_le_total(a: Seq<char>, b: Seq<char>)
    ensures
        spec_lex_le(a, b) || spec_lex_le(b, a),
    decreases a.len(),
{
    if a.len() == 0 {
    } else if b.len() == 0 {
    } else if a[0] != b[0] {
        vstd::utf8::char_u32_cast(a[0], a[0] as u32);
        vstd::utf8::char_u32_cast(b[0], b[0] as u32);
        assert((a[0] as u32) != (b[0] as u32));
    } else {
        lemma_lex_le_total(a.drop_first(), b.drop_first());
    }
}

/// The order is transitive.
proof fn lemma_lex_le_trans(a: Seq<char>, b: Seq<char>, c: Seq<char>)
    requires
        spec_lex_le(a, b),
        spec_lex_le(b, c),
    ensures
        spec_lex_le(a, c),
    decreases a.len(),
{
    if a.len() == 0 {
    } else if b.len() == 0 {
    } else if c.len() == 0 {
    } else if a[0] != b[0] {
        assert((a[0] as u32) < (b[0] as u32));
        if b[0] != c[0] {
            assert((b[0] as u32) < (c[0] as u32));
        }
    } else if b[0] != c[0] {
        assert((b[0] as u32) < (c[0] as u32));
    } else {
        lemma_lex_le_trans(a.drop_first(), b.drop_first(), c.drop_first());
    }
}

/// Inserting keeps any lower bound on the names.
proof fn lemma_insert_row_lower_bound(
    bound: Seq<char>,
    row: (Seq<char>, Seq<char>),
    rows: Seq<(Seq<char>, Seq<char>)>,
)
    requires
        spec_lex_le(bound, row.0),
        forall|j: int| 0 <= j < rows.len() ==> spec_lex_le(bound, (#[trigger] rows[j]).0),
    ensures
        forall|k: int|
            0 <= k < spec_insert_row(row, rows).len() ==> spec_lex_le(
                bound,
                (#[trigger] spec_insert_row(row, rows)[k]).0,
            ),
    decreases rows.len(),
{
    if rows.len() == 0 {
    } else if spec_lex_le(row.0, rows[0].0) {
    } else {
        assert forall|j: int|
            0 <= j < rows.drop_first().len() implies spec_lex_le(
            bound,
            (#[trigger] rows.drop_first()[j]).0,
        ) by {
            assert(rows.drop_first()[j] == rows[j + 1]);
        }
        lemma_insert_row_lower_bound(bound, row, rows.drop_first());
        assert forall|k: int|
            0 <= k < spec_insert_row(row, rows).len() implies spec_lex_le(
            bound,
            (#[trigger] spec_insert_row(row, rows)[k]).0,
        ) by {
            if k == 0 {
                assert(spec_insert_row(row, rows)[0] == rows[0]);
            } else {
                assert(spec_insert_row(row, rows)[k] == spec_insert_row(row, rows.drop_first())[k
                    - 1]);
            }
        }
    }
}

/// Inserting into a sorted row list keeps it sorted.
proof fn lemma_insert_row_sorted(row: (Seq<char>, Seq<char>), rows: Seq<(Seq<char>, Seq<char>)>)
    requires
        rows_sorted(rows),
    ensures
        rows_sorted(spec_insert_row(row, rows)),
    decreases rows.len(),
{
    if rows.len() == 0 {
    } else if spec_lex_le(row.0, rows[0].0) {
        let out = seq![row] + rows;
        assert forall|i: int, j: int| 0 <= i < j < out.len() implies spec_lex_le(
            (#[trigger] out[i]).0,
            (#[trigger] out[j]).0,
        ) by {
            if i == 0 {
                assert(out[j] == rows[j - 1]);
                if j > 1 {
                    lemma_lex_le_trans(row.0, rows[0].0, rows[j - 1].0);
                }
            } else {
                assert(out[i] == rows[i - 1]);
                assert(out[j] == rows[j - 1]);
            }
        }
    } else {
        lemma_lex_le_total(row.0, rows[0].0);
        assert(spec_lex_le(rows[0].0, row.0));
        assert forall|i: int, j: int|
            0 <= i < j < rows.drop_first().len() implies spec_lex_le(
            (#[trigger] rows.drop_first()[i]).0,
            (#[trigger] rows.drop_first()[j]).0,
        ) by {
            assert(rows.drop_first()[i] == rows[i + 1]);
            assert(rows.drop_first()[j] == rows[j + 1]);
        }
        lemma_insert_row_sorted(row, rows.drop_first());
        assert forall|j: int|
            0 <= j < rows.drop_first().len() implies spec_lex_le(
            rows[0].0,
            (#[trigger] rows.drop_first()[j]).0,
        ) by {
            assert(rows.drop_first()[j] == rows[j + 1]);
        }
        lemma_insert_row_lower_bound(rows[0].0, row, rows.drop_first());
        let tail = spec_insert_row(row, rows.drop_first());
        let out = seq![rows[0]] + tail;
        assert forall|i: int, j: int| 0 <= i < j < out.len() implies spec_lex_le(
            (#[trigger] out[i]).0,
            (#[trigger] out[j]).0,
        ) by {
            if i == 0 {
                assert(out[j] == tail[j - 1]);
            } else {
                assert(out[i] == tail[i - 1]);
                assert(out[j] == tail[j - 1]);
            }
        }
    }
}

/// The command table lists its rows in lexicographic order of command name.
pub proof fn lemma_sort_rows_sorted(rows: Seq<(Seq<char>, Seq<char>)>)
    ensures
        rows_sorted(spec_sort_rows(rows)),
    decreases rows.len(),
{
    if rows.len() == 0 {
    } else {
        lemma_sort_rows_sorted(rows.drop_first());
        lemma_insert_row_sorted(rows[0], spec_sort_rows(rows.drop_first()));
    }
}

/// The command rows one tool contributes: each command name beside the
/// tool's name and version.
pub open spec fn spec_rows_of_tool(t: ToolView) -> Seq<(Seq<char>, Seq<char>)> {
    t.commands.map(|i: int, c: (Seq<char>, Seq<char>)| (c.0, t.name + " "@ + t.version))
}

/// All tools' command rows, in manifest order.
pub open spec fn spec_command_rows(tools: Seq<ToolView>) -> Seq<(Seq<char>, Seq<char>)>
    decreases tools.len(),
{
    if tools.len() == 0 {
        Seq::empty()
    } else {
        spec_rows_of_tool(tools[0]) + spec_command_rows(tools.drop_first())
    }
}

/// The widest entry, in characters, at least `base`.
pub open spec fn spec_max_width(names: Seq<Seq<char>>, base: int) -> int
    decreases names.len(),
{
    if names.len() == 0 {
        base
    } else {
        let rest = spec_max_width(names.drop_first(), base);
        if names[0].len() > rest {
            names[0].len() as int
        } else {
            rest
        }
    }
}

/// `n` spaces.
pub open spec fn spec_spaces(n: int) -> Seq<char>
    decreases n,
{
    if n <= 0 {
        Seq::empty()
    } else {
        spec_spaces(n - 1).push(' ')
    }
}

/// `s` padded on the right with spaces to width `w`; a longer `s` stays as
/// it is.
pub open spec fn spec_pad(s: Seq<char>, w: int) -> Seq<char> {
    s + spec_spaces(w - s.len())
}

fn spaces(n: usize) -> (r: Vec<char>)
    ensures
        r@ == spec_spaces(n as int),
    decreases n,
{
    if n == 0 {
        let r: Vec<char> = Vec::new();
        proof {
            assert(r@ =~= Seq::<char>::empty());
        }
        r
    } else {
        let mut r = spaces(n - 1);
        r.push(' ');
        r
    }
}

/// Appends `s` padded to width `w`.
fn append_padded(out: &mut Vec<char>, s: &Vec<char>, w: usize)
    ensures
        final (out)@ == old(out)@ + spec_pad(s@, w as int),
{
    append_chars(out, s);
    if s.len() < w {
        let pad = spaces(w - s.len());
        append_chars(out, &pad);
    } else {
        proof {
            assert(spec_spaces(w - s@.len()) =~= Seq::<char>::empty());
            assert(old(out)@ + (s@ + spec_spaces(w - s@.len())) =~= old(out)@ + s@);
        }
    }
    proof {
        assert(old(out)@ + (s@ + spec_spaces(w - s@.len())) =~= (old(out)@ + s@) + spec_spaces(
            w - s@.len(),
        ));
    }
}

/// One table line: three spaces, the padded command name, two spaces, the
/// padded tool column.
pub open spec fn spec_table_line(
    row: (Seq<char>, Seq<char>),
    max_name: int,
    max_tool: int,
) -> Seq<char> {
    "   "@ + spec_pad(row.0, max_name) + "  "@ + spec_pad(row.1, max_tool) + "\n"@
}

/// The table lines of all rows, in order.
pub open spec fn spec_table_lines(
    rows: Seq<(Seq<char>, Seq<char>)>,
    max_name: int,
    max_tool: int,
) -> Seq<char>
    decreases rows.len(),
{
    if rows.len() == 0 {
        Seq::empty()
    } else {
        spec_table_line(rows[0], max_name, max_tool) + spec_table_lines(
            rows.drop_first(),
            max_name,
            max_tool,
        )
    }
}

/// One "loaded configuration" line per manifest file.
pub open spec fn spec_config_file_lines(files: Seq<Seq<char>>) -> Seq<char>
    decreases files.len(),
{
    if files.len() == 0 {
        Seq::empty()
    } else {
        "\u{1f527} Loaded configuration from "@ + files[0] + "\n"@ + spec_config_file_lines(
            files.drop_first(),
        )
    }
}

/// The command table: a heading, then a header row and every command row,
/// sorted by command name, with both columns padded to their widest entry
/// (at least the header's width).
pub open spec fn spec_commands_table(tools: Seq<ToolView>) -> Seq<char> {
    let rows = spec_command_rows(tools);
    let max_name = spec_max_width(rows.map(|i: int, r: (Seq<char>, Seq<char>)| r.0), 7);
    let max_tool = spec_max_width(
        tools.map(|i: int, t: ToolView| t.name),
        4,
    );
    let table = seq![("Command"@, "Tool"@)] + spec_sort_rows(rows);
    "Available commands:\n\n"@ + spec_table_lines(table, max_name, max_tool)
}

/// The whole help text: banner, manifest locations, usage, and either the
/// hint to create a manifest or the command table.
pub open spec fn spec_help_text(c: ConfigView) -> Seq<char> {
    "\u{1f527} tool-tool 0.1.0 \u{1f527}\n\n\u{1f527} A light-weight meta-tool to version and install tool dependencies for your software projects\n\n"@
        + spec_config_file_lines(c.configuration_files) + "\n"@
        + "Usage: tt [-v] <command> <args...>\n  Run tool <command> with the provided arguments\n\nFlags:\n  -v     Verbose debug output\n\nUsage: tt --download\n  Download configured tools for later use\n\nUsage: tt --getBinaryPath <command>\n  Writes the absolute path to the binary to stdout. This can be used for integration with other tooling.\n\nUsage: tt --getToolPath <tool>\n  Writes the absolute path to the tool directory to stdout. This can be used for integration with other tooling.\n\n"@
        + (if c.configuration_files.len() == 0 {
        "No tool-tool file named .tool-tool.v1.yaml found in current directory or ancestors, please create one and configure your tools.\nRefer to https://example.invalid/tool-tool for further information\n"@
    } else {
        spec_commands_table(c.tools)
    })
}

/// Renders the command table.
pub fn print_commands(configuration: &Configuration) -> (r: String)
    ensures
        r@ == spec_commands_table(configuration@.tools),
{
    let chars = commands_table_chars(configuration);
    chars_to_string(&chars)
}

fn commands_table_chars(configuration: &Configuration) -> (r: Vec<char>)
    ensures
        r@ == spec_commands_table(configuration@.tools),
{
    let ghost tv = configuration@.tools;
    let mut rows: Vec<(String, String)> = Vec::new();
    let mut max_name: usize = 7;
    let mut max_tool: usize = 4;
    let mut i: usize = 0;
    proof {
        assert(tv.skip(0) =~= tv);
        assert(rows.deep_view() =~= Seq::<(Seq<char>, Seq<char>)>::empty());
        assert(spec_command_rows(tv) =~= rows.deep_view() + spec_command_rows(tv.skip(0)));
        assert(tv.map(|k: int, t: ToolView| t.name).take(0) =~= Seq::<Seq<char>>::empty());
    }
    while i < configuration.tools.len()
        invariant
            tv == configuration@.tools,
            tv.len() == configuration.tools@.len(),
            0 <= i <= tv.len(),
            spec_command_rows(tv) == rows.deep_view() + spec_command_rows(tv.skip(i as int)),
            max_name as int == spec_max_width(
                rows.deep_view().map(|k: int, r: (Seq<char>, Seq<char>)| r.0),
                7,
            ),
            max_tool as int == spec_max_width(tv.map(|k: int, t: ToolView| t.name).take(i as int), 4),
        decreases tv.len() - i,
    {
        let tool = &configuration.tools[i];
        proof {
            assert(tv[i as int] == configuration.tools@[i as int]@);
            assert(tv.skip(i as int)[0] == tv[i as int]);
            assert(tv.skip(i as int).drop_first() =~= tv.skip(i + 1));
        }
        let tool_name_chars = str_to_chars(tool.name.as_str());
        if tool_name_chars.len() > max_tool {
            max_tool = tool_name_chars.len();
        }
        let mut tool_column: Vec<char> = str_to_chars(tool.name.as_str());
        let sp = str_to_chars(" ");
        append_chars(&mut tool_column, &sp);
        let vc = str_to_chars(tool.version.as_str());
        append_chars(&mut tool_column, &vc);
        let tool_column_string = chars_to_string(&tool_column);
        let ghost row_view = spec_rows_of_tool(tv[i as int]);
        let ghost rows_before = rows.deep_view();
        let ghost names_before = rows.deep_view().map(|k: int, r: (Seq<char>, Seq<char>)| r.0);
        let mut j: usize = 0;
        proof {
            assert(row_view.take(0) =~= Seq::<(Seq<char>, Seq<char>)>::empty());
            assert(rows_before + row_view.take(0) =~= rows_before);
        }
        while j < tool.commands.len()
            invariant
                tv == configuration@.tools,
                tv.len() == configuration.tools@.len(),
                0 <= i < tv.len(),
                tv[i as int] == configuration.tools@[i as int]@,
                tool@ == tv[i as int],
                0 <= j <= tool.commands@.len(),
                tool.commands@.len() == tv[i as int].commands.len(),
                tool_column_string@ == tv[i as int].name + " "@ + tv[i as int].version,
                row_view == spec_rows_of_tool(tv[i as int]),
                rows.deep_view() =~= rows_before + row_view.take(j as int),
                max_name as int == spec_max_width(
                    rows.deep_view().map(|k: int, r: (Seq<char>, Seq<char>)| r.0),
                    7,
                ),
            decreases tool.commands@.len() - j,
        {
            let name = tool.commands[j].0.clone();
            let name_chars = str_to_chars(name.as_str());
            let ghost old_rows = rows.deep_view();
            let ghost old_names = old_rows.map(|k: int, r: (Seq<char>, Seq<char>)| r.0);
            let ghost namev = name@;
            let ghost colv = tool_column_string@;
            if name_chars.len() > max_name {
                max_name = name_chars.len();
            }
            rows.push((name, tool_column_string.clone()));
            proof {
                assert(tv[i as int].commands == tool.commands.deep_view());
                assert(tool.commands.deep_view()[j as int] == tool.commands@[j as int].deep_view());
                assert(tool.commands@[j as int].deep_view() == tv[i as int].commands[j as int]);
                assert(namev == tv[i as int].commands[j as int].0);
                assert(row_view[j as int] == (namev, colv));
                assert(rows.deep_view() =~= old_rows.push((namev, colv)));
                assert(row_view.take(j + 1) =~= row_view.take(j as int).push(row_view[j as int]));
                let new_names = rows.deep_view().map(|k: int, r: (Seq<char>, Seq<char>)| r.0);
                assert(new_names =~= old_names.push(namev));
                lemma_max_width_push(old_names, namev, 7);
            }
            j += 1;
        }
        proof {
            assert(row_view.take(tv[i as int].commands.len() as int) =~= row_view);
            assert((rows_before + row_view) + spec_command_rows(tv.skip(i + 1)) =~= rows_before + (
            row_view + spec_command_rows(tv.skip(i + 1))));
            assert(tv.map(|k: int, t: ToolView| t.name).take(i + 1) =~= tv.map(
                |k: int, t: ToolView| t.name,
            ).take(i as int).push(tv[i as int].name));
            lemma_max_width_push(tv.map(|k: int, t: ToolView| t.name).take(i as int), tv[i as int].name, 4);
        }
        i += 1;
    }
    proof {
        assert(tv.skip(tv.len() as int) =~= Seq::<ToolView>::empty());
        assert(rows.deep_view() + spec_command_rows(tv.skip(tv.len() as int)) =~= rows.deep_view());
        assert(tv.map(|k: int, t: ToolView| t.name).take(tv.len() as int) =~= tv.map(
            |k: int, t: ToolView| t.name,
        ));
    }
    let sorted = sort_rows(rows);
    let mut table: Vec<(String, String)> = Vec::new();
    let header = (
        chars_to_string(&str_to_chars("Command")),
        chars_to_string(&str_to_chars("Tool")),
    );
    let ghost headerv = ("Command"@, "Tool"@);
    table.push(header);
    let ghost head_dv = table.deep_view();
    let ghost sorted_dv = sorted.deep_view();
    let mut sorted2 = sorted;
    table.append(&mut sorted2);
    proof {
        assert(head_dv.len() == 1);
        assert(head_dv[0] == headerv);
        assert(head_dv =~= seq![headerv]);
        assert(table.deep_view() =~= head_dv + sorted_dv);
    }
    let mut out: Vec<char> = str_to_chars("Available commands:\n\n");
    let ghost table_dv = table.deep_view();
    let mut k: usize = 0;
    let ghost prefix = out@;
    proof {
        assert(table_dv.take(0) =~= Seq::<(Seq<char>, Seq<char>)>::empty());
        assert(out@ =~= prefix + spec_table_lines(
            table_dv.take(0),
            max_name as int,
            max_tool as int,
        ));
    }
    while k < table.len()
        invariant
            table_dv == table.deep_view(),
            table_dv.len() == table@.len(),
            0 <= k <= table@.len(),
            out@ == prefix + spec_table_lines(
                table_dv.take(k as int),
                max_name as int,
                max_tool as int,
            ),
        decreases table@.len() - k,
    {
        proof {
            assert(table_dv[k as int] == table@[k as int].deep_view());
        }
        let three = str_to_chars("   ");
        append_chars(&mut out, &three);
        let nc = str_to_chars(table[k].0.as_str());
        append_padded(&mut out, &nc, max_name);
        let two = str_to_chars("  ");
        append_chars(&mut out, &two);
        let tc = str_to_chars(table[k].1.as_str());
        append_padded(&mut out, &tc, max_tool);
        let nlc = str_to_chars("\n");
        append_chars(&mut out, &nlc);
        proof {
            lemma_table_lines_take(table_dv, max_name as int, max_tool as int, k as int);
        }
        k += 1;
    }
    proof {
        assert(table_dv.take(table_dv.len() as int) =~= table_dv);
    }
    out
}

/// Appending one row extends the table text by its line.
proof fn lemma_table_lines_take(
    rows: Seq<(Seq<char>, Seq<char>)>,
    max_name: int,
    max_tool: int,
    k: int,
)
    requires
        0 <= k < rows.len(),
    ensures
        spec_table_lines(rows.take(k + 1), max_name, max_tool) == spec_table_lines(
            rows.take(k),
            max_name,
            max_tool,
        ) + spec_table_line(rows[k], max_name, max_tool),
    decreases k,
{
    if k == 0 {
        assert(rows.take(1) =~= seq![rows[0]]);
        assert(rows.take(1).drop_first() =~= Seq::<(Seq<char>, Seq<char>)>::empty());
        assert(rows.take(0) =~= Seq::<(Seq<char>, Seq<char>)>::empty());
        assert(spec_table_lines(rows.take(0), max_name, max_tool) + spec_table_line(
            rows[0],
            max_name,
            max_tool,
        ) =~= spec_table_line(rows[0], max_name, max_tool));
        assert(spec_table_line(rows[0], max_name, max_tool) + Seq::<char>::empty()
            =~= spec_table_line(rows[0], max_name, max_tool));
    } else {
        lemma_table_lines_take(rows.drop_first(), max_name, max_tool, k - 1);
        assert(rows.take(k + 1).drop_first() =~= rows.drop_first().take(k));
        assert(rows.take(k).drop_first() =~= rows.drop_first().take(k - 1));
        assert(rows.take(k + 1)[0] == rows[0]);
        assert(rows.take(k)[0] == rows[0]);
        assert(rows.drop_first()[k - 1] == rows[k]);
        assert((spec_table_line(rows[0], max_name, max_tool) + spec_table_lines(
            rows.drop_first().take(k - 1),
            max_name,
            max_tool,
        )) + spec_table_line(rows[k], max_name, max_tool) =~= spec_table_line(
            rows[0],
            max_name,
            max_tool,
        ) + (spec_table_lines(rows.drop_first().take(k - 1), max_name, max_tool)
            + spec_table_line(rows[k], max_name, max_tool)));
    }
}

/// A new widest entry raises the width to its length; anything narrower
/// leaves it.
proof fn lemma_max_width_push(names: Seq<Seq<char>>, name: Seq<char>, base: int)
    ensures
        spec_max_width(names.push(name), base) == (if name.len() as int > spec_max_width(
            names,
            base,
        ) {
            name.len() as int
        } else {
            spec_max_width(names, base)
        }),
    decreases names.len(),
{
    if names.len() == 0 {
        assert(names.push(name)[0] == name);
        assert(names.push(name).drop_first() =~= Seq::<Seq<char>>::empty());
        assert(spec_max_width(Seq::<Seq<char>>::empty(), base) == base);
    } else {
        assert(names.push(name)[0] == names[0]);
        assert(names.push(name).drop_first() =~= names.drop_first().push(name));
        lemma_max_width_push(names.drop_first(), name, base);
        let rest0 = spec_max_width(names.drop_first(), base);
        let pushed_rest = spec_max_width(names.drop_first().push(name), base);
        assert(pushed_rest == (if name.len() as int > rest0 {
            name.len() as int
        } else {
            rest0
        }));
        assert(spec_max_width(names.push(name), base) == (if names[0].len() > pushed_rest {
            names[0].len() as int
        } else {
            pushed_rest
        }));
        assert(spec_max_width(names, base) == (if names[0].len() > rest0 {
            names[0].len() as int
        } else {
            rest0
        }));
    }
}

/// Renders the whole help text for a loaded (or absent) manifest.
pub fn print_help(configuration: &Configuration) -> (r: String)
    ensures
        r@ == spec_help_text(configuration@),
{
    let mut out: Vec<char> = str_to_chars(
        "\u{1f527} tool-tool 0.1.0 \u{1f527}\n\n\u{1f527} A light-weight meta-tool to version and install tool dependencies for your software projects\n\n",
    );
    let ghost files = configuration@.configuration_files;
    let mut i: usize = 0;
    let ghost banner = out@;
    proof {
        assert(files.skip(0) =~= files);
        assert(out@ =~= banner + spec_config_file_lines(files.take(0)));
    }
    while i < configuration.configuration_files.len()
        invariant
            files == configuration@.configuration_files,
            files.len() == configuration.configuration_files@.len(),
            0 <= i <= files.len(),
            out@ == banner + spec_config_file_lines(files.take(i as int)),
        decreases files.len() - i,
    {
        proof {
            assert(files[i as int] == configuration.configuration_files@[i as int]@);
        }
        let a = str_to_chars("\u{1f527} Loaded configuration from ");
        append_chars(&mut out, &a);
        let f = str_to_chars(configuration.configuration_files[i].as_str());
        append_chars(&mut out, &f);
        let nl = str_to_chars("\n");
        append_chars(&mut out, &nl);
        proof {
            lemma_config_lines_take(files, i as int);
        }
        i += 1;
    }
    proof {
        assert(files.take(files.len() as int) =~= files);
    }
    let nl = str_to_chars("\n");
    append_chars(&mut out, &nl);
    let usage = str_to_chars(
        "Usage: tt [-v] <command> <args...>\n  Run tool <command> with the provided arguments\n\nFlags:\n  -v     Verbose debug output\n\nUsage: tt --download\n  Download configured tools for later use\n\nUsage: tt --getBinaryPath <command>\n  Writes the absolute path to the binary to stdout. This can be used for integration with other tooling.\n\nUsage: tt --getToolPath <tool>\n  Writes the absolute path to the tool directory to stdout. This can be used for integration with other tooling.\n\n",
    );
    append_chars(&mut out, &usage);
    if configuration.configuration_files.len() == 0 {
        let hint = str_to_chars(
            "No tool-tool file named .tool-tool.v1.yaml found in current directory or ancestors, please create one and configure your tools.\nRefer to https://example.invalid/tool-tool for further information\n",
        );
        append_chars(&mut out, &hint);
    } else {
        let table = commands_table_chars(configuration);
        append_chars(&mut out, &table);
    }
    chars_to_string(&out)
}

/// Appending one manifest path extends the loaded-from lines by its line.
proof fn lemma_config_lines_take(files: Seq<Seq<char>>, i: int)
    requires
        0 <= i < files.len(),
    ensures
        spec_config_file_lines(files.take(i + 1)) == spec_config_file_lines(files.take(i))
            + ("\u{1f527} Loaded configuration from "@ + files[i] + "\n"@),
    decreases i,
{
    if i == 0 {
        assert(files.take(1) =~= seq![files[0]]);
        assert(files.take(1).drop_first() =~= Seq::<Seq<char>>::empty());
        assert(files.take(0) =~= Seq::<Seq<char>>::empty());
        assert(spec_config_file_lines(files.take(0)) + ("\u{1f527} Loaded configuration from "@
            + files[0] + "\n"@) =~= "\u{1f527} Loaded configuration from "@ + files[0] + "\n"@);
        assert(spec_config_file_lines(files.take(1)) =~= "\u{1f527} Loaded configuration from "@
            + files[0] + "\n"@);
    } else {
        lemma_config_lines_take(files.drop_first(), i - 1);
        assert(files.take(i + 1).drop_first() =~= files.drop_first().take(i));
        assert(files.take(i).drop_first() =~= files.drop_first().take(i - 1));
        assert(files.take(i + 1)[0] == files[0]);
        assert(files.take(i)[0] == files[0]);
        assert(files.drop_first()[i - 1] == files[i]);
        assert(("\u{1f527} Loaded configuration from "@ + files[0] + "\n"@
            + spec_config_file_lines(files.drop_first().take(i - 1))) + (
        "\u{1f527} Loaded configuration from "@ + files[i] + "\n"@) =~= (
        "\u{1f527} Loaded configuration from "@ + files[0] + "\n"@) + (spec_config_file_lines(
            files.drop_first().take(i - 1),
        ) + ("\u{1f527} Loaded configuration from "@ + files[i] + "\n"@)));
    }
}

} // verus!
