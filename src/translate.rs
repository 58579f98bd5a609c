//! Translation of an option set into a `dir` command, a PowerShell pipeline and
//! a description.

use vstd::prelude::*;
use crate::args::{LsArgs, OptionSet, strings_view, lemma_strings_view};
use crate::text::contains_char;

verus! {

/// The three renderings of one option set.
#[derive(Debug, Clone)]
pub struct Translation {
    pub cmd_command: String,
    pub powershell_command: String,
    pub description: String,
}

/// `s` where `b` holds, else nothing.
pub open spec fn flag_if(b: bool, s: Seq<char>) -> Seq<char> {
    if b {
        s
    } else {
        ""@
    }
}

/// The characters of an optional string.
pub open spec fn opt_view(h: Option<&str>) -> Option<Seq<char>> {
    match h {
        Some(s) => Some(s@),
        None => None,
    }
}

/// `p` with every forward slash turned into a backslash.
pub open spec fn backslashed(p: Seq<char>) -> Seq<char> {
    p.map_values(|c: char| if c == '/' { '\\' } else { c })
}

/// A path in Windows form: slashes become backslashes, and a leading `~`
/// becomes the home directory where one is known.
pub open spec fn windows_path(p: Seq<char>, home: Option<Seq<char>>) -> Seq<char> {
    if p.len() > 0 && p[0] == '~' && home is Some {
        home.unwrap() + backslashed(p.skip(1))
    } else {
        backslashed(p)
    }
}

/// `p` in double quotes where it holds a space.
pub open spec fn quoted(p: Seq<char>) -> Seq<char> {
    if p.contains(' ') {
        "\""@ + p + "\""@
    } else {
        p
    }
}

/// Each path, converted and quoted, after `prefix`.
pub open spec fn path_args(paths: Seq<Seq<char>>, prefix: Seq<char>, home: Option<Seq<char>>) -> Seq<
    char,
>
    decreases paths.len(),
{
    if paths.len() == 0 {
        ""@
    } else {
        path_args(paths.drop_last(), prefix, home) + prefix + quoted(
            windows_path(paths.last(), home),
        )
    }
}

/// The sort switch of the `dir` command: no sort wins, then time, then size,
/// then a plain reverse; `dir` sorts ascending, so time and size are inverted.
pub open spec fn dir_sort(a: OptionSet) -> Seq<char> {
    if a.no_sort {
        ""@
    } else if a.sort_by_time {
        if a.reverse {
            " /OD"@
        } else {
            " /O-D"@
        }
    } else if a.sort_by_size {
        if a.reverse {
            " /OS"@
        } else {
            " /O-S"@
        }
    } else if a.reverse {
        " /O-N"@
    } else {
        ""@
    }
}

/// The `dir` command for `a`.
pub open spec fn dir_command(a: OptionSet, home: Option<Seq<char>>) -> Seq<char> {
    "dir"@ + flag_if(a.all || a.almost_all, " /A"@) + flag_if(a.recursive, " /S"@) + flag_if(
        a.directory,
        " /AD"@,
    ) + flag_if(a.one_per_line && !a.long_format, " /B"@) + dir_sort(a) + path_args(
        a.paths,
        " "@,
        home,
    )
}

/// The sort stage of the PowerShell pipeline, with the same precedence as `dir_sort`.
pub open spec fn ps_sort(a: OptionSet) -> Seq<char> {
    if a.no_sort {
        ""@
    } else if a.sort_by_time {
        if a.reverse {
            " | Sort-Object LastWriteTime"@
        } else {
            " | Sort-Object LastWriteTime -Descending"@
        }
    } else if a.sort_by_size {
        if a.reverse {
            " | Sort-Object Length"@
        } else {
            " | Sort-Object Length -Descending"@
        }
    } else if a.reverse {
        " | Sort-Object Name -Descending"@
    } else {
        ""@
    }
}

/// The format stage of the PowerShell pipeline: long format wins over one per line.
pub open spec fn ps_format(a: OptionSet) -> Seq<char> {
    if a.long_format {
        " | Format-Table Mode, LastWriteTime, Length, Name -AutoSize"@
    } else if a.one_per_line {
        " | Select-Object -ExpandProperty Name"@
    } else {
        ""@
    }
}

/// The PowerShell pipeline for `a`.
pub open spec fn ps_command(a: OptionSet, home: Option<Seq<char>>) -> Seq<char> {
    "Get-ChildItem"@ + flag_if(a.all || a.almost_all, " -Force"@) + flag_if(
        a.recursive,
        " -Recurse"@,
    ) + flag_if(a.directory, " -Directory"@) + path_args(a.paths, " -Path "@, home) + ps_sort(a)
        + ps_format(a)
}

/// The clauses of the description, in their fixed order.
pub open spec fn desc_parts(a: OptionSet) -> Seq<Seq<char>> {
    let p = Seq::<Seq<char>>::empty();
    let p = if a.all { p.push("show hidden files"@) } else { p };
    let p = if a.long_format { p.push("long format"@) } else { p };
    let p = if a.recursive { p.push("recursive"@) } else { p };
    let p = if a.sort_by_time { p.push("sort by time"@) } else { p };
    let p = if a.sort_by_size { p.push("sort by size"@) } else { p };
    let p = if a.reverse { p.push("reverse order"@) } else { p };
    let p = if a.human_readable { p.push("human-readable sizes"@) } else { p };
    p
}

/// The parts joined by `, `.
pub open spec fn join(parts: Seq<Seq<char>>) -> Seq<char>
    decreases parts.len(),
{
    if parts.len() == 0 {
        ""@
    } else if parts.len() == 1 {
        parts[0]
    } else {
        join(parts.drop_last()) + ", "@ + parts.last()
    }
}

/// The description of `a`: the base phrase, with the clauses in parentheses
/// where there are any.
pub open spec fn description(a: OptionSet) -> Seq<char> {
    if desc_parts(a).len() == 0 {
        "list directory contents"@
    } else {
        "list directory contents ("@ + join(desc_parts(a)) + ")"@
    }
}

/// Converts a path to Windows form; `home` is the home directory, where one is known.
pub fn to_windows_path(path: &str, home: Option<&str>) -> (r: String)
    ensures
        r@ == windows_path(path@, opt_view(home)),
{
    let n = path.unicode_len();
    let mut out = String::new();
    let mut i: usize = 0;
    let ghost head: Seq<char> = Seq::empty();
    if n > 0 && path.get_char(0) == '~' && home.is_some() {
        out.append(home.unwrap());
        i = 1;
        proof {
            head = home.unwrap()@;
        }
    }
    proof {
        reveal_strlit("\\");
        assert(out@ == head);
        assert(backslashed(path@.subrange(i as int, i as int)) =~= Seq::<char>::empty());
    }
    let ghost start = i;
    while i < n
        invariant
            n == path@.len(),
            start <= i <= n,
            start <= 1,
            out@ == head + backslashed(path@.subrange(start as int, i as int)),
        decreases n - i,
    {
        let c = path.get_char(i);
        if c == '/' {
            out.append("\\");
            proof {
                reveal_strlit("\\");
                assert("\\"@ =~= seq!['\\']);
            }
        } else {
            out.append(path.substring_char(i, i + 1));
            assert(path@.subrange(i as int, i + 1) =~= seq![c]);
        }
        assert(backslashed(path@.subrange(start as int, i + 1)) =~= backslashed(
            path@.subrange(start as int, i as int),
        ).push(if c == '/' { '\\' } else { c }));
        assert(out@ =~= head + backslashed(path@.subrange(start as int, i + 1)));
        i = i + 1;
    }
    proof {
        if start == 1 {
            assert(path@.subrange(1, n as int) =~= path@.skip(1));
        } else {
            assert(path@.subrange(0, n as int) =~= path@);
        }
    }
    out
}

/// Appends `p` to `cmd`, in double quotes where it holds a space.
fn append_quoted(cmd: &mut String, p: &String)
    ensures
        final(cmd)@ == old(cmd)@ + quoted(p@),
{
    proof {
        reveal_strlit("\"");
    }
    if contains_char(p.as_str(), ' ') {
        cmd.append("\"");
        cmd.append(p.as_str());
        cmd.append("\"");
        assert(final(cmd)@ =~= old(cmd)@ + quoted(p@));
    } else {
        cmd.append(p.as_str());
    }
}

/// Appends each path, converted and quoted, after `prefix`.
fn append_paths(cmd: &mut String, paths: &Vec<String>, prefix: &str, home: Option<&str>)
    ensures
        final(cmd)@ == old(cmd)@ + path_args(strings_view(paths@), prefix@, opt_view(home)),
{
    let ghost all = strings_view(paths@);
    proof {
        lemma_strings_view(paths@);
        assert(all.take(0) =~= Seq::<Seq<char>>::empty());
        reveal_strlit("");
        assert(old(cmd)@ =~= old(cmd)@ + ""@);
    }
    let n = paths.len();
    let mut i: usize = 0;
    while i < n
        invariant
            n == paths@.len(),
            all == strings_view(paths@),
            all.len() == n,
            forall|k: int| 0 <= k < n ==> #[trigger] all[k] == paths@[k]@,
            i <= n,
            cmd@ == old(cmd)@ + path_args(all.take(i as int), prefix@, opt_view(home)),
        decreases n - i,
    {
        cmd.append(prefix);
        let w = to_windows_path(paths[i].as_str(), home);
        append_quoted(cmd, &w);
        assert(all.take(i + 1).drop_last() =~= all.take(i as int));
        assert(cmd@ =~= old(cmd)@ + path_args(all.take(i + 1), prefix@, opt_view(home)));
        i = i + 1;
    }
    assert(all.take(n as int) =~= all);
}

/// Appends `s` where `b` holds.
fn append_if(cmd: &mut String, b: bool, s: &str)
    ensures
        final(cmd)@ == old(cmd)@ + flag_if(b, s@),
{
    if b {
        cmd.append(s);
    } else {
        proof {
            reveal_strlit("");
        }
        assert(old(cmd)@ =~= old(cmd)@ + ""@);
    }
}

/// The sort switch of the `dir` command.
fn dir_sort_switch(args: &LsArgs) -> (r: &'static str)
    ensures
        r@ == dir_sort(args@),
{
    if args.no_sort {
        ""
    } else if args.sort_by_time {
        if args.reverse {
            " /OD"
        } else {
            " /O-D"
        }
    } else if args.sort_by_size {
        if args.reverse {
            " /OS"
        } else {
            " /O-S"
        }
    } else if args.reverse {
        " /O-N"
    } else {
        ""
    }
}

/// The sort stage of the PowerShell pipeline.
fn ps_sort_stage(args: &LsArgs) -> (r: &'static str)
    ensures
        r@ == ps_sort(args@),
{
    if args.no_sort {
        ""
    } else if args.sort_by_time {
        if args.reverse {
            " | Sort-Object LastWriteTime"
        } else {
            " | Sort-Object LastWriteTime -Descending"
        }
    } else if args.sort_by_size {
        if args.reverse {
            " | Sort-Object Length"
        } else {
            " | Sort-Object Length -Descending"
        }
    } else if args.reverse {
        " | Sort-Object Name -Descending"
    } else {
        ""
    }
}

/// The format stage of the PowerShell pipeline.
fn ps_format_stage(args: &LsArgs) -> (r: &'static str)
    ensures
        r@ == ps_format(args@),
{
    if args.long_format {
        " | Format-Table Mode, LastWriteTime, Length, Name -AutoSize"
    } else if args.one_per_line {
        " | Select-Object -ExpandProperty Name"
    } else {
        ""
    }
}

/// The `dir` command for `args`.
pub fn build_dir_command(args: &LsArgs, home: Option<&str>) -> (r: String)
    ensures
        r@ == dir_command(args@, opt_view(home)),
{
    let mut cmd = String::from_str("dir");
    append_if(&mut cmd, args.all || args.almost_all, " /A");
    append_if(&mut cmd, args.recursive, " /S");
    append_if(&mut cmd, args.directory, " /AD");
    append_if(&mut cmd, args.one_per_line && !args.long_format, " /B");
    cmd.append(dir_sort_switch(args));
    append_paths(&mut cmd, &args.paths, " ", home);
    cmd
}

/// The PowerShell pipeline for `args`.
pub fn build_powershell_command(args: &LsArgs, home: Option<&str>) -> (r: String)
    ensures
        r@ == ps_command(args@, opt_view(home)),
{
    let mut cmd = String::from_str("Get-ChildItem");
    append_if(&mut cmd, args.all || args.almost_all, " -Force");
    append_if(&mut cmd, args.recursive, " -Recurse");
    append_if(&mut cmd, args.directory, " -Directory");
    append_paths(&mut cmd, &args.paths, " -Path ", home);
    cmd.append(ps_sort_stage(args));
    cmd.append(ps_format_stage(args));
    cmd
}

/// Adds the clause `s` to the joined clauses `d`, of which there are `count`.
fn add_part(d: &mut String, count: usize, s: &str, parts: Ghost<Seq<Seq<char>>>)
    requires
        old(d)@ == join(parts@),
        count == parts@.len(),
    ensures
        final(d)@ == join(parts@.push(s@)),
{
    assert(parts@.push(s@).drop_last() =~= parts@);
    if count > 0 {
        d.append(", ");
    }
    d.append(s);
    proof {
        if count == 0 {
            reveal_strlit("");
            assert(final(d)@ =~= s@);
        }
    }
}

/// The description of `args`.
pub fn build_description(args: &LsArgs) -> (r: String)
    ensures
        r@ == description(args@),
{
    let mut d = String::new();
    let mut count: usize = 0;
    let ghost p = Seq::<Seq<char>>::empty();
    proof {
        reveal_strlit("");
        assert(d@ =~= ""@);
    }
    if args.all {
        add_part(&mut d, count, "show hidden files", Ghost(p));
        proof { p = p.push("show hidden files"@); }
        count = count + 1;
    }
    if args.long_format {
        add_part(&mut d, count, "long format", Ghost(p));
        proof { p = p.push("long format"@); }
        count = count + 1;
    }
    if args.recursive {
        add_part(&mut d, count, "recursive", Ghost(p));
        proof { p = p.push("recursive"@); }
        count = count + 1;
    }
    if args.sort_by_time {
        add_part(&mut d, count, "sort by time", Ghost(p));
        proof { p = p.push("sort by time"@); }
        count = count + 1;
    }
    if args.sort_by_size {
        add_part(&mut d, count, "sort by size", Ghost(p));
        proof { p = p.push("sort by size"@); }
        count = count + 1;
    }
    if args.reverse {
        add_part(&mut d, count, "reverse order", Ghost(p));
        proof { p = p.push("reverse order"@); }
        count = count + 1;
    }
    if args.human_readable {
        add_part(&mut d, count, "human-readable sizes", Ghost(p));
        proof { p = p.push("human-readable sizes"@); }
        count = count + 1;
    }
    assert(p == desc_parts(args@));
    if count == 0 {
        String::from_str("list directory contents")
    } else {
        let mut r = String::from_str("list directory contents (");
        r.append(d.as_str());
        r.append(")");
        r
    }
}

/// Translates `args` into both commands and a description; `home` is the home
/// directory, where one is known.
pub fn translate(args: &LsArgs, home: Option<&str>) -> (r: Translation)
    ensures
        r.cmd_command@ == dir_command(args@, opt_view(home)),
        r.powershell_command@ == ps_command(args@, opt_view(home)),
        r.description@ == description(args@),
{
    Translation {
        cmd_command: build_dir_command(args, home),
        powershell_command: build_powershell_command(args, home),
        description: build_description(args),
    }
}

/// Sorting by time takes precedence over sorting by size in both commands,
/// and with no-sort set the `dir` command carries no sort switch at all.
pub proof fn lemma_sort_precedence(a: OptionSet)
    ensures
        !a.no_sort && a.sort_by_time ==> dir_sort(a) == (if a.reverse {
            " /OD"@
        } else {
            " /O-D"@
        }),
        !a.no_sort && a.sort_by_time ==> ps_sort(a) == (if a.reverse {
            " | Sort-Object LastWriteTime"@
        } else {
            " | Sort-Object LastWriteTime -Descending"@
        }),
        a.no_sort ==> dir_sort(a) == ""@,
{
}

/// Equal option sets, with the same home directory, translate to equal results.
pub proof fn lemma_translation_deterministic(a: OptionSet, b: OptionSet, home: Option<Seq<char>>)
    requires
        a == b,
    ensures
        dir_command(a, home) == dir_command(b, home),
        ps_command(a, home) == ps_command(b, home),
        description(a) == description(b),
{
}

} // verus!
