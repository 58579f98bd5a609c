//! The option set of an `ls` invocation and the parser that builds it.

use vstd::prelude::*;
use crate::text::str_eq;

verus! {

/// How listings are coloured.
#[derive(Debug, Clone, Copy, PartialEq, Eq, Structural)]
pub enum ColorOption {
    Auto,
    Always,
    Never,
}

/// The parsed options of one invocation.
#[derive(Debug)]
pub struct LsArgs {
    pub long_format: bool,
    pub all: bool,
    pub almost_all: bool,
    pub human_readable: bool,
    pub one_per_line: bool,
    pub recursive: bool,
    pub directory: bool,
    pub classify: bool,
    pub show_size: bool,
    pub sort_by_time: bool,
    pub sort_by_size: bool,
    pub reverse: bool,
    pub no_sort: bool,
    pub color: ColorOption,
    pub explain: bool,
    pub teach: bool,
    pub native: bool,
    pub use_powershell: bool,
    pub use_cmd: bool,
    pub help: bool,
    pub version: bool,
    pub rosetta: bool,
    pub tree: bool,
    pub paths: Vec<String>,
}

/// A boolean option of an invocation.
#[derive(Debug, Clone, Copy, PartialEq, Eq, Structural)]
pub enum Flag {
    LongFormat,
    All,
    AlmostAll,
    HumanReadable,
    OnePerLine,
    Recursive,
    Directory,
    Classify,
    ShowSize,
    SortByTime,
    SortBySize,
    Reverse,
    NoSort,
    Explain,
    Teach,
    Native,
    UsePowershell,
    UseCmd,
    Help,
    Version,
    Rosetta,
    Tree,
}

/// The mathematical value of an option set: its flags and colour mode, and its
/// paths as character sequences.
pub struct OptionSet {
    pub long_format: bool,
    pub all: bool,
    pub almost_all: bool,
    pub human_readable: bool,
    pub one_per_line: bool,
    pub recursive: bool,
    pub directory: bool,
    pub classify: bool,
    pub show_size: bool,
    pub sort_by_time: bool,
    pub sort_by_size: bool,
    pub reverse: bool,
    pub no_sort: bool,
    pub explain: bool,
    pub teach: bool,
    pub native: bool,
    pub use_powershell: bool,
    pub use_cmd: bool,
    pub help: bool,
    pub version: bool,
    pub rosetta: bool,
    pub tree: bool,
    pub color: ColorOption,
    pub paths: Seq<Seq<char>>,
}

/// The character sequences held by a list of strings.
#[verifier::opaque]
pub open spec fn strings_view(v: Seq<String>) -> Seq<Seq<char>> {
    v.map_values(|s: String| s@)
}

/// The view of a list of strings has one element for each string.
pub proof fn lemma_strings_view(v: Seq<String>)
    ensures
        strings_view(v).len() == v.len(),
        forall|i: int| 0 <= i < v.len() ==> #[trigger] strings_view(v)[i] == v[i]@,
{
    reveal(strings_view);
}

/// Appending a string appends its characters to the view.
pub proof fn lemma_strings_view_push(v: Seq<String>, s: String)
    ensures
        strings_view(v.push(s)) == strings_view(v).push(s@),
{
    reveal(strings_view);
    assert(strings_view(v.push(s)) =~= strings_view(v).push(s@));
}

/// The view of no string is empty.
pub proof fn lemma_strings_view_empty(v: Seq<String>)
    requires
        v.len() == 0,
    ensures
        strings_view(v) == Seq::<Seq<char>>::empty(),
{
    reveal(strings_view);
    assert(strings_view(v) =~= Seq::<Seq<char>>::empty());
}

impl View for LsArgs {
    type V = OptionSet;

    open spec fn view(&self) -> OptionSet {
        OptionSet {
            long_format: self.long_format,
            all: self.all,
            almost_all: self.almost_all,
            human_readable: self.human_readable,
            one_per_line: self.one_per_line,
            recursive: self.recursive,
            directory: self.directory,
            classify: self.classify,
            show_size: self.show_size,
            sort_by_time: self.sort_by_time,
            sort_by_size: self.sort_by_size,
            reverse: self.reverse,
            no_sort: self.no_sort,
            explain: self.explain,
            teach: self.teach,
            native: self.native,
            use_powershell: self.use_powershell,
            use_cmd: self.use_cmd,
            help: self.help,
            version: self.version,
            rosetta: self.rosetta,
            tree: self.tree,
            color: self.color,
            paths: strings_view(self.paths@),
        }
    }
}

/// No flag set, automatic colour, no path.
pub open spec fn empty_options() -> OptionSet {
    OptionSet {
        long_format: false,
        all: false,
        almost_all: false,
        human_readable: false,
        one_per_line: false,
        recursive: false,
        directory: false,
        classify: false,
        show_size: false,
        sort_by_time: false,
        sort_by_size: false,
        reverse: false,
        no_sort: false,
        explain: false,
        teach: false,
        native: false,
        use_powershell: false,
        use_cmd: false,
        help: false,
        version: false,
        rosetta: false,
        tree: false,
        color: ColorOption::Auto,
        paths: Seq::empty(),
    }
}

/// `m` with the flag `f` set.
#[verifier::opaque]
pub open spec fn with_flag(m: OptionSet, f: Flag) -> OptionSet {
    OptionSet {
        long_format: m.long_format || f == Flag::LongFormat,
        all: m.all || f == Flag::All,
        almost_all: m.almost_all || f == Flag::AlmostAll,
        human_readable: m.human_readable || f == Flag::HumanReadable,
        one_per_line: m.one_per_line || f == Flag::OnePerLine,
        recursive: m.recursive || f == Flag::Recursive,
        directory: m.directory || f == Flag::Directory,
        classify: m.classify || f == Flag::Classify,
        show_size: m.show_size || f == Flag::ShowSize,
        sort_by_time: m.sort_by_time || f == Flag::SortByTime,
        sort_by_size: m.sort_by_size || f == Flag::SortBySize,
        reverse: m.reverse || f == Flag::Reverse,
        no_sort: m.no_sort || f == Flag::NoSort,
        explain: m.explain || f == Flag::Explain,
        teach: m.teach || f == Flag::Teach,
        native: m.native || f == Flag::Native,
        use_powershell: m.use_powershell || f == Flag::UsePowershell,
        use_cmd: m.use_cmd || f == Flag::UseCmd,
        help: m.help || f == Flag::Help,
        version: m.version || f == Flag::Version,
        rosetta: m.rosetta || f == Flag::Rosetta,
        tree: m.tree || f == Flag::Tree,
        color: m.color,
        paths: m.paths,
    }
}

/// `m` with the colour mode `c`.
pub open spec fn with_color(m: OptionSet, c: ColorOption) -> OptionSet {
    OptionSet {
        long_format: m.long_format,
        all: m.all,
        almost_all: m.almost_all,
        human_readable: m.human_readable,
        one_per_line: m.one_per_line,
        recursive: m.recursive,
        directory: m.directory,
        classify: m.classify,
        show_size: m.show_size,
        sort_by_time: m.sort_by_time,
        sort_by_size: m.sort_by_size,
        reverse: m.reverse,
        no_sort: m.no_sort,
        explain: m.explain,
        teach: m.teach,
        native: m.native,
        use_powershell: m.use_powershell,
        use_cmd: m.use_cmd,
        help: m.help,
        version: m.version,
        rosetta: m.rosetta,
        tree: m.tree,
        color: c,
        paths: m.paths,
    }
}

/// `m` with the paths `p`.
pub open spec fn with_paths(m: OptionSet, p: Seq<Seq<char>>) -> OptionSet {
    OptionSet {
        long_format: m.long_format,
        all: m.all,
        almost_all: m.almost_all,
        human_readable: m.human_readable,
        one_per_line: m.one_per_line,
        recursive: m.recursive,
        directory: m.directory,
        classify: m.classify,
        show_size: m.show_size,
        sort_by_time: m.sort_by_time,
        sort_by_size: m.sort_by_size,
        reverse: m.reverse,
        no_sort: m.no_sort,
        explain: m.explain,
        teach: m.teach,
        native: m.native,
        use_powershell: m.use_powershell,
        use_cmd: m.use_cmd,
        help: m.help,
        version: m.version,
        rosetta: m.rosetta,
        tree: m.tree,
        color: m.color,
        paths: p,
    }
}

/// The flag that a short option character sets, or `None` where the character is unknown.
pub open spec fn short_flag(c: char) -> Option<Flag> {
    if c == 'l' {
        Some(Flag::LongFormat)
    } else if c == 'a' {
        Some(Flag::All)
    } else if c == 'A' {
        Some(Flag::AlmostAll)
    } else if c == 'h' {
        Some(Flag::HumanReadable)
    } else if c == '1' {
        Some(Flag::OnePerLine)
    } else if c == 'R' {
        Some(Flag::Recursive)
    } else if c == 'd' {
        Some(Flag::Directory)
    } else if c == 'F' {
        Some(Flag::Classify)
    } else if c == 's' {
        Some(Flag::ShowSize)
    } else if c == 't' {
        Some(Flag::SortByTime)
    } else if c == 'S' {
        Some(Flag::SortBySize)
    } else if c == 'r' {
        Some(Flag::Reverse)
    } else if c == 'U' {
        Some(Flag::NoSort)
    } else if c == '?' {
        Some(Flag::Help)
    } else {
        None
    }
}

/// The options after a bundle of short option characters, read left to right;
/// the first unknown character is reported.
#[verifier::opaque]
pub open spec fn short_bundle(m: OptionSet, cs: Seq<char>) -> Result<OptionSet, Seq<char>>
    decreases cs.len(),
{
    if cs.len() == 0 {
        Ok(m)
    } else {
        match short_flag(cs[0]) {
            Some(f) => short_bundle(with_flag(m, f), cs.skip(1)),
            None => Err("Unknown option: -"@ + seq![cs[0]]),
        }
    }
}

/// The flag that a long option name other than `color` sets, or `None` where
/// the name is unknown.
pub open spec fn long_flag(name: Seq<char>) -> Option<Flag> {
    if name == "all"@ {
        Some(Flag::All)
    } else if name == "almost-all"@ {
        Some(Flag::AlmostAll)
    } else if name == "human-readable"@ {
        Some(Flag::HumanReadable)
    } else if name == "recursive"@ {
        Some(Flag::Recursive)
    } else if name == "directory"@ {
        Some(Flag::Directory)
    } else if name == "classify"@ {
        Some(Flag::Classify)
    } else if name == "reverse"@ {
        Some(Flag::Reverse)
    } else if name == "explain"@ {
        Some(Flag::Explain)
    } else if name == "teach"@ {
        Some(Flag::Teach)
    } else if name == "native"@ {
        Some(Flag::Native)
    } else if name == "powershell"@ || name == "ps"@ {
        Some(Flag::UsePowershell)
    } else if name == "cmd"@ {
        Some(Flag::UseCmd)
    } else if name == "help"@ {
        Some(Flag::Help)
    } else if name == "version"@ {
        Some(Flag::Version)
    } else if name == "rosetta"@ || name == "cheatsheet"@ {
        Some(Flag::Rosetta)
    } else if name == "tree"@ {
        Some(Flag::Tree)
    } else {
        None
    }
}

/// The position of the first `=` in `s` at or after `i`, or the length of `s` where there is none.
pub open spec fn eq_from(s: Seq<char>, i: int) -> int
    decreases s.len() - i,
{
    if i < 0 || i >= s.len() {
        s.len() as int
    } else if s[i] == '=' {
        i
    } else {
        eq_from(s, i + 1)
    }
}

/// The colour that a `--color` value selects, or `None` where the value is unknown.
pub open spec fn color_value(v: Option<Seq<char>>) -> Option<ColorOption> {
    match v {
        None => Some(ColorOption::Auto),
        Some(s) => if s == "always"@ || s == "yes"@ || s == "force"@ {
            Some(ColorOption::Always)
        } else if s == "never"@ || s == "no"@ || s == "none"@ {
            Some(ColorOption::Never)
        } else if s == "auto"@ || s == "tty"@ || s == "if-tty"@ {
            Some(ColorOption::Auto)
        } else {
            None
        },
    }
}

/// The options after the long option `name`, with its inline value if one was given.
pub open spec fn long_named(m: OptionSet, name: Seq<char>, value: Option<Seq<char>>) -> Result<
    OptionSet,
    Seq<char>,
> {
    if name == "color"@ {
        match color_value(value) {
            Some(c) => Ok(with_color(m, c)),
            None => Err("Unknown color option: "@ + value.unwrap()),
        }
    } else {
        match long_flag(name) {
            Some(f) => Ok(with_flag(m, f)),
            None => Err("Unknown option: --"@ + name),
        }
    }
}

/// The options after a long option whose text after `--` is `body`:
/// the name runs to the first `=`, and the value follows it.
pub open spec fn long_option(m: OptionSet, body: Seq<char>) -> Result<OptionSet, Seq<char>> {
    let p = eq_from(body, 0);
    let value = if p < body.len() {
        Some(body.subrange(p + 1, body.len() as int))
    } else {
        None
    };
    long_named(m, body.take(p), value)
}

/// Whether a token is a long option.
pub open spec fn is_long(t: Seq<char>) -> bool {
    t.len() >= 2 && t[0] == '-' && t[1] == '-'
}

/// Whether a token is a bundle of short options.
pub open spec fn is_short(t: Seq<char>) -> bool {
    t.len() > 1 && t[0] == '-'
}

/// The options after one token other than `--`: a long option, a bundle of
/// short options, or a path.
pub open spec fn token_step(m: OptionSet, t: Seq<char>) -> Result<OptionSet, Seq<char>> {
    if is_long(t) {
        long_option(m, t.skip(2))
    } else if is_short(t) {
        short_bundle(m, t.skip(1))
    } else {
        Ok(with_paths(m, m.paths.push(t)))
    }
}

/// The options after reading `toks` from the left, starting from `m`;
/// every token after `--` is a path.
pub open spec fn parse_tokens(m: OptionSet, toks: Seq<Seq<char>>) -> Result<OptionSet, Seq<char>>
    decreases toks.len(),
{
    if toks.len() == 0 {
        Ok(m)
    } else if toks[0] == "--"@ {
        Ok(with_paths(m, m.paths + toks.skip(1)))
    } else {
        match token_step(m, toks[0]) {
            Ok(m2) => parse_tokens(m2, toks.skip(1)),
            Err(e) => Err(e),
        }
    }
}

/// `m`, with the current directory as its one path where it has none.
pub open spec fn with_default_path(m: OptionSet) -> OptionSet {
    if m.paths.len() == 0 {
        with_paths(m, seq!["."@])
    } else {
        m
    }
}

/// Setting two flags gives the same options in either order.
pub proof fn lemma_flags_commute(m: OptionSet, f: Flag, g: Flag)
    ensures
        with_flag(with_flag(m, f), g) == with_flag(with_flag(m, g), f),
{
    reveal(with_flag);
}

/// A bundle that starts with a known character continues from the options
/// with that character's flag set.
pub proof fn lemma_bundle_step(m: OptionSet, cs: Seq<char>)
    requires
        cs.len() > 0,
        short_flag(cs[0]) is Some,
    ensures
        short_bundle(m, cs) == short_bundle(with_flag(m, short_flag(cs[0]).unwrap()), cs.skip(1)),
{
    reveal(short_bundle);
}

/// An empty bundle leaves the options as they are.
pub proof fn lemma_bundle_empty(m: OptionSet, cs: Seq<char>)
    requires
        cs.len() == 0,
    ensures
        short_bundle(m, cs) == Ok::<OptionSet, Seq<char>>(m),
{
    reveal(short_bundle);
}

/// A bundle that starts with an unknown character fails, naming it.
pub proof fn lemma_bundle_unknown(m: OptionSet, cs: Seq<char>)
    requires
        cs.len() > 0,
        short_flag(cs[0]) is None,
    ensures
        short_bundle(m, cs) == Err::<OptionSet, Seq<char>>("Unknown option: -"@ + seq![cs[0]]),
{
    reveal(short_bundle);
}

/// Whether every character of a bundle is a known short option.
pub open spec fn known_bundle(cs: Seq<char>) -> bool {
    forall|i: int| 0 <= i < cs.len() ==> #[trigger] short_flag(cs[i]) is Some
}

/// Whether the character `c` occurs in `cs`.
#[verifier::opaque]
pub open spec fn has_char(cs: Seq<char>, c: char) -> bool {
    cs.contains(c)
}

/// Whether `r` is `m` with the flag of each character of `cs` set, and no other change.
pub open spec fn sets_bundle(r: OptionSet, m: OptionSet, cs: Seq<char>) -> bool {
    r.long_format == (m.long_format || has_char(cs, 'l'))
        && r.all == (m.all || has_char(cs, 'a'))
        && r.almost_all == (m.almost_all || has_char(cs, 'A'))
        && r.human_readable == (m.human_readable || has_char(cs, 'h'))
        && r.one_per_line == (m.one_per_line || has_char(cs, '1'))
        && r.recursive == (m.recursive || has_char(cs, 'R'))
        && r.directory == (m.directory || has_char(cs, 'd'))
        && r.classify == (m.classify || has_char(cs, 'F'))
        && r.show_size == (m.show_size || has_char(cs, 's'))
        && r.sort_by_time == (m.sort_by_time || has_char(cs, 't'))
        && r.sort_by_size == (m.sort_by_size || has_char(cs, 'S'))
        && r.reverse == (m.reverse || has_char(cs, 'r'))
        && r.no_sort == (m.no_sort || has_char(cs, 'U'))
        && r.explain == (m.explain)
        && r.teach == (m.teach)
        && r.native == (m.native)
        && r.use_powershell == (m.use_powershell)
        && r.use_cmd == (m.use_cmd)
        && r.help == (m.help || has_char(cs, '?'))
        && r.version == (m.version)
        && r.rosetta == (m.rosetta)
        && r.tree == (m.tree)
        && r.color == m.color
        && r.paths == m.paths
}

/// The fields of `m` with the flag `f` set.
proof fn lemma_with_flag_fields(m: OptionSet, f: Flag)
    ensures
        with_flag(m, f).long_format == (m.long_format || f == Flag::LongFormat),
        with_flag(m, f).all == (m.all || f == Flag::All),
        with_flag(m, f).almost_all == (m.almost_all || f == Flag::AlmostAll),
        with_flag(m, f).human_readable == (m.human_readable || f == Flag::HumanReadable),
        with_flag(m, f).one_per_line == (m.one_per_line || f == Flag::OnePerLine),
        with_flag(m, f).recursive == (m.recursive || f == Flag::Recursive),
        with_flag(m, f).directory == (m.directory || f == Flag::Directory),
        with_flag(m, f).classify == (m.classify || f == Flag::Classify),
        with_flag(m, f).show_size == (m.show_size || f == Flag::ShowSize),
        with_flag(m, f).sort_by_time == (m.sort_by_time || f == Flag::SortByTime),
        with_flag(m, f).sort_by_size == (m.sort_by_size || f == Flag::SortBySize),
        with_flag(m, f).reverse == (m.reverse || f == Flag::Reverse),
        with_flag(m, f).no_sort == (m.no_sort || f == Flag::NoSort),
        with_flag(m, f).explain == (m.explain || f == Flag::Explain),
        with_flag(m, f).teach == (m.teach || f == Flag::Teach),
        with_flag(m, f).native == (m.native || f == Flag::Native),
        with_flag(m, f).use_powershell == (m.use_powershell || f == Flag::UsePowershell),
        with_flag(m, f).use_cmd == (m.use_cmd || f == Flag::UseCmd),
        with_flag(m, f).help == (m.help || f == Flag::Help),
        with_flag(m, f).version == (m.version || f == Flag::Version),
        with_flag(m, f).rosetta == (m.rosetta || f == Flag::Rosetta),
        with_flag(m, f).tree == (m.tree || f == Flag::Tree),
        with_flag(m, f).color == m.color,
        with_flag(m, f).paths == m.paths,
{
    reveal(with_flag);
}

/// The flag of a known short option character is that of its entry in the table.
proof fn lemma_short_flag_is(c: char)
    requires
        short_flag(c) is Some,
    ensures
        (short_flag(c).unwrap() == Flag::LongFormat) == (c == 'l'),
        (short_flag(c).unwrap() == Flag::All) == (c == 'a'),
        (short_flag(c).unwrap() == Flag::AlmostAll) == (c == 'A'),
        (short_flag(c).unwrap() == Flag::HumanReadable) == (c == 'h'),
        (short_flag(c).unwrap() == Flag::OnePerLine) == (c == '1'),
        (short_flag(c).unwrap() == Flag::Recursive) == (c == 'R'),
        (short_flag(c).unwrap() == Flag::Directory) == (c == 'd'),
        (short_flag(c).unwrap() == Flag::Classify) == (c == 'F'),
        (short_flag(c).unwrap() == Flag::ShowSize) == (c == 's'),
        (short_flag(c).unwrap() == Flag::SortByTime) == (c == 't'),
        (short_flag(c).unwrap() == Flag::SortBySize) == (c == 'S'),
        (short_flag(c).unwrap() == Flag::Reverse) == (c == 'r'),
        (short_flag(c).unwrap() == Flag::NoSort) == (c == 'U'),
        short_flag(c).unwrap() != Flag::Explain,
        short_flag(c).unwrap() != Flag::Teach,
        short_flag(c).unwrap() != Flag::Native,
        short_flag(c).unwrap() != Flag::UsePowershell,
        short_flag(c).unwrap() != Flag::UseCmd,
        (short_flag(c).unwrap() == Flag::Help) == (c == '?'),
        short_flag(c).unwrap() != Flag::Version,
        short_flag(c).unwrap() != Flag::Rosetta,
        short_flag(c).unwrap() != Flag::Tree,
{
}

/// A character occurs in a non-empty sequence when it is the first or occurs in the rest.
proof fn lemma_contains_cons(cs: Seq<char>)
    requires
        cs.len() > 0,
    ensures
        forall|c: char| #[trigger] has_char(cs, c) == (cs[0] == c || has_char(cs.skip(1), c)),
{
    reveal(has_char);
    let rest = cs.skip(1);
    assert forall|c: char| #[trigger] cs.contains(c) == (cs[0] == c || rest.contains(c)) by {
        if cs.contains(c) {
            let k = choose|k: int| 0 <= k < cs.len() && cs[k] == c;
            if k > 0 {
                assert(rest[k - 1] == c);
            }
        }
        if rest.contains(c) {
            let k = choose|k: int| 0 <= k < rest.len() && rest[k] == c;
            assert(cs[k + 1] == c);
        }
        if cs[0] == c {
            assert(cs[0] == c);
        }
    }
}

/// The rest of a known bundle is known.
proof fn lemma_known_rest(cs: Seq<char>)
    requires
        cs.len() > 0,
        known_bundle(cs),
    ensures
        known_bundle(cs.skip(1)),
{
    let rest = cs.skip(1);
    assert forall|i: int| 0 <= i < rest.len() implies #[trigger] short_flag(rest[i]) is Some by {
        assert(rest[i] == cs[i + 1]);
        assert(short_flag(cs[i + 1]) is Some);
    }
}

/// A bundle of known short options succeeds and sets exactly the flags of the
/// characters that occur in it: the result depends on which characters occur,
/// not on their order or repetition.
pub proof fn lemma_bundle_sets(m: OptionSet, cs: Seq<char>)
    requires
        known_bundle(cs),
    ensures
        short_bundle(m, cs) is Ok,
        sets_bundle(short_bundle(m, cs)->Ok_0, m, cs),
    decreases cs.len(),
{
    if cs.len() == 0 {
        lemma_bundle_empty(m, cs);
        assert(forall|c: char| !has_char(cs, c)) by {
            reveal(has_char);
        }
    } else {
        assert(short_flag(cs[0]) is Some);
        let f = short_flag(cs[0]).unwrap();
        lemma_known_rest(cs);
        lemma_bundle_step(m, cs);
        lemma_bundle_sets(with_flag(m, f), cs.skip(1));
        lemma_with_flag_fields(m, f);
        lemma_short_flag_is(cs[0]);
        lemma_contains_cons(cs);
    }
}

/// The result of parsing an argument list whose first element is the program name.
pub open spec fn parse_model(args: Seq<Seq<char>>) -> Result<OptionSet, Seq<char>> {
    let toks = if args.len() == 0 {
        Seq::empty()
    } else {
        args.skip(1)
    };
    match parse_tokens(empty_options(), toks) {
        Ok(m) => Ok(with_default_path(m)),
        Err(e) => Err(e),
    }
}

/// The value of a parse result.
pub open spec fn parse_result_view(r: Result<LsArgs, String>) -> Result<OptionSet, Seq<char>> {
    match r {
        Ok(a) => Ok(a@),
        Err(e) => Err(e@),
    }
}

/// Whether the fields of `a` hold the option set `m`, field by field.
pub open spec fn holds(a: &LsArgs, m: OptionSet) -> bool {
    a.long_format == m.long_format
        && a.all == m.all
        && a.almost_all == m.almost_all
        && a.human_readable == m.human_readable
        && a.one_per_line == m.one_per_line
        && a.recursive == m.recursive
        && a.directory == m.directory
        && a.classify == m.classify
        && a.show_size == m.show_size
        && a.sort_by_time == m.sort_by_time
        && a.sort_by_size == m.sort_by_size
        && a.reverse == m.reverse
        && a.no_sort == m.no_sort
        && a.explain == m.explain
        && a.teach == m.teach
        && a.native == m.native
        && a.use_powershell == m.use_powershell
        && a.use_cmd == m.use_cmd
        && a.help == m.help
        && a.version == m.version
        && a.rosetta == m.rosetta
        && a.tree == m.tree
        && a.color == m.color
        && strings_view(a.paths@) == m.paths
}

/// Fields that hold an option set give it as their view.
pub proof fn lemma_holds_view(a: &LsArgs, m: OptionSet)
    requires
        holds(a, m),
    ensures
        a@ == m,
{
}

/// The fields of an option set hold its view.
pub proof fn lemma_view_holds(a: &LsArgs)
    ensures
        holds(a, a@),
{
}

/// A result whose fields hold the modelled result has it as its view.
pub proof fn lemma_result_view(r: Result<LsArgs, String>, s: Result<OptionSet, Seq<char>>)
    requires
        result_holds(r, s),
    ensures
        parse_result_view(r) == s,
{
    if r is Ok {
        let m = match s {
            Ok(m) => m,
            Err(_) => empty_options(),
        };
        lemma_holds_view(&r->Ok_0, m);
    }
}

/// Whether a parse result agrees with the modelled result: the same options,
/// or the same error.
pub open spec fn result_holds(r: Result<LsArgs, String>, s: Result<OptionSet, Seq<char>>) -> bool {
    match r {
        Ok(a) => match s {
            Ok(m) => holds(&a, m),
            Err(_) => false,
        },
        Err(e) => s == Err::<OptionSet, Seq<char>>(e@),
    }
}

impl Default for LsArgs {
    fn default() -> (r: LsArgs)
        ensures
            r@ == empty_options(),
            holds(&r, empty_options()),
    {
        let r = LsArgs {
            long_format: false,
            all: false,
            almost_all: false,
            human_readable: false,
            one_per_line: false,
            recursive: false,
            directory: false,
            classify: false,
            show_size: false,
            sort_by_time: false,
            sort_by_size: false,
            reverse: false,
            no_sort: false,
            color: ColorOption::Auto,
            explain: false,
            teach: false,
            native: false,
            use_powershell: false,
            use_cmd: false,
            help: false,
            version: false,
            rosetta: false,
            tree: false,
            paths: Vec::new(),
        };
        proof {
            lemma_strings_view_empty(r.paths@);
        }
        r
    }
}


/// The flag that the short option character `c` sets.
fn short_flag_of(c: char) -> (r: Option<Flag>)
    ensures
        r == short_flag(c),
{
    if c == 'l' {
        Some(Flag::LongFormat)
    } else if c == 'a' {
        Some(Flag::All)
    } else if c == 'A' {
        Some(Flag::AlmostAll)
    } else if c == 'h' {
        Some(Flag::HumanReadable)
    } else if c == '1' {
        Some(Flag::OnePerLine)
    } else if c == 'R' {
        Some(Flag::Recursive)
    } else if c == 'd' {
        Some(Flag::Directory)
    } else if c == 'F' {
        Some(Flag::Classify)
    } else if c == 's' {
        Some(Flag::ShowSize)
    } else if c == 't' {
        Some(Flag::SortByTime)
    } else if c == 'S' {
        Some(Flag::SortBySize)
    } else if c == 'r' {
        Some(Flag::Reverse)
    } else if c == 'U' {
        Some(Flag::NoSort)
    } else if c == '?' {
        Some(Flag::Help)
    } else {
        None
    }
}

/// The flag that the long option `name`, other than `color`, sets.
fn long_flag_of(name: &str) -> (r: Option<Flag>)
    ensures
        r == long_flag(name@),
{
    if str_eq(name, "all") {
        Some(Flag::All)
    } else if str_eq(name, "almost-all") {
        Some(Flag::AlmostAll)
    } else if str_eq(name, "human-readable") {
        Some(Flag::HumanReadable)
    } else if str_eq(name, "recursive") {
        Some(Flag::Recursive)
    } else if str_eq(name, "directory") {
        Some(Flag::Directory)
    } else if str_eq(name, "classify") {
        Some(Flag::Classify)
    } else if str_eq(name, "reverse") {
        Some(Flag::Reverse)
    } else if str_eq(name, "explain") {
        Some(Flag::Explain)
    } else if str_eq(name, "teach") {
        Some(Flag::Teach)
    } else if str_eq(name, "native") {
        Some(Flag::Native)
    } else if str_eq(name, "powershell") || str_eq(name, "ps") {
        Some(Flag::UsePowershell)
    } else if str_eq(name, "cmd") {
        Some(Flag::UseCmd)
    } else if str_eq(name, "help") {
        Some(Flag::Help)
    } else if str_eq(name, "version") {
        Some(Flag::Version)
    } else if str_eq(name, "rosetta") || str_eq(name, "cheatsheet") {
        Some(Flag::Rosetta)
    } else if str_eq(name, "tree") {
        Some(Flag::Tree)
    } else {
        None
    }
}

/// The colour that a `--color` value selects.
fn color_value_of(value: Option<&str>) -> (r: Option<ColorOption>)
    ensures
        r == color_value(
            match value {
                Some(v) => Some(v@),
                None => None,
            },
        ),
{
    match value {
        None => Some(ColorOption::Auto),
        Some(v) => {
            if str_eq(v, "always") || str_eq(v, "yes") || str_eq(v, "force") {
                Some(ColorOption::Always)
            } else if str_eq(v, "never") || str_eq(v, "no") || str_eq(v, "none") {
                Some(ColorOption::Never)
            } else if str_eq(v, "auto") || str_eq(v, "tty") || str_eq(v, "if-tty") {
                Some(ColorOption::Auto)
            } else {
                None
            }
        },
    }
}

/// The error for the unknown short option at position `i` of `opt`.
fn unknown_short(opt: &str, i: usize) -> (e: String)
    requires
        i < opt@.len(),
    ensures
        e@ == "Unknown option: -"@ + seq![opt@[i as int]],
{
    let n = opt.unicode_len();
    assert(i < n);
    let mut e = String::from_str("Unknown option: -");
    let one = opt.substring_char(i, i + 1);
    assert(one@ =~= seq![opt@[i as int]]);
    e.append(one);
    e
}

impl LsArgs {
    /// Sets the flag `f`.
    fn set_flag(self, f: Flag, Ghost(m): Ghost<OptionSet>) -> (r: LsArgs)
        requires
            holds(&self, m),
        ensures
            holds(&r, with_flag(m, f)),
    {
        proof {
            reveal(with_flag);
        }
        LsArgs {
            long_format: self.long_format || f == Flag::LongFormat,
            all: self.all || f == Flag::All,
            almost_all: self.almost_all || f == Flag::AlmostAll,
            human_readable: self.human_readable || f == Flag::HumanReadable,
            one_per_line: self.one_per_line || f == Flag::OnePerLine,
            recursive: self.recursive || f == Flag::Recursive,
            directory: self.directory || f == Flag::Directory,
            classify: self.classify || f == Flag::Classify,
            show_size: self.show_size || f == Flag::ShowSize,
            sort_by_time: self.sort_by_time || f == Flag::SortByTime,
            sort_by_size: self.sort_by_size || f == Flag::SortBySize,
            reverse: self.reverse || f == Flag::Reverse,
            no_sort: self.no_sort || f == Flag::NoSort,
            explain: self.explain || f == Flag::Explain,
            teach: self.teach || f == Flag::Teach,
            native: self.native || f == Flag::Native,
            use_powershell: self.use_powershell || f == Flag::UsePowershell,
            use_cmd: self.use_cmd || f == Flag::UseCmd,
            help: self.help || f == Flag::Help,
            version: self.version || f == Flag::Version,
            rosetta: self.rosetta || f == Flag::Rosetta,
            tree: self.tree || f == Flag::Tree,
            color: self.color,
            paths: self.paths,
        }
    }

    /// Appends `p` to the paths.
    fn push_path(self, p: &String, Ghost(m): Ghost<OptionSet>) -> (r: LsArgs)
        requires
            holds(&self, m),
        ensures
            holds(&r, with_paths(m, m.paths.push(p@))),
    {
        let ghost old_paths = self.paths@;
        let mut a = self;
        a.paths.push(p.clone());
        proof {
            lemma_strings_view_push(old_paths, *p);
        }
        a
    }

    /// Gives `args` the current directory as its one path where it has none.
    fn with_default_path(args: LsArgs, Ghost(m): Ghost<OptionSet>) -> (r: LsArgs)
        requires
            holds(&args, m),
        ensures
            holds(&r, with_default_path(m)),
            r@ == with_default_path(args@),
    {
        proof {
            lemma_holds_view(&args, m);
        }
        let r = if args.paths.len() == 0 {
            proof {
                lemma_strings_view(args.paths@);
                assert(m.paths.push("."@) =~= seq!["."@]);
            }
            let dot = String::from_str(".");
            args.push_path(&dot, Ghost(m))
        } else {
            proof {
                lemma_strings_view(args.paths@);
            }
            args
        };
        proof {
            lemma_holds_view(&r, with_default_path(m));
        }
        r
    }

    /// Parses an argument list whose first element is the program name.
    pub fn parse(args: &Vec<String>) -> (r: Result<LsArgs, String>)
        ensures
            parse_result_view(r) == parse_model(strings_view(args@)),
            result_holds(r, parse_model(strings_view(args@))),
    {
        let r = Self::parse_fields(args);
        proof {
            lemma_result_view(r, parse_model(strings_view(args@)));
        }
        r
    }

    /// Parses an argument list, establishing the fields of the result.
    fn parse_fields(args: &Vec<String>) -> (r: Result<LsArgs, String>)
        ensures
            result_holds(r, parse_model(strings_view(args@))),
    {
        let ghost all = strings_view(args@);
        proof {
            lemma_strings_view(args@);
        }
        let result = LsArgs::default();
        let n = args.len();
        if n == 0 {
            return Ok(LsArgs::with_default_path(result, Ghost(empty_options())));
        }
        let ghost toks = all.skip(1);
        let ghost mut m = empty_options();
        let mut result = result;
        let mut i: usize = 1;
        assert(all.subrange(1, n as int) =~= toks);
        while i < n
            invariant
                all == strings_view(args@),
                n == args@.len(),
                all.len() == n,
                forall|k: int| 0 <= k < n ==> #[trigger] all[k] == args@[k]@,
                1 <= i <= n,
                toks == all.skip(1),
                holds(&result, m),
                parse_tokens(m, all.subrange(i as int, n as int)) == parse_tokens(
                    empty_options(),
                    toks,
                ),
            decreases n - i,
        {
            let arg = &args[i];
            let ghost rest = all.subrange(i as int, n as int);
            assert(rest[0] == arg@);
            assert(rest.skip(1) =~= all.subrange(i + 1, n as int));
            if str_eq(arg.as_str(), "--") {
                let mut j: usize = i + 1;
                let ghost start = m;
                let ghost mut mm = m;
                assert(start.paths + all.subrange(i + 1, i + 1) =~= start.paths);
                while j < n
                    invariant
                        all == strings_view(args@),
                        n == args@.len(),
                        all.len() == n,
                        forall|k: int| 0 <= k < n ==> #[trigger] all[k] == args@[k]@,
                        i < j <= n,
                        holds(&result, mm),
                        mm == with_paths(start, start.paths + all.subrange(i + 1, j as int)),
                    decreases n - j,
                {
                    result = result.push_path(&args[j], Ghost(mm));
                    assert(all.subrange(i + 1, j + 1) =~= all.subrange(i + 1, j as int).push(
                        all[j as int],
                    ));
                    proof {
                        mm = with_paths(mm, mm.paths.push(all[j as int]));
                    }
                    j = j + 1;
                }
                return Ok(LsArgs::with_default_path(result, Ghost(mm)));
            }
            match Self::parse_token(result, arg, Ghost(m)) {
                Ok(a) => {
                    proof {
                        m = match token_step(m, arg@) {
                            Ok(m2) => m2,
                            Err(_) => m,
                        };
                    }
                    result = a;
                },
                Err(e) => {
                    return Err(e);
                },
            }
            i = i + 1;
        }
        assert(all.subrange(n as int, n as int) =~= Seq::<Seq<char>>::empty());
        Ok(LsArgs::with_default_path(result, Ghost(m)))
    }

    /// Applies one token other than `--`.
    fn parse_token(args: LsArgs, arg: &String, Ghost(m): Ghost<OptionSet>) -> (r: Result<
        LsArgs,
        String,
    >)
        requires
            holds(&args, m),
        ensures
            result_holds(r, token_step(m, arg@)),
    {
        let t = arg.as_str();
        if t.unicode_len() >= 2 && t.get_char(0) == '-' && t.get_char(1) == '-' {
            proof {
                lemma_holds_view(&args, m);
            }
            Self::parse_long_option(args, t)
        } else if t.unicode_len() > 1 && t.get_char(0) == '-' {
            Self::parse_short_options(args, t, Ghost(m))
        } else {
            Ok(args.push_path(arg, Ghost(m)))
        }
    }

    /// Applies the long option `opt`, which starts with `--`.
    fn parse_long_option(args: LsArgs, opt: &str) -> (r: Result<LsArgs, String>)
        requires
            is_long(opt@),
        ensures
            parse_result_view(r) == long_option(args@, opt@.skip(2)),
            result_holds(r, long_option(args@, opt@.skip(2))),
    {
        proof {
            lemma_view_holds(&args);
        }
        let ghost m = args@;
        let r = Self::long_option_fields(args, opt, Ghost(m));
        proof {
            lemma_result_view(r, long_option(m, opt@.skip(2)));
        }
        r
    }

    /// Applies the long option `opt`, establishing the fields of the result.
    fn long_option_fields(args: LsArgs, opt: &str, Ghost(m): Ghost<OptionSet>) -> (r: Result<
        LsArgs,
        String,
    >)
        requires
            is_long(opt@),
            holds(&args, m),
        ensures
            result_holds(r, long_option(m, opt@.skip(2))),
    {
        let ghost body = opt@.skip(2);
        let n = opt.unicode_len();
        let mut p: usize = 2;
        while p < n && opt.get_char(p) != '='
            invariant
                n == opt@.len(),
                body == opt@.skip(2),
                body.len() == n - 2,
                2 <= p <= n,
                eq_from(body, p - 2) == eq_from(body, 0),
            decreases n - p,
        {
            p = p + 1;
        }
        assert(eq_from(body, p - 2) == p - 2);
        let name = opt.substring_char(2, p);
        assert(name@ =~= body.take(p - 2));
        let value = if p < n {
            let v = opt.substring_char(p + 1, n);
            assert(v@ =~= body.subrange(p - 2 + 1, body.len() as int));
            Some(v)
        } else {
            None
        };
        if str_eq(name, "color") {
            Self::apply_color(args, value, Ghost(m))
        } else {
            match long_flag_of(name) {
                Some(f) => Ok(args.set_flag(f, Ghost(m))),
                None => {
                    let mut e = String::from_str("Unknown option: --");
                    e.append(name);
                    Err(e)
                },
            }
        }
    }

    /// Applies `--color` with its inline value.
    fn apply_color(args: LsArgs, value: Option<&str>, Ghost(m): Ghost<OptionSet>) -> (r: Result<
        LsArgs,
        String,
    >)
        requires
            holds(&args, m),
        ensures
            result_holds(
                r,
                long_named(
                    m,
                    "color"@,
                    match value {
                        Some(v) => Some(v@),
                        None => None,
                    },
                ),
            ),
    {
        match color_value_of(value) {
            Some(c) => {
                let mut a = args;
                a.color = c;
                Ok(a)
            },
            None => {
                let mut e = String::from_str("Unknown color option: ");
                e.append(value.unwrap());
                Err(e)
            },
        }
    }

    /// Applies the bundle of short options `opt`, which starts with `-`.
    fn parse_short_options(args: LsArgs, opt: &str, Ghost(m): Ghost<OptionSet>) -> (r: Result<
        LsArgs,
        String,
    >)
        requires
            opt@.len() >= 1,
            holds(&args, m),
        ensures
            result_holds(r, short_bundle(m, opt@.skip(1))),
    {
        let ghost cs = opt@.skip(1);
        let ghost mut mc = m;
        let mut cur = args;
        let n = opt.unicode_len();
        let mut i: usize = 1;
        assert(opt@.subrange(1, n as int) =~= cs);
        while i < n
            invariant
                n == opt@.len(),
                cs == opt@.skip(1),
                1 <= i <= n,
                holds(&cur, mc),
                short_bundle(mc, opt@.subrange(i as int, n as int)) == short_bundle(m, cs),
            decreases n - i,
        {
            let c = opt.get_char(i);
            let ghost rest = opt@.subrange(i as int, n as int);
            assert(rest[0] == c);
            assert(rest.skip(1) =~= opt@.subrange(i + 1, n as int));
            match short_flag_of(c) {
                Some(f) => {
                    proof {
                        lemma_bundle_step(mc, rest);
                    }
                    cur = cur.set_flag(f, Ghost(mc));
                    proof {
                        mc = with_flag(mc, f);
                    }
                },
                None => {
                    proof {
                        lemma_bundle_unknown(mc, rest);
                    }
                    return Err(unknown_short(opt, i));
                },
            }
            i = i + 1;
        }
        proof {
            lemma_bundle_empty(mc, opt@.subrange(n as int, n as int));
        }
        Ok(cur)
    }
}

} // verus!
