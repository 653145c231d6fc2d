//! Choosing among options, preparing backend invocations, and reading what the
//! backends print.

use vstd::prelude::*;

use vstd::utf8::{decode_utf8, is_ascii_chars, valid_utf8};

use crate::external::{
    ansi_stripped, ascii_lowercase, lowercase, string_from_utf8, strip_ansi, to_lowercase,
};
use crate::text::{
    after_first, chars_eq, chars_of, has_prefix, has_prefix_at, join, joined, push_chars, push_str,
    replace, replaced, split_after_first, string_of, trim, trimmed, views,
};
use crate::theme::MacchinaTheme;
use crate::types::{Backend, Distro, NeofetchAsciiIndexedColor, RawAsciiArt, RecoloredAsciiArt};

verus! {

/// Sample ascii art, with a `{txt}` slot, for trying out colors.
pub const TEST_ASCII: &'static str = r####################"
### |\___/| ###
### )     ( ###
## =\     /= ##
#### )===( ####
### /     \ ###
### |     | ###
## / {txt} \ ##
## \       / ##
_/\_\_   _/_/\_
|##|  ( (  |##|
|##|   ) ) |##|
|##|  (_(  |##|
"####################;

/// The color codes that neofetch ascii art may hold.
pub const NEOFETCH_COLOR_PATTERNS: [&'static str; 6] = ["${c1}", "${c2}", "${c3}", "${c4}", "${c5}", "${c6}"];

/// `o` as the prompt shows it: underlined and bold when it is the default.
pub open spec fn option_label(o: Seq<char>, default: Seq<char>) -> Seq<char> {
    if o == default {
        "&l&n"@ + o + "&L&N"@
    } else {
        o
    }
}

/// The prompt of a choice among `options`.
pub open spec fn prompt_text(
    prompt: Seq<char>,
    options: Seq<Seq<char>>,
    default: Seq<char>,
    show_options: bool,
) -> Seq<char> {
    if show_options {
        prompt + " ("@ + joined(options.map_values(|o: Seq<char>| option_label(o, default)), "|"@)
            + ")"@
    } else {
        prompt + " (default: "@ + default + ")"@
    }
}

/// The prompt that asks the user to choose among `options`: either all options
/// with the default marked, or only the default.
pub fn literal_input_prompt(
    prompt: &str,
    options: &Vec<String>,
    default: &str,
    show_options: bool,
) -> (r: String)
    ensures
        r@ == prompt_text(prompt@, views(options@), default@, show_options),
{
    let mut out = chars_of(prompt);
    if show_options {
        let d = chars_of(default);
        let mut labels: Vec<String> = Vec::new();
        for i in 0..options.len()
            invariant
                d@ == default@,
                labels@.len() == i,
                forall|j: int|
                    0 <= j < i ==> #[trigger] labels@[j]@ == option_label(
                        options@[j]@,
                        default@,
                    ),
        {
            let o = chars_of(options[i].as_str());
            if chars_eq(&o, &d) {
                let mut l = chars_of("&l&n");
                push_chars(&mut l, &o);
                push_str(&mut l, "&L&N");
                labels.push(string_of(&l));
            } else {
                labels.push(string_of(&o));
            }
        }
        let ghost ls = views(options@).map_values(|o: Seq<char>| option_label(o, default@));
        assert(views(labels@) =~= ls);
        let text = join(&labels, "|");
        push_str(&mut out, " (");
        push_chars(&mut out, &text);
        push_str(&mut out, ")");
    } else {
        push_str(&mut out, " (default: ");
        push_str(&mut out, default);
        push_str(&mut out, ")");
    }
    string_of(&out)
}

/// What the user's answer stands for: the default when it is empty, else the
/// answer in lower case.
pub open spec fn normalized_selection(selection: Seq<char>, default: Seq<char>) -> Seq<char> {
    if selection.len() == 0 {
        default
    } else {
        lowercase(selection)
    }
}

/// The answer that the choice goes by.
pub fn normalize_selection(selection: &str, default: &str) -> (r: String)
    ensures
        r@ == normalized_selection(selection@, default@),
        selection@.len() > 0 && is_ascii_chars(selection@) ==> r@ == ascii_lowercase(selection@),
{
    if selection.is_empty() {
        String::from_str(default)
    } else {
        to_lowercase(selection)
    }
}

/// For each ASCII option, the lower case that the choice compares with is
/// the ASCII one.
pub open spec fn ascii_lowercase_known(options: Seq<Seq<char>>) -> bool {
    forall|j: int|
        0 <= j < options.len() && is_ascii_chars(#[trigger] options[j]) ==> lowercase(options[j])
            == ascii_lowercase(options[j])
}

/// Option `o` is exactly what was selected (case aside).
pub open spec fn exact_match(o: Seq<char>, sel: Seq<char>) -> bool {
    lowercase(o) == sel
}

/// The selection abbreviates option `o` (case aside).
pub open spec fn abbreviates(o: Seq<char>, sel: Seq<char>) -> bool {
    has_prefix(lowercase(o), sel)
}

/// `r` is the option that `sel` selects: the first exact match, or when there is
/// none the first option that `sel` abbreviates; nothing for an empty `sel`.
pub open spec fn is_selection(sel: Seq<char>, options: Seq<Seq<char>>, r: Option<int>) -> bool {
    match r {
        Some(i) => {
            &&& sel.len() > 0
            &&& 0 <= i < options.len()
            &&& {
                ||| exact_match(options[i], sel) && forall|j: int|
                    0 <= j < i ==> !exact_match(#[trigger] options[j], sel)
                ||| {
                    &&& forall|j: int| 0 <= j < options.len() ==> !exact_match(#[trigger] options[j], sel)
                    &&& abbreviates(options[i], sel)
                    &&& forall|j: int| 0 <= j < i ==> !abbreviates(#[trigger] options[j], sel)
                }
            }
        },
        None => sel.len() == 0 || forall|j: int|
            0 <= j < options.len() ==> !abbreviates(#[trigger] options[j], sel),
    }
}

/// The index of the option that `sel` selects: an exact match (case aside)
/// first, else an option that starts with `sel`.
pub fn find_selection(sel: &str, options: &Vec<String>) -> (r: Option<usize>)
    ensures
        is_selection(sel@, views(options@), match r {
            Some(i) => Some(i as int),
            None => None,
        }),
        ascii_lowercase_known(views(options@)),
{
    let ghost opts = views(options@);
    let mut lowered: Vec<Vec<char>> = Vec::new();
    for i in 0..options.len()
        invariant
            opts == views(options@),
            lowered@.len() == i,
            forall|j: int| 0 <= j < i ==> #[trigger] lowered@[j]@ == lowercase(opts[j]),
            forall|j: int|
                0 <= j < i && is_ascii_chars(#[trigger] opts[j]) ==> lowercase(opts[j])
                    == ascii_lowercase(opts[j]),
    {
        assert(opts[i as int] == options@[i as int]@);
        lowered.push(chars_of(to_lowercase(options[i].as_str()).as_str()));
    }
    if sel.is_empty() {
        return None;
    }
    let s = chars_of(sel);
    for i in 0..options.len()
        invariant
            opts == views(options@),
            s@ == sel@,
            sel@.len() > 0,
            lowered@.len() == options@.len(),
            forall|j: int| 0 <= j < options@.len() ==> #[trigger] lowered@[j]@ == lowercase(opts[j]),
            ascii_lowercase_known(opts),
            forall|j: int| 0 <= j < i ==> !exact_match(#[trigger] opts[j], sel@),
    {
        if chars_eq(&lowered[i], &s) {
            return Some(i);
        }
    }
    for i in 0..options.len()
        invariant
            opts == views(options@),
            s@ == sel@,
            sel@.len() > 0,
            lowered@.len() == options@.len(),
            forall|j: int| 0 <= j < options@.len() ==> #[trigger] lowered@[j]@ == lowercase(opts[j]),
            ascii_lowercase_known(opts),
            forall|j: int| 0 <= j < options@.len() ==> !exact_match(#[trigger] opts[j], sel@),
            forall|j: int| 0 <= j < i ==> !abbreviates(#[trigger] opts[j], sel@),
    {
        let b = has_prefix_at(&lowered[i], 0, &s);
        assert(lowered@[i as int]@.skip(0) =~= lowered@[i as int]@);
        if b {
            return Some(i);
        }
    }
    None
}

/// The message shown when the answer selects no option.
pub open spec fn invalid_selection_text(sel: Seq<char>, options: Seq<Seq<char>>) -> Seq<char> {
    "Invalid selection! "@ + sel + " is not one of "@ + joined(options, "|"@)
}

/// The message shown when `selection` selects none of `options`.
pub fn invalid_selection_message(selection: &str, options: &Vec<String>) -> (r: String)
    ensures
        r@ == invalid_selection_text(selection@, views(options@)),
{
    let mut out = chars_of("Invalid selection! ");
    push_str(&mut out, selection);
    push_str(&mut out, " is not one of ");
    let text = join(options, "|");
    push_chars(&mut out, &text);
    string_of(&out)
}

/// One round of asking: the index of the option that the raw answer selects,
/// or the message to show before asking again.
pub fn literal_input_choice(raw: &str, options: &Vec<String>, default: &str) -> (r: Result<
    usize,
    String,
>)
    ensures
        ({
            let sel = normalized_selection(raw@, default@);
            match r {
                Ok(i) => is_selection(sel, views(options@), Some(i as int)),
                Err(msg) => {
                    &&& is_selection(sel, views(options@), None)
                    &&& msg@ == invalid_selection_text(sel, views(options@))
                },
            }
        }),
        raw@.len() > 0 && is_ascii_chars(raw@) ==> normalized_selection(raw@, default@)
            == ascii_lowercase(raw@),
        ascii_lowercase_known(views(options@)),
{
    let sel = normalize_selection(raw, default);
    match find_selection(sel.as_str(), options) {
        Some(i) => Ok(i),
        None => Err(invalid_selection_message(sel.as_str(), options)),
    }
}


/// An argument of a backend command line.
pub enum CommandArg {
    /// This text.
    Text(String),
    /// The path of the temporary file that holds the ascii art.
    AsciiFile,
    /// The name of the macchina theme file (its file stem).
    ThemeName,
}

/// The mathematical value of a [`CommandArg`].
pub enum CommandArgView {
    Text(Seq<char>),
    AsciiFile,
    ThemeName,
}

impl View for CommandArg {
    type V = CommandArgView;

    open spec fn view(&self) -> CommandArgView {
        match self {
            CommandArg::Text(s) => CommandArgView::Text(s@),
            CommandArg::AsciiFile => CommandArgView::AsciiFile,
            CommandArg::ThemeName => CommandArgView::ThemeName,
        }
    }
}

/// A backend invocation to carry out: write the ascii file and the theme
/// file when asked for, then run the backend with the arguments.
pub struct BackendCommand {
    pub backend: Backend,
    /// The contents of a temporary ascii art file to write first.
    pub ascii_file: Option<String>,
    /// The macchina theme to write after the ascii file (it names its path).
    pub theme: Option<MacchinaTheme>,
    pub args: Vec<CommandArg>,
}

/// The mathematical value of a [`BackendCommand`].
pub struct BackendCommandView {
    pub backend: Backend,
    pub ascii_file: Option<Seq<char>>,
    pub theme: Option<MacchinaTheme>,
    pub args: Seq<CommandArgView>,
}

impl View for BackendCommand {
    type V = BackendCommandView;

    open spec fn view(&self) -> BackendCommandView {
        BackendCommandView {
            backend: self.backend,
            ascii_file: match self.ascii_file {
                Some(s) => Some(s@),
                None => None,
            },
            theme: self.theme,
            args: self.args@.map_values(|a: CommandArg| a@),
        }
    }
}

/// Plain text arguments.
pub open spec fn text_args(args: Seq<Seq<char>>) -> Seq<CommandArgView> {
    args.map_values(|a: Seq<char>| CommandArgView::Text(a))
}

/// The user's extra arguments, if any.
pub open spec fn extra_args(args: Option<Seq<String>>) -> Seq<CommandArgView> {
    match args {
        Some(a) => text_args(views(a)),
        None => Seq::empty(),
    }
}

/// Ascii art escaped for neofetch, which reads it through `printf`: each
/// backslash doubled.
pub open spec fn escaped_for_neofetch(asc: Seq<char>) -> Seq<char> {
    replaced(asc, "\\"@, "\\\\"@)
}

/// Ascii art printed by neofetch, with its doubled backslashes undone.
pub open spec fn unescaped_from_neofetch(asc: Seq<char>) -> Seq<char> {
    replaced(asc, "\\\\"@, "\\"@)
}

/// How the backend is run to show the system information beside `lines`.
pub open spec fn run_command(
    lines: Seq<Seq<char>>,
    backend: Backend,
    extra: Seq<CommandArgView>,
) -> BackendCommandView {
    let asc = joined(lines, "\n"@);
    match backend {
        Backend::Neofetch => BackendCommandView {
            backend,
            ascii_file: Some(escaped_for_neofetch(asc)),
            theme: None,
            args: seq![
                CommandArgView::Text("--ascii"@),
                CommandArgView::Text("--source"@),
                CommandArgView::AsciiFile,
                CommandArgView::Text("--ascii_colors"@),
            ] + extra,
        },
        Backend::Fastfetch => BackendCommandView {
            backend,
            ascii_file: Some(asc),
            theme: None,
            args: seq![CommandArgView::Text("--file-raw"@), CommandArgView::AsciiFile] + extra,
        },
        Backend::Macchina => BackendCommandView {
            backend,
            ascii_file: Some(asc),
            theme: Some(MacchinaTheme::Display),
            args: seq![CommandArgView::Text("--theme"@), CommandArgView::ThemeName] + extra,
        },
    }
}

fn text_arg(s: &str) -> (a: CommandArg)
    ensures
        a@ == CommandArgView::Text(s@),
{
    CommandArg::Text(String::from_str(s))
}

/// Appends the user's extra arguments.
fn push_extra_args(out: &mut Vec<CommandArg>, extra: Option<&Vec<String>>)
    ensures
        final(out)@.map_values(|a: CommandArg| a@) == old(out)@.map_values(|a: CommandArg| a@)
            + extra_args(match extra {
            Some(v) => Some(v@),
            None => None,
        }),
{
    let ghost before = out@.map_values(|a: CommandArg| a@);
    match extra {
        Some(v) => {
            let ghost ex = text_args(views(v@));
            for i in 0..v.len()
                invariant
                    ex == text_args(views(v@)),
                    out@.map_values(|a: CommandArg| a@) == before + ex.take(i as int),
            {
                let item = v[i].clone();
                assert(ex[i as int] == CommandArgView::Text(v@[i as int]@));
                let ghost prev = out@;
                out.push(CommandArg::Text(item));
                assert(out@.map_values(|a: CommandArg| a@) =~= prev.map_values(|a: CommandArg| a@).push(
                    CommandArgView::Text(item@),
                ));
                assert(ex.take(i + 1) =~= ex.take(i as int).push(ex[i as int]));
            }
            assert(ex.take(v.len() as int) =~= ex);
        },
        None => {
        },
    }
}

/// Runs the backend with custom ascii art: the invocation to carry out. The
/// art's lines are joined with newlines; neofetch gets it with backslashes
/// doubled, macchina through a theme file.
pub fn run(asc: RecoloredAsciiArt, backend: Backend, args: Option<&Vec<String>>) -> (r: BackendCommand)
    ensures
        r@ == run_command(views(asc.lines@), backend, extra_args(match args {
            Some(v) => Some(v@),
            None => None,
        })),
{
    let joined_art = join(&asc.lines, "\n");
    let mut out: Vec<CommandArg> = Vec::new();
    let r = match backend {
        Backend::Neofetch => {
            let bs = chars_of("\\");
            let bs2 = chars_of("\\\\");
            proof {
                reveal_strlit("\\");
            }
            let escaped = replace(&joined_art, &bs, &bs2);
            out.push(text_arg("--ascii"));
            out.push(text_arg("--source"));
            out.push(CommandArg::AsciiFile);
            out.push(text_arg("--ascii_colors"));
            push_extra_args(&mut out, args);
            BackendCommand {
                backend,
                ascii_file: Some(string_of(&escaped)),
                theme: None,
                args: out,
            }
        },
        Backend::Fastfetch => {
            out.push(text_arg("--file-raw"));
            out.push(CommandArg::AsciiFile);
            push_extra_args(&mut out, args);
            BackendCommand {
                backend,
                ascii_file: Some(string_of(&joined_art)),
                theme: None,
                args: out,
            }
        },
        Backend::Macchina => {
            out.push(text_arg("--theme"));
            out.push(CommandArg::ThemeName);
            push_extra_args(&mut out, args);
            BackendCommand {
                backend,
                ascii_file: Some(string_of(&joined_art)),
                theme: Some(MacchinaTheme::Display),
                args: out,
            }
        },
    };
    assert(r@.args =~= run_command(views(asc.lines@), backend, extra_args(match args {
        Some(v) => Some(v@),
        None => None,
    })).args);
    r
}


/// How the backend is asked for the name of the running distro.
pub open spec fn distro_name_command_of(backend: Backend, is_linux: bool) -> BackendCommandView {
    match backend {
        Backend::Neofetch => BackendCommandView {
            backend,
            ascii_file: None,
            theme: None,
            args: seq![CommandArgView::Text("ascii_distro_name"@)],
        },
        Backend::Fastfetch => BackendCommandView {
            backend,
            ascii_file: None,
            theme: None,
            args: text_args(seq!["--logo"@, "none"@, "-c"@, "none"@, "-s"@, "OS"@]),
        },
        Backend::Macchina => BackendCommandView {
            backend,
            ascii_file: Some("\t\n\t\n"@),
            theme: Some(MacchinaTheme::DistroQuery),
            args: seq![
                CommandArgView::Text("--show"@),
                CommandArgView::Text(
                    if is_linux {
                        "distribution"@
                    } else {
                        "operating-system"@
                    },
                ),
                CommandArgView::Text("--theme"@),
                CommandArgView::ThemeName,
            ],
        },
    }
}

/// The invocation that asks `backend` for the distro name; macchina is asked
/// for the distribution on Linux and for the operating system elsewhere.
pub fn distro_name_command(backend: Backend, is_linux: bool) -> (r: BackendCommand)
    ensures
        r@ == distro_name_command_of(backend, is_linux),
{
    let r = match backend {
        Backend::Neofetch => BackendCommand {
            backend,
            ascii_file: None,
            theme: None,
            args: vec![text_arg("ascii_distro_name")],
        },
        Backend::Fastfetch => BackendCommand {
            backend,
            ascii_file: None,
            theme: None,
            args: vec![
                text_arg("--logo"),
                text_arg("none"),
                text_arg("-c"),
                text_arg("none"),
                text_arg("-s"),
                text_arg("OS"),
            ],
        },
        Backend::Macchina => BackendCommand {
            backend,
            ascii_file: Some(String::from_str("\t\n\t\n")),
            theme: Some(MacchinaTheme::DistroQuery),
            args: vec![
                text_arg("--show"),
                text_arg(
                    if is_linux {
                        "distribution"
                    } else {
                        "operating-system"
                    },
                ),
                text_arg("--theme"),
                CommandArg::ThemeName,
            ],
        },
    };
    assert(r@.args =~= distro_name_command_of(backend, is_linux).args);
    r
}

/// The distro name in what the backend printed.
pub open spec fn distro_name_in_output(backend: Backend, output: Seq<char>) -> Seq<char> {
    match backend {
        Backend::Neofetch => output,
        Backend::Fastfetch => replaced(output, "OS: "@, ""@),
        Backend::Macchina => trimmed(after_first(trimmed(ansi_stripped(output)), '-')),
    }
}

/// Gets the distro name out of what `backend` printed for
/// [`distro_name_command`]: neofetch prints just the name, fastfetch an
/// `OS: ` line, macchina a line whose name follows the first `-`.
pub fn distro_name_from_output(backend: Backend, output: &str) -> (r: String)
    ensures
        r@ == distro_name_in_output(backend, output@),
{
    match backend {
        Backend::Neofetch => String::from_str(output),
        Backend::Fastfetch => {
            let pat = chars_of("OS: ");
            let empty = chars_of("");
            proof {
                reveal_strlit("OS: ");
            }
            let out = chars_of(output);
            string_of(&replace(&out, &pat, &empty))
        },
        Backend::Macchina => {
            let stripped = strip_ansi(output);
            let t = trim(&chars_of(stripped.as_str()));
            let tail = split_after_first(&t, '-');
            string_of(&trim(&tail))
        },
    }
}

/// The text of a backend's standard output: decoded as UTF-8 and trimmed;
/// nothing when the bytes are not valid UTF-8.
pub fn command_output_text(stdout: Vec<u8>) -> (r: Option<String>)
    ensures
        r is Some <==> valid_utf8(stdout@),
        r matches Some(t) ==> t@ == trimmed(decode_utf8(stdout@)),
{
    match string_from_utf8(stdout) {
        Some(s) => Some(string_of(&trim(&chars_of(s.as_str())))),
        None => None,
    }
}

/// The environment variables that the backend runs with: fastfetch is told
/// not to look at its parent process.
pub open spec fn backend_env_of(backend: Backend) -> Seq<(Seq<char>, Seq<char>)> {
    match backend {
        Backend::Fastfetch => seq![("FFTS_IGNORE_PARENT"@, "1"@)],
        _ => Seq::empty(),
    }
}

/// The environment variables to set when running `backend`.
pub fn backend_env(backend: Backend) -> (r: Vec<(String, String)>)
    ensures
        r@.map_values(|e: (String, String)| (e.0@, e.1@)) == backend_env_of(backend),
{
    let r = match backend {
        Backend::Fastfetch => vec![(String::from_str("FFTS_IGNORE_PARENT"), String::from_str("1"))],
        _ => Vec::new(),
    };
    assert(r@.map_values(|e: (String, String)| (e.0@, e.1@)) =~= backend_env_of(backend));
    r
}


/// Gets the color indices that should be considered as foreground, for a
/// particular distro's ascii art. Every index of the distro database is a
/// valid neofetch color index.
pub fn ascii_foreground(distro: &Distro) -> (r: Vec<NeofetchAsciiIndexedColor>)
    requires
        forall|i: int|
            0 <= i < distro.foreground@.len() ==> 1 <= #[trigger] distro.foreground@[i] <= 6,
    ensures
        r@.len() == distro.foreground@.len(),
        forall|i: int| 0 <= i < r@.len() ==> #[trigger] r@[i].spec_index() == distro.foreground@[i],
{
    let mut r: Vec<NeofetchAsciiIndexedColor> = Vec::new();
    for i in 0..distro.foreground.len()
        invariant
            forall|j: int|
                0 <= j < distro.foreground@.len() ==> 1 <= #[trigger] distro.foreground@[j] <= 6,
            r@.len() == i,
            forall|j: int| 0 <= j < i ==> #[trigger] r@[j].spec_index() == distro.foreground@[j],
    {
        let c = NeofetchAsciiIndexedColor::new(distro.foreground[i]);
        match c {
            Some(c) => r.push(c),
            None => {
                assert(false);
            },
        }
    }
    r
}

/// The ascii art of a distro found in the distro database.
pub fn ascii_from_distro(distro: &Distro) -> (r: RawAsciiArt)
    requires
        forall|i: int|
            0 <= i < distro.foreground@.len() ==> 1 <= #[trigger] distro.foreground@[i] <= 6,
    ensures
        r.asc@ == distro.ascii_art@,
        r.fg@.len() == distro.foreground@.len(),
        forall|i: int|
            0 <= i < r.fg@.len() ==> #[trigger] r.fg@[i].spec_index() == distro.foreground@[i],
{
    RawAsciiArt { asc: distro.ascii_art.clone(), fg: ascii_foreground(distro) }
}

/// How neofetch is asked for the ascii art of a distro it knows by name.
pub open spec fn neofetch_ascii_command_of(distro_name: Seq<char>) -> BackendCommandView {
    BackendCommandView {
        backend: Backend::Neofetch,
        ascii_file: None,
        theme: None,
        args: text_args(seq!["print_ascii"@, "--ascii_distro"@, distro_name]),
    }
}

/// The invocation that makes neofetch print the ascii art of `distro_name`,
/// for distros that are not in the distro database.
pub fn neofetch_ascii_command(distro_name: &str) -> (r: BackendCommand)
    ensures
        r@ == neofetch_ascii_command_of(distro_name@),
{
    let r = BackendCommand {
        backend: Backend::Neofetch,
        ascii_file: None,
        theme: None,
        args: vec![text_arg("print_ascii"), text_arg("--ascii_distro"), text_arg(distro_name)],
    };
    assert(r@.args =~= neofetch_ascii_command_of(distro_name@).args);
    r
}

/// The ascii art that neofetch printed, backslashes unescaped (neofetch
/// escapes them for `printf`), with no foreground colors.
pub fn ascii_from_neofetch(output: &str) -> (r: RawAsciiArt)
    ensures
        r.asc@ == unescaped_from_neofetch(output@),
        r.fg@.len() == 0,
{
    let bs = chars_of("\\");
    let bs2 = chars_of("\\\\");
    proof {
        reveal_strlit("\\\\");
    }
    let asc = replace(&chars_of(output), &bs2, &bs);
    RawAsciiArt { asc: string_of(&asc), fg: Vec::new() }
}

/// Where a directory added to `PATH` lies.
pub enum PathBase {
    /// The directory above the one that holds the running executable.
    InstallDir,
    /// This directory, relative to the working directory.
    Relative(String),
}

/// The directories of the PyPI package that are added to `PATH`, in order:
/// under the install directory when there is one, then under `./hyfetch`.
pub open spec fn pkg_path_entries(has_install_dir: bool) -> Seq<(Option<Seq<char>>, Seq<char>)> {
    let subdirs = seq!["git"@, "fastfetch"@, "scripts"@, "fastfetch/usr/bin"@];
    let in_install = subdirs.map_values(|d: Seq<char>| (None::<Seq<char>>, d));
    let in_cwd = subdirs.map_values(|d: Seq<char>| (Some("hyfetch"@), d));
    if has_install_dir {
        in_install + in_cwd
    } else {
        in_cwd
    }
}

/// The base of a `PATH` addition, `None` for the install directory.
pub open spec fn base_view(b: PathBase) -> Option<Seq<char>> {
    match b {
        PathBase::InstallDir => None,
        PathBase::Relative(s) => Some(s@),
    }
}

/// The directories to add to `PATH` so that the commands inside the PyPI
/// package are found: each a base and a relative path under it.
pub fn pkg_path_additions(has_install_dir: bool) -> (r: Vec<(PathBase, String)>)
    ensures
        r@.map_values(|e: (PathBase, String)| (base_view(e.0), e.1@)) == pkg_path_entries(
            has_install_dir,
        ),
{
    let mut r: Vec<(PathBase, String)> = Vec::new();
    if has_install_dir {
        r.push((PathBase::InstallDir, String::from_str("git")));
        r.push((PathBase::InstallDir, String::from_str("fastfetch")));
        r.push((PathBase::InstallDir, String::from_str("scripts")));
        r.push((PathBase::InstallDir, String::from_str("fastfetch/usr/bin")));
    }
    r.push((PathBase::Relative(String::from_str("hyfetch")), String::from_str("git")));
    r.push((PathBase::Relative(String::from_str("hyfetch")), String::from_str("fastfetch")));
    r.push((PathBase::Relative(String::from_str("hyfetch")), String::from_str("scripts")));
    r.push(
        (PathBase::Relative(String::from_str("hyfetch")), String::from_str("fastfetch/usr/bin")),
    );
    assert(r@.map_values(|e: (PathBase, String)| (base_view(e.0), e.1@)) =~= pkg_path_entries(
        has_install_dir,
    ));
    r
}

/// Which bash runs neofetch on Windows: the one found in `PATH` unless it is
/// WSL's or MSYS's, else one found beside Git, else the one in `PATH` anyway.
pub open spec fn chosen_bash(
    in_path: Option<Seq<char>>,
    is_wsl: bool,
    is_msys: bool,
    beside_git: Option<Seq<char>>,
) -> Option<Seq<char>> {
    if in_path is Some && !is_wsl && !is_msys {
        in_path
    } else if beside_git is Some {
        beside_git
    } else {
        in_path
    }
}

/// Whether the bash found beside Git is needed to choose (otherwise it need
/// not be looked for).
pub fn bash_needs_git_search(in_path: &Option<String>, is_wsl: bool, is_msys: bool) -> (r: bool)
    ensures
        r == !(in_path is Some && !is_wsl && !is_msys),
{
    !(in_path.is_some() && !is_wsl && !is_msys)
}

/// Chooses the bash that runs neofetch on Windows; nothing when none was found.
pub fn choose_bash(
    in_path: Option<String>,
    is_wsl: bool,
    is_msys: bool,
    beside_git: Option<String>,
) -> (r: Option<String>)
    ensures
        (match r {
            Some(s) => Some(s@),
            None => None::<Seq<char>>,
        }) == chosen_bash(
            match in_path {
                Some(s) => Some(s@),
                None => None,
            },
            is_wsl,
            is_msys,
            match beside_git {
                Some(s) => Some(s@),
                None => None,
            },
        ),
{
    if in_path.is_some() && !is_wsl && !is_msys {
        in_path
    } else if beside_git.is_some() {
        beside_git
    } else {
        in_path
    }
}

/// The bash executables to look for beside Git, in order: for each of the
/// first `levels` directories above `git.exe` (0 is the one holding it),
/// `bin\bash.exe` before `usr\bin\bash.exe`.
pub open spec fn git_bash_candidates_of(levels: nat) -> Seq<(int, Seq<char>)>
    decreases levels,
{
    if levels == 0 {
        Seq::empty()
    } else {
        let k = levels - 1;
        git_bash_candidates_of(k as nat).push((k, "bin\\bash.exe"@)).push(
            (k, "usr\\bin\\bash.exe"@),
        )
    }
}

/// Where to look for bash beside `git.exe` when that many directories lie
/// above it: at most the first three of them are searched. Each entry is the
/// directory (0 for the one holding `git.exe`) and a path under it.
pub fn git_bash_candidates(ancestors: usize) -> (r: Vec<(usize, String)>)
    ensures
        r@.map_values(|e: (usize, String)| (e.0 as int, e.1@)) == git_bash_candidates_of(
            if ancestors < 3 {
                ancestors as nat
            } else {
                3
            },
        ),
{
    let levels: usize = if ancestors < 3 {
        ancestors
    } else {
        3
    };
    let mut r: Vec<(usize, String)> = Vec::new();
    for k in 0..levels
        invariant
            r@.map_values(|e: (usize, String)| (e.0 as int, e.1@)) == git_bash_candidates_of(
                k as nat,
            ),
    {
        let ghost before = r@;
        r.push((k, String::from_str("bin\\bash.exe")));
        r.push((k, String::from_str("usr\\bin\\bash.exe")));
        assert(r@.map_values(|e: (usize, String)| (e.0 as int, e.1@)) =~= before.map_values(
            |e: (usize, String)| (e.0 as int, e.1@),
        ).push((k as int, "bin\\bash.exe"@)).push((k as int, "usr\\bin\\bash.exe"@)));
    }
    r
}

/// `s` with every backslash turned into a forward slash, as bash on Windows
/// needs paths and arguments.
pub fn to_forward_slashes(s: &str) -> (r: String)
    ensures
        r@ == replaced(s@, "\\"@, "/"@),
{
    let bs = chars_of("\\");
    let fs = chars_of("/");
    proof {
        reveal_strlit("\\");
    }
    string_of(&replace(&chars_of(s), &bs, &fs))
}

} // verus!
