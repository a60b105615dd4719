//! The command line: which command the arguments select, the options of a
//! conversion, and the check that a path argument is not a flag.

use vstd::prelude::*;
use vstd::string::{StrSliceExecFns, StringExecFns};

verus! {

/// Unicode `White_Space`, the characters that `str::trim` removes.
pub open spec fn is_white_space(c: char) -> bool {
    ||| '\u{9}' <= c <= '\u{d}'
    ||| c == ' '
    ||| c == '\u{85}'
    ||| c == '\u{a0}'
    ||| c == '\u{1680}'
    ||| '\u{2000}' <= c <= '\u{200a}'
    ||| c == '\u{2028}'
    ||| c == '\u{2029}'
    ||| c == '\u{202f}'
    ||| c == '\u{205f}'
    ||| c == '\u{3000}'
}

/// `s` without its leading white space.
pub open spec fn trim_start(s: Seq<char>) -> Seq<char>
    decreases s.len(),
{
    if s.len() > 0 && is_white_space(s[0]) {
        trim_start(s.drop_first())
    } else {
        s
    }
}

/// `s` without its trailing white space.
pub open spec fn trim_end(s: Seq<char>) -> Seq<char>
    decreases s.len(),
{
    if s.len() > 0 && is_white_space(s.last()) {
        trim_end(s.drop_last())
    } else {
        s
    }
}

/// `s` without leading and trailing white space.
pub open spec fn trimmed(s: Seq<char>) -> Seq<char> {
    trim_end(trim_start(s))
}

/// Whether `c` is Unicode white space.
pub fn is_white_space_char(c: char) -> (r: bool)
    ensures
        r == is_white_space(c),
{
    ('\u{9}' <= c && c <= '\u{d}') || c == ' ' || c == '\u{85}' || c == '\u{a0}' || c == '\u{1680}'
        || ('\u{2000}' <= c && c <= '\u{200a}') || c == '\u{2028}' || c == '\u{2029}' || c
        == '\u{202f}' || c == '\u{205f}' || c == '\u{3000}'
}

proof fn lemma_trim_start_skip(s: Seq<char>, i: int)
    requires
        0 <= i <= s.len(),
        forall|k: int| 0 <= k < i ==> is_white_space(#[trigger] s[k]),
    ensures
        trim_start(s) == trim_start(s.skip(i)),
    decreases i,
{
    if i == 0 {
        assert(s.skip(0) =~= s);
    } else {
        lemma_trim_start_skip(s, i - 1);
        let t = s.skip(i - 1);
        assert(t[0] == s[i - 1]);
        assert(t.drop_first() =~= s.skip(i));
    }
}

proof fn lemma_trim_end_take(s: Seq<char>, j: int)
    requires
        0 <= j <= s.len(),
        forall|k: int| j <= k < s.len() ==> is_white_space(#[trigger] s[k]),
    ensures
        trim_end(s) == trim_end(s.take(j)),
    decreases s.len() - j,
{
    if j == s.len() {
        assert(s.take(j) =~= s);
    } else {
        lemma_trim_end_take(s, j + 1);
        let t = s.take(j + 1);
        assert(t.last() == s[j]);
        assert(t.drop_last() =~= s.take(j));
    }
}

/// `s` without leading and trailing Unicode white space.
pub fn trim_str(s: &str) -> (r: String)
    ensures
        r@ == trimmed(s@),
{
    let len = s.unicode_len();
    let mut i: usize = 0;
    while i < len && is_white_space_char(s.get_char(i))
        invariant
            i <= len,
            len == s@.len(),
            forall|k: int| 0 <= k < i ==> is_white_space(#[trigger] s@[k]),
        decreases len - i,
    {
        i += 1;
    }
    let mut j: usize = len;
    while j > i && is_white_space_char(s.get_char(j - 1))
        invariant
            i <= j <= len,
            len == s@.len(),
            forall|k: int| j <= k < len ==> is_white_space(#[trigger] s@[k]),
        decreases j - i,
    {
        j -= 1;
    }
    proof {
        let x = s@;
        lemma_trim_start_skip(x, i as int);
        let t = x.skip(i as int);
        if i < len {
            assert(!is_white_space(x[i as int]));
            assert(trim_start(t) == t);
        } else {
            assert(t.len() == 0);
        }
        assert(trim_start(x) == t);
        lemma_trim_end_take(t, j - i);
        assert forall|k: int| j - i <= k < t.len() implies is_white_space(#[trigger] t[k]) by {
            assert(t[k] == x[k + i]);
        }
        let u = t.take(j - i);
        if j > i {
            assert(u.last() == x[j - 1]);
            assert(trim_end(u) == u);
        } else {
            assert(u.len() == 0);
        }
        assert(u =~= x.subrange(i as int, j as int));
    }
    let sub = s.substring_char(i, j);
    String::from_str(sub)
}

/// Whether two strings hold the same characters.
pub fn str_eq(a: &str, b: &str) -> (r: bool)
    ensures
        r == (a@ == b@),
{
    let n = a.unicode_len();
    if n != b.unicode_len() {
        return false;
    }
    let mut i: usize = 0;
    while i < n
        invariant
            i <= n,
            n == a@.len(),
            n == b@.len(),
            forall|k: int| 0 <= k < i ==> a@[k] == b@[k],
        decreases n - i,
    {
        if a.get_char(i) != b.get_char(i) {
            return false;
        }
        i += 1;
    }
    assert(a@ =~= b@);
    true
}

/// Whether `s` starts with the character `c`.
pub fn starts_with_char(s: &str, c: char) -> (r: bool)
    ensures
        r == (s@.len() > 0 && s@[0] == c),
{
    s.unicode_len() > 0 && s.get_char(0) == c
}

/// The message for a path argument that is empty.
pub open spec fn empty_path_message(role: Seq<char>) -> Seq<char> {
    role + " path is empty"@
}

/// The message for a path argument that looks like a flag.
pub open spec fn flag_path_message(role: Seq<char>, p: Seq<char>) -> Seq<char> {
    role + " was \""@ + p
        + "\", which looks like a flag, not a file.\nPut the .brstm path immediately after the subcommand.\n\nExamples:\nbrstm_speed_tool --loop-preview mysong.brstm\nbrstm_speed_tool --loop-preview-wav mysong.brstm loop_demo.wav\nbrstm_speed_tool --export-wav mysong.brstm out.wav\n\nWrong order (tries to open a file literally named \"--loop-preview\"):\nbrstm_speed_tool --export-wav --loop-preview out.wav"@
}

/// Rejects a path argument that is empty or blank, or that starts with `-`
/// once trimmed (a flag given where a file was expected). `role` names the
/// argument in the message.
pub fn expect_file_path(p: &str, role: &str) -> (res: Result<(), String>)
    ensures
        trimmed(p@).len() == 0 ==> (res matches Err(m) && m@ == empty_path_message(role@)),
        trimmed(p@).len() > 0 && trimmed(p@)[0] == '-' ==> (res matches Err(m) && m@
            == flag_path_message(role@, p@)),
        res is Ok <==> trimmed(p@).len() > 0 && trimmed(p@)[0] != '-',
{
    let t = trim_str(p);
    if t.as_str().unicode_len() == 0 {
        let mut m = String::from_str(role);
        m.append(" path is empty");
        return Err(m);
    }
    if starts_with_char(t.as_str(), '-') {
        let mut m = String::from_str(role);
        m.append(" was \"");
        m.append(p);
        m.append(
            "\", which looks like a flag, not a file.\nPut the .brstm path immediately after the subcommand.\n\nExamples:\nbrstm_speed_tool --loop-preview mysong.brstm\nbrstm_speed_tool --loop-preview-wav mysong.brstm loop_demo.wav\nbrstm_speed_tool --export-wav mysong.brstm out.wav\n\nWrong order (tries to open a file literally named \"--loop-preview\"):\nbrstm_speed_tool --export-wav --loop-preview out.wav",
        );
        return Err(m);
    }
    Ok(())
}


/// What the command line asks for.
pub enum Command {
    /// Print the usage text and exit with status 1.
    Usage,
    /// A single `.brstm` path, as passed by dropping a file on the program:
    /// convert it next to the source at the default speed.
    DragAndDrop { input: String },
    /// Print the header values of a file as one JSON line.
    LoopInfo { path: String },
    /// Decode a file to a WAV file.
    ExportWav { input: String, output: String },
    /// Play the loop transition of a file.
    LoopPreview { path: String },
    /// Write the loop transition of a file to a WAV file.
    LoopPreviewWav { input: String, output: String },
    /// Change the speed of a file; the options follow from the fourth
    /// argument on.
    Convert { input: String, output: String },
}

/// The model of a [`Command`], over character sequences.
pub enum CommandView {
    Usage,
    DragAndDrop { input: Seq<char> },
    LoopInfo { path: Seq<char> },
    ExportWav { input: Seq<char>, output: Seq<char> },
    LoopPreview { path: Seq<char> },
    LoopPreviewWav { input: Seq<char>, output: Seq<char> },
    Convert { input: Seq<char>, output: Seq<char> },
}

impl View for Command {
    type V = CommandView;

    open spec fn view(&self) -> CommandView {
        match self {
            Command::Usage => CommandView::Usage,
            Command::DragAndDrop { input } => CommandView::DragAndDrop { input: input@ },
            Command::LoopInfo { path } => CommandView::LoopInfo { path: path@ },
            Command::ExportWav { input, output } => CommandView::ExportWav {
                input: input@,
                output: output@,
            },
            Command::LoopPreview { path } => CommandView::LoopPreview { path: path@ },
            Command::LoopPreviewWav { input, output } => CommandView::LoopPreviewWav {
                input: input@,
                output: output@,
            },
            Command::Convert { input, output } => CommandView::Convert {
                input: input@,
                output: output@,
            },
        }
    }
}

/// The arguments as character sequences.
pub open spec fn args_view(args: Seq<String>) -> Seq<Seq<char>> {
    args.map_values(|a: String| a@)
}

/// The command that `args` (program name first) select, or the message of
/// the usage error. `brstm_extension` tells whether the trimmed second
/// argument has the extension `brstm` in any letter case.
pub open spec fn command_line(args: Seq<Seq<char>>, brstm_extension: bool) -> Result<CommandView, Seq<char>> {
    if args.len() < 2 {
        Ok(CommandView::Usage)
    } else if args.len() == 2 && !(trimmed(args[1]).len() > 0 && trimmed(args[1])[0] == '-')
        && brstm_extension {
        Ok(CommandView::DragAndDrop { input: trimmed(args[1]) })
    } else if args[1] == "--loop-info"@ {
        if args.len() != 3 {
            Err("Usage: brstm_speed_tool --loop-info <file.brstm>"@)
        } else {
            Ok(CommandView::LoopInfo { path: args[2] })
        }
    } else if args[1] == "--export-wav"@ {
        if args.len() != 4 {
            Err("Usage: brstm_speed_tool --export-wav <in.brstm> <out.wav>"@)
        } else {
            Ok(CommandView::ExportWav { input: args[2], output: args[3] })
        }
    } else if args[1] == "--loop-preview"@ {
        if args.len() != 3 {
            Err("Usage: brstm_speed_tool --loop-preview <file.brstm>"@)
        } else {
            Ok(CommandView::LoopPreview { path: args[2] })
        }
    } else if args[1] == "--loop-preview-wav"@ {
        if args.len() != 4 {
            Err("Usage: brstm_speed_tool --loop-preview-wav <in.brstm> <out.wav>"@)
        } else {
            Ok(CommandView::LoopPreviewWav { input: args[2], output: args[3] })
        }
    } else if args.len() < 3 {
        Ok(CommandView::Usage)
    } else {
        Ok(CommandView::Convert { input: args[1], output: args[2] })
    }
}

/// `a` is none of the four subcommand flags.
pub open spec fn is_plain_argument(a: Seq<char>) -> bool {
    &&& a != "--loop-info"@
    &&& a != "--export-wav"@
    &&& a != "--loop-preview"@
    &&& a != "--loop-preview-wav"@
}

/// The four subcommand flags differ from each other (they differ in
/// length), and each starts with `-`.
proof fn lemma_flags_distinct()
    ensures
        "--loop-info"@.len() == 11 && "--loop-info"@[0] == '-',
        "--export-wav"@.len() == 12 && "--export-wav"@[0] == '-',
        "--loop-preview"@.len() == 14 && "--loop-preview"@[0] == '-',
        "--loop-preview-wav"@.len() == 18 && "--loop-preview-wav"@[0] == '-',
{
    reveal_strlit("--loop-info");
    reveal_strlit("--export-wav");
    reveal_strlit("--loop-preview");
    reveal_strlit("--loop-preview-wav");
}

/// Trimming keeps a leading character that is not white space.
proof fn lemma_trim_keeps_first(s: Seq<char>)
    requires
        s.len() > 0,
        !is_white_space(s[0]),
    ensures
        trimmed(s).len() > 0,
        trimmed(s)[0] == s[0],
{
    assert(trim_start(s) == s);
    lemma_trim_end_keeps_first(s);
}

proof fn lemma_trim_end_keeps_first(s: Seq<char>)
    requires
        s.len() > 0,
        !is_white_space(s[0]),
    ensures
        trim_end(s).len() > 0,
        trim_end(s)[0] == s[0],
    decreases s.len(),
{
    if is_white_space(s.last()) {
        assert(s.len() > 1);
        lemma_trim_end_keeps_first(s.drop_last());
    }
}

/// Law: with fewer than two arguments (the program name alone) the usage
/// text is shown.
pub proof fn lemma_no_arguments_is_usage(args: Seq<Seq<char>>, brstm_extension: bool)
    requires
        args.len() < 2,
    ensures
        command_line(args, brstm_extension) == Ok::<CommandView, Seq<char>>(CommandView::Usage),
{
}

/// Law: a single argument that names a `.brstm` file and is not a flag is
/// converted by drag-and-drop, with the trimmed argument as the input.
pub proof fn lemma_single_brstm_is_drag_and_drop(args: Seq<Seq<char>>)
    requires
        args.len() == 2,
        !(trimmed(args[1]).len() > 0 && trimmed(args[1])[0] == '-'),
    ensures
        command_line(args, true) == Ok::<CommandView, Seq<char>>(
            CommandView::DragAndDrop { input: trimmed(args[1]) },
        ),
{
}

/// Law: a single argument that is not a `.brstm` file and not a
/// subcommand flag shows the usage text.
pub proof fn lemma_single_other_argument_is_usage(args: Seq<Seq<char>>)
    requires
        args.len() == 2,
        is_plain_argument(args[1]),
    ensures
        command_line(args, false) == Ok::<CommandView, Seq<char>>(CommandView::Usage),
{
}

/// Law: with an input and an output (and possibly options after them) that
/// do not start with a subcommand flag, the input is converted to the
/// output; the speed factor is optional.
pub proof fn lemma_plain_arguments_convert(args: Seq<Seq<char>>, brstm_extension: bool)
    requires
        args.len() >= 3,
        is_plain_argument(args[1]),
    ensures
        command_line(args, brstm_extension) == Ok::<CommandView, Seq<char>>(
            CommandView::Convert { input: args[1], output: args[2] },
        ),
{
}

/// Law: `--loop-info <file>` reports on the file given after the flag, and
/// any other number of arguments after the flag is a usage error.
pub proof fn lemma_loop_info_paths(args: Seq<Seq<char>>, brstm_extension: bool)
    requires
        args.len() >= 2,
        args[1] == "--loop-info"@,
    ensures
        args.len() == 3 ==> command_line(args, brstm_extension) == Ok::<CommandView, Seq<char>>(
            CommandView::LoopInfo { path: args[2] },
        ),
        args.len() != 3 ==> command_line(args, brstm_extension) is Err,
{
    lemma_flags_distinct();
    lemma_trim_keeps_first(args[1]);
}

/// Law: `--export-wav <in> <out>` reads the first path after the flag and
/// writes the second; any other number of arguments is a usage error.
pub proof fn lemma_export_wav_paths(args: Seq<Seq<char>>, brstm_extension: bool)
    requires
        args.len() >= 2,
        args[1] == "--export-wav"@,
    ensures
        args.len() == 4 ==> command_line(args, brstm_extension) == Ok::<CommandView, Seq<char>>(
            CommandView::ExportWav { input: args[2], output: args[3] },
        ),
        args.len() != 4 ==> command_line(args, brstm_extension) is Err,
{
    lemma_flags_distinct();
    lemma_trim_keeps_first(args[1]);
}

/// Law: `--loop-preview <file>` plays the preview of the file given after
/// the flag; any other number of arguments is a usage error.
pub proof fn lemma_loop_preview_path(args: Seq<Seq<char>>, brstm_extension: bool)
    requires
        args.len() >= 2,
        args[1] == "--loop-preview"@,
    ensures
        args.len() == 3 ==> command_line(args, brstm_extension) == Ok::<CommandView, Seq<char>>(
            CommandView::LoopPreview { path: args[2] },
        ),
        args.len() != 3 ==> command_line(args, brstm_extension) is Err,
{
    lemma_flags_distinct();
    lemma_trim_keeps_first(args[1]);
}

/// Law: `--loop-preview-wav <in> <out>` reads the first path after the flag
/// and writes the preview to the second; any other number of arguments is
/// a usage error.
pub proof fn lemma_loop_preview_wav_paths(args: Seq<Seq<char>>, brstm_extension: bool)
    requires
        args.len() >= 2,
        args[1] == "--loop-preview-wav"@,
    ensures
        args.len() == 4 ==> command_line(args, brstm_extension) == Ok::<CommandView, Seq<char>>(
            CommandView::LoopPreviewWav { input: args[2], output: args[3] },
        ),
        args.len() != 4 ==> command_line(args, brstm_extension) is Err,
{
    lemma_flags_distinct();
    lemma_trim_keeps_first(args[1]);
}

/// The model of a command-line outcome.
pub open spec fn outcome_view(r: Result<Command, String>) -> Result<CommandView, Seq<char>> {
    match r {
        Ok(c) => Ok(c@),
        Err(m) => Err(m@),
    }
}

fn message(text: &str) -> (m: String)
    ensures
        m@ == text@,
{
    String::from_str(text)
}

/// Selects the command that the arguments (program name first) ask for.
/// `brstm_extension` tells whether the trimmed second argument has the
/// extension `brstm` in any letter case.
pub fn select_command(args: &Vec<String>, brstm_extension: bool) -> (res: Result<Command, String>)
    ensures
        outcome_view(res) == command_line(args_view(args@), brstm_extension),
{
    let ghost a = args_view(args@);
    let n = args.len();
    if n < 2 {
        return Ok(Command::Usage);
    }
    assert(a[1] == args@[1]@);
    if n == 2 {
        let t = trim_str(args[1].as_str());
        if !starts_with_char(t.as_str(), '-') && brstm_extension {
            return Ok(Command::DragAndDrop { input: t });
        }
    }
    let first = args[1].as_str();
    if n >= 3 {
        assert(a[2] == args@[2]@);
    }
    if n >= 4 {
        assert(a[3] == args@[3]@);
    }
    if str_eq(first, "--loop-info") {
        if n != 3 {
            return Err(message("Usage: brstm_speed_tool --loop-info <file.brstm>"));
        }
        return Ok(Command::LoopInfo { path: args[2].clone() });
    }
    if str_eq(first, "--export-wav") {
        if n != 4 {
            return Err(message("Usage: brstm_speed_tool --export-wav <in.brstm> <out.wav>"));
        }
        return Ok(Command::ExportWav { input: args[2].clone(), output: args[3].clone() });
    }
    if str_eq(first, "--loop-preview") {
        if n != 3 {
            return Err(message("Usage: brstm_speed_tool --loop-preview <file.brstm>"));
        }
        return Ok(Command::LoopPreview { path: args[2].clone() });
    }
    if str_eq(first, "--loop-preview-wav") {
        if n != 4 {
            return Err(message("Usage: brstm_speed_tool --loop-preview-wav <in.brstm> <out.wav>"));
        }
        return Ok(Command::LoopPreviewWav { input: args[2].clone(), output: args[3].clone() });
    }
    if n < 3 {
        return Ok(Command::Usage);
    }
    Ok(Command::Convert { input: args[1].clone(), output: args[2].clone() })
}

/// What an option argument of a conversion sets.
#[derive(Debug, Clone, Copy, PartialEq, Eq)]
pub enum ConvertArg {
    /// `--simple-resample`: resample instead of time-stretching.
    SimpleResample,
    /// The speed factor.
    Speed,
}

/// How an option argument of a conversion is read, given whether a speed
/// factor was already given; or the message of the error.
pub open spec fn convert_arg_outcome(a: Seq<char>, speed_seen: bool) -> Result<ConvertArg, Seq<char>> {
    if a == "--simple-resample"@ {
        Ok(ConvertArg::SimpleResample)
    } else if a.len() > 0 && a[0] == '-' {
        Err("unknown option: "@ + a + " (try --simple-resample)"@)
    } else if speed_seen {
        Err("unexpected extra argument: "@ + a)
    } else {
        Ok(ConvertArg::Speed)
    }
}

/// Reads one option argument of a conversion.
pub fn classify_convert_arg(arg: &str, speed_seen: bool) -> (res: Result<ConvertArg, String>)
    ensures
        match res {
            Ok(k) => convert_arg_outcome(arg@, speed_seen) == Ok::<ConvertArg, Seq<char>>(k),
            Err(m) => convert_arg_outcome(arg@, speed_seen) == Err::<ConvertArg, Seq<char>>(m@),
        },
{
    if str_eq(arg, "--simple-resample") {
        return Ok(ConvertArg::SimpleResample);
    }
    if starts_with_char(arg, '-') {
        let mut m = String::from_str("unknown option: ");
        m.append(arg);
        m.append(" (try --simple-resample)");
        return Err(m);
    }
    if speed_seen {
        let mut m = String::from_str("unexpected extra argument: ");
        m.append(arg);
        return Err(m);
    }
    Ok(ConvertArg::Speed)
}


/// The options of a conversion.
pub struct ConvertOptions {
    /// `--simple-resample` was given.
    pub simple_resample: bool,
    /// The speed factor as written, if one was given.
    pub speed: Option<String>,
}

/// A refused option of a conversion.
pub struct ConvertOptionsError {
    /// The message of the error.
    pub message: String,
    /// The speed factor read before the refused option, if any: a speed
    /// factor that is not a number is reported before the refusal.
    pub speed_before: Option<String>,
}

/// The characters of an optional string.
pub open spec fn opt_view(o: Option<String>) -> Option<Seq<char>> {
    match o {
        Some(s) => Some(s@),
        None => None,
    }
}

/// The options read from `opts` in order: the `--simple-resample` flag and
/// the speed text, or the first refusal with the speed text read before it.
pub open spec fn options_outcome(opts: Seq<Seq<char>>) -> Result<(bool, Option<Seq<char>>), (Seq<char>, Option<Seq<char>>)>
    decreases opts.len(),
{
    if opts.len() == 0 {
        Ok((false, None))
    } else {
        match options_outcome(opts.drop_last()) {
            Err(e) => Err(e),
            Ok((simple, speed)) => match convert_arg_outcome(opts.last(), speed is Some) {
                Ok(ConvertArg::SimpleResample) => Ok((true, speed)),
                Ok(ConvertArg::Speed) => Ok((simple, Some(opts.last()))),
                Err(m) => Err((m, speed)),
            },
        }
    }
}

/// Reads the options of a conversion (the arguments after the output
/// path) in order.
pub fn parse_convert_options(options: &[String]) -> (res: Result<ConvertOptions, ConvertOptionsError>)
    ensures
        match res {
            Ok(o) => options_outcome(args_view(options@)) == Ok::<_, (Seq<char>, Option<Seq<char>>)>(
                (o.simple_resample, opt_view(o.speed)),
            ),
            Err(e) => options_outcome(args_view(options@)) == Err::<(bool, Option<Seq<char>>), _>(
                (e.message@, opt_view(e.speed_before)),
            ),
        },
{
    let ghost opts = args_view(options@);
    let mut simple_resample = false;
    let mut speed: Option<String> = None;
    let mut i: usize = 0;
    assert(opts.take(0) =~= Seq::<Seq<char>>::empty());
    while i < options.len()
        invariant
            i <= options@.len(),
            opts == args_view(options@),
            options_outcome(opts.take(i as int)) == Ok::<_, (Seq<char>, Option<Seq<char>>)>(
                (simple_resample, opt_view(speed)),
            ),
        decreases options@.len() - i,
    {
        let arg = options[i].as_str();
        let ghost prefix = opts.take(i + 1);
        assert(prefix.drop_last() =~= opts.take(i as int));
        assert(prefix.last() == options@[i as int]@);
        match classify_convert_arg(arg, speed.is_some()) {
            Ok(ConvertArg::SimpleResample) => {
                simple_resample = true;
            },
            Ok(ConvertArg::Speed) => {
                speed = Some(options[i].clone());
            },
            Err(message) => {
                assert(opts.take(i + 1) =~= prefix);
                proof {
                    lemma_outcome_err_stays(opts, i + 1);
                }
                return Err(ConvertOptionsError { message, speed_before: speed });
            },
        }
        i += 1;
    }
    assert(opts.take(options@.len() as int) =~= opts);
    Ok(ConvertOptions { simple_resample, speed })
}

proof fn lemma_outcome_err_stays(opts: Seq<Seq<char>>, i: int)
    requires
        0 <= i <= opts.len(),
        options_outcome(opts.take(i)) is Err,
    ensures
        options_outcome(opts) == options_outcome(opts.take(i)),
    decreases opts.len() - i,
{
    if i == opts.len() {
        assert(opts.take(i) =~= opts);
    } else {
        assert(opts.take(i + 1).drop_last() =~= opts.take(i));
        assert(options_outcome(opts.take(i + 1)) == options_outcome(opts.take(i)));
        lemma_outcome_err_stays(opts, i + 1);
    }
}

/// `c` with an ASCII capital letter mapped to its small letter.
pub open spec fn ascii_lower(c: char) -> char {
    if 'A' <= c <= 'Z' {
        ((c as u32) + 32) as char
    } else {
        c
    }
}

/// The extension of a BRSTM file name, in small letters.
pub open spec fn brstm_word() -> Seq<char> {
    seq!['b', 'r', 's', 't', 'm']
}

/// `e` is `brstm` in any mix of ASCII capital and small letters.
pub open spec fn is_brstm_word(e: Seq<char>) -> bool {
    e.len() == 5 && forall|i: int| 0 <= i < 5 ==> ascii_lower(#[trigger] e[i]) == brstm_word()[i]
}

fn ascii_lower_char(c: char) -> (r: char)
    ensures
        r == ascii_lower(c),
{
    if 'A' <= c && c <= 'Z' {
        ((c as u8) + 32) as char
    } else {
        c
    }
}

/// Whether an extension names a BRSTM file, ignoring ASCII case.
pub fn brstm_extension_matches(ext: &str) -> (r: bool)
    ensures
        r == is_brstm_word(ext@),
{
    if ext.unicode_len() != 5 {
        return false;
    }
    let mut i: usize = 0;
    while i < 5
        invariant
            i <= 5,
            ext@.len() == 5,
            forall|k: int| 0 <= k < i ==> ascii_lower(#[trigger] ext@[k]) == brstm_word()[k],
        decreases 5 - i,
    {
        let want = if i == 0 {
            'b'
        } else if i == 1 {
            'r'
        } else if i == 2 {
            's'
        } else if i == 3 {
            't'
        } else {
            'm'
        };
        assert(want == brstm_word()[i as int]);
        if ascii_lower_char(ext.get_char(i)) != want {
            return false;
        }
        i += 1;
    }
    true
}

/// `e` stands in `p` right after a `.`.
pub open spec fn follows_dot(p: Seq<char>, e: Seq<char>) -> bool {
    exists|i: int| 1 <= i && i + e.len() <= p.len() && p[i - 1] == '.' && #[trigger] p.subrange(i, i + e.len()) == e
}

/// A path separator on some platform: `/`, and also `\\` on Windows.
pub open spec fn is_path_separator(c: char) -> bool {
    c == '/' || c == '\\'
}

/// `d` is the position of the last `.` of `p`, and the extension after it
/// is read the same way on every platform: the extension is not empty and
/// holds no separator, the character before the `.` is not a separator or
/// a `:` (so the `.` is not the first character of the file name, nor right
/// after a Windows drive letter), and `p` does not start with two
/// separators (the Windows network, device and verbatim prefixes).
pub open spec fn plain_extension_dot(p: Seq<char>, d: int) -> bool {
    &&& 1 <= d && d + 1 < p.len()
    &&& p[d] == '.'
    &&& !is_path_separator(p[d - 1]) && p[d - 1] != ':'
    &&& forall|k: int| d < k < p.len() ==> #[trigger] p[k] != '.' && !is_path_separator(p[k])
    &&& !(is_path_separator(p[0]) && is_path_separator(p[1]))
}

/// The extension of the path `p` as `std::path::Path::extension` finds it,
/// if there is one (it is valid UTF-8, since `p` is). Claimed, from the
/// documentation of `std::path`: the extension is the part of the file
/// name (the last component) after its last `.`, where the file name does
/// not start with that `.`; so it holds no `.` and stands in `p` right
/// after a `.`. Components are separated by `/`, and on Windows also by
/// `\\`, after a prefix (a drive letter and `:`, or one that starts with
/// two separators). Where the last `.` of `p` is followed by a non-empty
/// run without separators and preceded by a character that is neither a
/// separator nor `:`, in a path that does not start with two separators,
/// that run is the extension on every platform. Which part of other paths
/// is taken depends on the platform and is left unsaid.
#[verifier::external_body]
fn path_extension(p: &str) -> (ext: Option<String>)
    ensures
        ext matches Some(e) ==> !e@.contains('.') && follows_dot(p@, e@),
        forall|d: int| #[trigger] plain_extension_dot(p@, d) ==> (ext is Some && ext->Some_0@ == p@.subrange(
            d + 1,
            p@.len() as int,
        )),
{
    match std::path::Path::new(p).extension() {
        Some(e) => match e.to_str() {
            Some(s) => Some(s.to_string()),
            None => None,
        },
        None => None,
    }
}

/// Whether the trimmed argument names a file with the extension `brstm`,
/// in any ASCII case. Where it does, that extension follows a `.` in the
/// trimmed argument; where the argument's last `.` starts an extension that
/// every platform reads the same way, the result is whether that extension
/// is `brstm`.
pub fn has_brstm_extension(arg: &str) -> (r: bool)
    ensures
        r ==> exists|e: Seq<char>| is_brstm_word(e) && #[trigger] follows_dot(trimmed(arg@), e),
        forall|d: int| #[trigger] plain_extension_dot(trimmed(arg@), d) ==> (r == is_brstm_word(
            trimmed(arg@).subrange(d + 1, trimmed(arg@).len() as int),
        )),
{
    let t = trim_str(arg);
    match path_extension(t.as_str()) {
        Some(e) => {
            let r = brstm_extension_matches(e.as_str());
            proof {
                if r {
                    assert(is_brstm_word(e@) && follows_dot(trimmed(arg@), e@));
                }
            }
            r
        },
        None => false,
    }
}

} // verus!
