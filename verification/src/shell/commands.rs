//! The shell's built-in commands.  A command either finishes at once or
//! asks for one piece of outside work (reading files, listing a
//! directory, ...); in the second case it is finished from the reply.

use vstd::prelude::*;

use super::session::Shell;
use crate::numeric::{parse_usize, parse_usize_spec};
use crate::order::{sort_lex, sorted_of};
use crate::text::{
    chars_eq_str, chars_of, contains, contains_chars, join, join_chars, lines, lines_of, push_all,
    push_str, seqs, string_of, views,
};

verus! {

/// What a command is given: the previous stage's output, if any, and its
/// arguments.
pub struct CommandContext {
    pub input: Option<String>,
    pub args: Vec<String>,
}

/// An optional string as an optional character sequence.
pub open spec fn opt_view(o: Option<String>) -> Option<Seq<char>> {
    match o {
        Some(s) => Some(s@),
        None => None,
    }
}

/// A string result as a character-sequence result.
pub open spec fn result_view(r: Result<String, String>) -> Result<Seq<char>, Seq<char>> {
    match r {
        Ok(s) => Ok(s@),
        Err(e) => Err(e@),
    }
}

impl CommandContext {
    pub open spec fn input_view(&self) -> Option<Seq<char>> {
        opt_view(self.input)
    }

    pub open spec fn args_view(&self) -> Seq<Seq<char>> {
        views(self.args@)
    }
}

/// Outside work a command asks for.
pub enum Request {
    /// Read these files in order, stopping at the first that fails.
    ReadFiles(Vec<String>),
    /// Read one file.
    ReadFile(String),
    /// List the names in a directory.
    ListDir(String),
    /// Walk the tree under a path and report every file in it.
    Walk(String),
    /// Create (or open for writing) these files in order, stopping at the
    /// first that fails.
    CreateFiles(Vec<String>),
    /// Change the working directory (to the home directory without a path).
    ChangeDir(Option<String>),
    /// Report the working directory.
    CurrentDir,
    /// Leave the shell.
    Exit,
}

/// The outcome of a request.
pub enum Reply {
    /// File contents in order, or the error of the file that failed (last).
    Contents(Vec<Result<String, String>>),
    /// A text, or an error message.
    Text(Result<String, String>),
    /// Directory entry names, or an error message.
    Names(Result<Vec<String>, String>),
    /// `(path, file name)` of each file found, or the directory that could
    /// not be read and the error.
    Files(Result<Vec<(String, String)>, (String, String)>),
    /// Success, or the path that failed and the error.
    Done(Result<(), (String, String)>),
}

/// A command's next move: finish with a result, or perform a request.
pub enum Plan {
    Finished(Result<String, String>),
    Perform(Request),
}

pub enum RequestView {
    ReadFiles(Seq<Seq<char>>),
    ReadFile(Seq<char>),
    ListDir(Seq<char>),
    Walk(Seq<char>),
    CreateFiles(Seq<Seq<char>>),
    ChangeDir(Option<Seq<char>>),
    CurrentDir,
    Exit,
}

pub enum ReplyView {
    Contents(Seq<Result<Seq<char>, Seq<char>>>),
    Text(Result<Seq<char>, Seq<char>>),
    Names(Result<Seq<Seq<char>>, Seq<char>>),
    Files(Result<Seq<(Seq<char>, Seq<char>)>, (Seq<char>, Seq<char>)>),
    Done(Result<(), (Seq<char>, Seq<char>)>),
}

pub enum PlanView {
    Finished(Result<Seq<char>, Seq<char>>),
    Perform(RequestView),
}

impl View for Request {
    type V = RequestView;

    open spec fn view(&self) -> RequestView {
        match self {
            Request::ReadFiles(v) => RequestView::ReadFiles(views(v@)),
            Request::ReadFile(s) => RequestView::ReadFile(s@),
            Request::ListDir(s) => RequestView::ListDir(s@),
            Request::Walk(s) => RequestView::Walk(s@),
            Request::CreateFiles(v) => RequestView::CreateFiles(views(v@)),
            Request::ChangeDir(o) => RequestView::ChangeDir(opt_view(*o)),
            Request::CurrentDir => RequestView::CurrentDir,
            Request::Exit => RequestView::Exit,
        }
    }
}

/// A pair of strings as a pair of character sequences.
pub open spec fn pair_view(p: (String, String)) -> (Seq<char>, Seq<char>) {
    (p.0@, p.1@)
}

impl View for Reply {
    type V = ReplyView;

    open spec fn view(&self) -> ReplyView {
        match self {
            Reply::Contents(v) => ReplyView::Contents(
                v@.map_values(|r: Result<String, String>| result_view(r)),
            ),
            Reply::Text(r) => ReplyView::Text(result_view(*r)),
            Reply::Names(r) => ReplyView::Names(
                match r {
                    Ok(v) => Ok(views(v@)),
                    Err(e) => Err(e@),
                },
            ),
            Reply::Files(r) => ReplyView::Files(
                match r {
                    Ok(v) => Ok(v@.map_values(|p: (String, String)| pair_view(p))),
                    Err(p) => Err(pair_view(*p)),
                },
            ),
            Reply::Done(r) => ReplyView::Done(
                match r {
                    Ok(()) => Ok(()),
                    Err(p) => Err(pair_view(*p)),
                },
            ),
        }
    }
}

impl View for Plan {
    type V = PlanView;

    open spec fn view(&self) -> PlanView {
        match self {
            Plan::Finished(r) => PlanView::Finished(result_view(*r)),
            Plan::Perform(q) => PlanView::Perform(q@),
        }
    }
}

/// Whether `reply` is the kind of answer that `request` calls for.
pub open spec fn reply_fits(request: RequestView, reply: ReplyView) -> bool {
    match request {
        RequestView::ReadFiles(_) => reply is Contents,
        RequestView::ReadFile(_) => reply is Text,
        RequestView::ListDir(_) => reply is Names,
        RequestView::Walk(_) => reply is Files,
        RequestView::CreateFiles(_) => reply is Done,
        RequestView::ChangeDir(_) => reply is Done,
        RequestView::CurrentDir => reply is Text,
        RequestView::Exit => reply is Done,
    }
}

// ---------------------------------------------------------------------------
// What each command does
// ---------------------------------------------------------------------------

/// The help text.
pub open spec fn help_text() -> Seq<char> {
    "Available commands: echo, cat, ls, find, grep, head, tail, touch, cd, pwd, exit, help\nUse | for piping commands together."@
}

/// `message` prefixed by `what` and a colon, as `"{what}: {message}"`.
pub open spec fn labelled(what: Seq<char>, message: Seq<char>) -> Seq<char> {
    what + ": "@ + message
}

/// Argument `i`, or nothing past the end.
pub open spec fn arg_at(args: Seq<Seq<char>>, i: int) -> Seq<char> {
    if 0 <= i < args.len() {
        args[i]
    } else {
        seq![]
    }
}

/// `cat` from file contents: the contents joined with a newline between
/// non-empty accumulated text and the next file, failing with the first
/// file that could not be read.
pub open spec fn cat_contents(
    args: Seq<Seq<char>>,
    contents: Seq<Result<Seq<char>, Seq<char>>>,
) -> Result<Seq<char>, Seq<char>>
    decreases contents.len(),
{
    if contents.len() == 0 {
        Ok(seq![])
    } else {
        match cat_contents(args, contents.drop_last()) {
            Err(e) => Err(e),
            Ok(acc) => match contents.last() {
                Ok(c) => Ok(
                    if acc.len() > 0 {
                        acc + "\n"@ + c
                    } else {
                        c
                    },
                ),
                Err(e) => Err(
                    labelled("cat"@ + ": "@ + arg_at(args, contents.len() - 1), e),
                ),
            },
        }
    }
}

/// Once reading fails, later files do not change the outcome.
pub proof fn lemma_cat_error_sticks(
    args: Seq<Seq<char>>,
    contents: Seq<Result<Seq<char>, Seq<char>>>,
    k: int,
)
    requires
        0 <= k <= contents.len(),
        cat_contents(args, contents.take(k)) is Err,
    ensures
        cat_contents(args, contents) == cat_contents(args, contents.take(k)),
    decreases contents.len() - k,
{
    if k < contents.len() {
        crate::text::lemma_take_succ(contents, k);
        lemma_cat_error_sticks(args, contents, k + 1);
    } else {
        assert(contents.take(k) =~= contents);
    }
}

pub open spec fn cat_plan(input: Option<Seq<char>>, args: Seq<Seq<char>>) -> PlanView {
    match input {
        Some(x) => PlanView::Finished(Ok(x)),
        None => if args.len() == 0 {
            PlanView::Finished(Err("cat: missing file operand"@))
        } else {
            PlanView::Perform(RequestView::ReadFiles(args))
        },
    }
}

/// The path `ls` lists.
pub open spec fn ls_path(args: Seq<Seq<char>>) -> Seq<char> {
    if args.len() == 0 {
        "."@
    } else {
        args[0]
    }
}

pub open spec fn ls_plan(args: Seq<Seq<char>>) -> PlanView {
    PlanView::Perform(RequestView::ListDir(ls_path(args)))
}

pub open spec fn ls_names(args: Seq<Seq<char>>, r: Result<Seq<Seq<char>>, Seq<char>>) -> Result<
    Seq<char>,
    Seq<char>,
> {
    match r {
        Ok(names) => Ok(join(sorted_of(names), "\n"@)),
        Err(e) => Err(labelled("ls: "@ + ls_path(args), e)),
    }
}

/// The pattern `find` looks for.
pub open spec fn find_pattern(args: Seq<Seq<char>>) -> Seq<char> {
    if args.len() > 1 {
        args[1]
    } else {
        "*"@
    }
}

/// The paths of the files whose names match `pattern` (`*` matches every
/// name, any other pattern the names that contain it), in order.
pub open spec fn found_paths(files: Seq<(Seq<char>, Seq<char>)>, pattern: Seq<char>) -> Seq<
    Seq<char>,
>
    decreases files.len(),
{
    if files.len() == 0 {
        seq![]
    } else {
        let rest = found_paths(files.drop_last(), pattern);
        let f = files.last();
        if pattern == "*"@ || contains(f.1, pattern) {
            rest.push(f.0)
        } else {
            rest
        }
    }
}

pub open spec fn find_plan(args: Seq<Seq<char>>) -> PlanView {
    if args.len() == 0 {
        PlanView::Finished(Err("find: missing path operand"@))
    } else {
        PlanView::Perform(RequestView::Walk(args[0]))
    }
}

pub open spec fn find_files(
    args: Seq<Seq<char>>,
    r: Result<Seq<(Seq<char>, Seq<char>)>, (Seq<char>, Seq<char>)>,
) -> Result<Seq<char>, Seq<char>> {
    match r {
        Ok(files) => Ok(join(found_paths(files, find_pattern(args)), "\n"@)),
        Err(p) => Err(labelled("find: "@ + p.0, p.1)),
    }
}

/// The lines that contain `pattern`, in order.
pub open spec fn matching_lines(ls: Seq<Seq<char>>, pattern: Seq<char>) -> Seq<Seq<char>>
    decreases ls.len(),
{
    if ls.len() == 0 {
        seq![]
    } else {
        let rest = matching_lines(ls.drop_last(), pattern);
        if contains(ls.last(), pattern) {
            rest.push(ls.last())
        } else {
            rest
        }
    }
}

/// `grep` on a text: its lines that contain `pattern`.
pub open spec fn grep_text(pattern: Seq<char>, content: Seq<char>) -> Seq<char> {
    join(matching_lines(lines(content), pattern), "\n"@)
}

pub open spec fn grep_plan(input: Option<Seq<char>>, args: Seq<Seq<char>>) -> PlanView {
    if args.len() == 0 {
        PlanView::Finished(Err("grep: missing pattern"@))
    } else {
        match input {
            Some(x) => PlanView::Finished(Ok(grep_text(args[0], x))),
            None => if args.len() > 1 {
                PlanView::Perform(RequestView::ReadFile(args[1]))
            } else {
                PlanView::Finished(Err("grep: no input file or pipe input"@))
            },
        }
    }
}

pub open spec fn grep_read(args: Seq<Seq<char>>, r: Result<Seq<char>, Seq<char>>) -> Result<
    Seq<char>,
    Seq<char>,
> {
    match r {
        Ok(t) => Ok(grep_text(args[0], t)),
        Err(e) => Err(labelled("grep: "@ + arg_at(args, 1), e)),
    }
}

/// The options of `head` and `tail` read from `args[k..]`, given the count
/// and file found so far: `-n N` sets the count, anything else names the
/// file (the last one counts).
pub open spec fn scan_count_args(
    name: Seq<char>,
    args: Seq<Seq<char>>,
    k: int,
    n: usize,
    file: Option<Seq<char>>,
) -> Result<(usize, Option<Seq<char>>), Seq<char>>
    decreases args.len() - k,
{
    if k < 0 || k >= args.len() {
        Ok((n, file))
    } else if args[k] == "-n"@ {
        if k + 1 < args.len() {
            match parse_usize_spec(args[k + 1]) {
                Some(v) => scan_count_args(name, args, k + 2, v, file),
                None => Err(name + ": invalid number of lines"@),
            }
        } else {
            Err(name + ": option requires an argument -- 'n'"@)
        }
    } else {
        scan_count_args(name, args, k + 1, n, Some(args[k]))
    }
}

/// The count (10 unless given) and the file of a `head` or `tail`.
pub open spec fn count_args(name: Seq<char>, args: Seq<Seq<char>>) -> Result<
    (usize, Option<Seq<char>>),
    Seq<char>,
> {
    scan_count_args(name, args, 0, 10, None)
}

/// The first `n` lines of `c`.
pub open spec fn head_text(c: Seq<char>, n: usize) -> Seq<char> {
    let ls = lines(c);
    join(
        if n < ls.len() {
            ls.take(n as int)
        } else {
            ls
        },
        "\n"@,
    )
}

/// The last `n` lines of `c`.
pub open spec fn tail_text(c: Seq<char>, n: usize) -> Seq<char> {
    let ls = lines(c);
    join(
        if ls.len() > n {
            ls.skip(ls.len() - n)
        } else {
            ls
        },
        "\n"@,
    )
}

/// `head` (`tail` when `last` holds) on a text.
pub open spec fn lines_text(last: bool, c: Seq<char>, n: usize) -> Seq<char> {
    if last {
        tail_text(c, n)
    } else {
        head_text(c, n)
    }
}

/// `head` keeps the first `min(n, number of lines)` lines of the text and
/// `tail` the last as many, joined again with newlines; in particular a
/// text of at most `n` lines comes back whole (as its lines rejoined).
pub proof fn law_head_tail_line_counts(c: Seq<char>, n: usize)
    ensures
        ({
            let ls = lines(c);
            let k = if (n as int) < ls.len() {
                n as int
            } else {
                ls.len() as int
            };
            &&& lines_text(false, c, n) == join(ls.subrange(0, k), "\n"@)
            &&& lines_text(true, c, n) == join(ls.subrange(ls.len() - k, ls.len() as int), "\n"@)
            &&& ls.len() <= n ==> lines_text(false, c, n) == join(ls, "\n"@)
            &&& ls.len() <= n ==> lines_text(true, c, n) == join(ls, "\n"@)
        }),
{
    let ls = lines(c);
    assert(ls.subrange(0, ls.len() as int) =~= ls);
    if (n as int) < ls.len() {
        assert(ls.take(n as int) =~= ls.subrange(0, n as int));
        assert(ls.skip(ls.len() - n) =~= ls.subrange(ls.len() - n, ls.len() as int));
    }
}

/// `grep` outputs exactly the lines that contain the pattern, in their
/// order: every line it gives contains the pattern, every line of the
/// text that contains it is given, and nothing else is.
pub proof fn law_grep_keeps_exactly_matching_lines(ls: Seq<Seq<char>>, pattern: Seq<char>)
    ensures
        matching_lines(ls, pattern) == ls.filter(|l: Seq<char>| contains(l, pattern)),
        forall|i: int|
            0 <= i < matching_lines(ls, pattern).len() ==> contains(
                #[trigger] matching_lines(ls, pattern)[i],
                pattern,
            ),
        forall|l: Seq<char>|
            #[trigger] matching_lines(ls, pattern).contains(l) <==> (ls.contains(l) && contains(
                l,
                pattern,
            )),
    decreases ls.len(),
{
    reveal(Seq::filter);
    if ls.len() > 0 {
        let rest = ls.drop_last();
        law_grep_keeps_exactly_matching_lines(rest, pattern);
        let r = matching_lines(rest, pattern);
        assert forall|l: Seq<char>| ls.contains(l) <==> (rest.contains(l) || l == ls.last()) by {
            if ls.contains(l) {
                let i = choose|i: int| 0 <= i < ls.len() && ls[i] == l;
                if i < ls.len() - 1 {
                    assert(rest[i] == l);
                }
            }
            if rest.contains(l) {
                let i = choose|i: int| 0 <= i < rest.len() && rest[i] == l;
                assert(ls[i] == l);
            }
            if l == ls.last() {
                assert(ls[ls.len() - 1] == l);
            }
        }
        if contains(ls.last(), pattern) {
            let out = r.push(ls.last());
            assert forall|l: Seq<char>| out.contains(l) <==> (r.contains(l) || l == ls.last()) by {
                if out.contains(l) {
                    let i = choose|i: int| 0 <= i < out.len() && out[i] == l;
                    if i < r.len() {
                        assert(r[i] == l);
                    }
                }
                if r.contains(l) {
                    let i = choose|i: int| 0 <= i < r.len() && r[i] == l;
                    assert(out[i] == l);
                }
                if l == ls.last() {
                    assert(out[r.len() as int] == l);
                }
            }
            assert forall|i: int| 0 <= i < out.len() implies contains(#[trigger] out[i], pattern) by {
                if i < r.len() {
                    assert(out[i] == r[i]);
                }
            }
        }
    }
}

/// `find` reports the path of a walked file exactly when the file's name
/// (not its directory) contains the pattern, or the pattern is `*`, and
/// keeps the walk's order.
pub proof fn law_find_matches_file_names(files: Seq<(Seq<char>, Seq<char>)>, pattern: Seq<char>)
    ensures
        found_paths(files, pattern) == files.filter(
            |f: (Seq<char>, Seq<char>)| pattern == "*"@ || contains(f.1, pattern),
        ).map_values(|f: (Seq<char>, Seq<char>)| f.0),
        forall|path: Seq<char>|
            #[trigger] found_paths(files, pattern).contains(path) <==> exists|i: int|
                0 <= i < files.len() && files[i].0 == path && (pattern == "*"@ || contains(
                    files[i].1,
                    pattern,
                )),
    decreases files.len(),
{
    reveal(Seq::filter);
    if files.len() > 0 {
        let rest = files.drop_last();
        law_find_matches_file_names(rest, pattern);
        let r = found_paths(rest, pattern);
        let f = files.last();
        let keep = pattern == "*"@ || contains(f.1, pattern);
        let fl = files.filter(|f: (Seq<char>, Seq<char>)| pattern == "*"@ || contains(f.1, pattern));
        let rl = rest.filter(|f: (Seq<char>, Seq<char>)| pattern == "*"@ || contains(f.1, pattern));
        if keep {
            assert(fl == rl.push(f));
            assert(fl.map_values(|f: (Seq<char>, Seq<char>)| f.0) =~= rl.map_values(
                |f: (Seq<char>, Seq<char>)| f.0,
            ).push(f.0));
        } else {
            assert(fl == rl);
        }
        assert forall|path: Seq<char>| #[trigger] found_paths(files, pattern).contains(path) <==> exists|i: int|
            0 <= i < files.len() && files[i].0 == path && (pattern == "*"@ || contains(
                files[i].1,
                pattern,
            )) by {
            let out = found_paths(files, pattern);
            if out.contains(path) {
                let j = choose|j: int| 0 <= j < out.len() && out[j] == path;
                if j < r.len() {
                    assert(r[j] == path);
                    assert(r.contains(path));
                    let i = choose|i: int|
                        0 <= i < rest.len() && rest[i].0 == path && (pattern == "*"@ || contains(
                            rest[i].1,
                            pattern,
                        ));
                    assert(files[i] == rest[i]);
                } else {
                    assert(files[files.len() - 1] == f);
                }
            }
            if exists|i: int|
                0 <= i < files.len() && files[i].0 == path && (pattern == "*"@ || contains(
                    files[i].1,
                    pattern,
                )) {
                let i = choose|i: int|
                    0 <= i < files.len() && files[i].0 == path && (pattern == "*"@ || contains(
                        files[i].1,
                        pattern,
                    ));
                if i < files.len() - 1 {
                    assert(rest[i] == files[i]);
                    assert(r.contains(path));
                    let j = choose|j: int| 0 <= j < r.len() && r[j] == path;
                    if keep {
                        assert(out[j] == path);
                    }
                } else {
                    assert(files[i] == f);
                    assert(out[out.len() - 1] == path);
                }
            }
        }
    }
}

/// The command name of `head` or `tail`.
pub open spec fn lines_name(last: bool) -> Seq<char> {
    if last {
        "tail"@
    } else {
        "head"@
    }
}

pub open spec fn lines_plan(last: bool, input: Option<Seq<char>>, args: Seq<Seq<char>>) -> PlanView {
    match count_args(lines_name(last), args) {
        Err(e) => PlanView::Finished(Err(e)),
        Ok((n, file)) => match input {
            Some(x) => PlanView::Finished(Ok(lines_text(last, x, n))),
            None => match file {
                Some(f) => PlanView::Perform(RequestView::ReadFile(f)),
                None => PlanView::Finished(
                    Err(lines_name(last) + ": no input file or pipe input"@),
                ),
            },
        },
    }
}

pub open spec fn lines_read(last: bool, args: Seq<Seq<char>>, r: Result<Seq<char>, Seq<char>>) -> Result<
    Seq<char>,
    Seq<char>,
> {
    match count_args(lines_name(last), args) {
        Ok((n, file)) => match r {
            Ok(t) => Ok(lines_text(last, t, n)),
            Err(e) => Err(
                labelled(
                    lines_name(last) + ": "@ + match file {
                        Some(f) => f,
                        None => seq![],
                    },
                    e,
                ),
            ),
        },
        Err(e) => Err(e),
    }
}

pub open spec fn touch_plan(args: Seq<Seq<char>>) -> PlanView {
    if args.len() == 0 {
        PlanView::Finished(Err("touch: missing file operand"@))
    } else {
        PlanView::Perform(RequestView::CreateFiles(args))
    }
}

/// The result of `touch` (`cd` when `cd` holds) once the work is done.
pub open spec fn done_result(what: Seq<char>, r: Result<(), (Seq<char>, Seq<char>)>) -> Result<
    Seq<char>,
    Seq<char>,
> {
    match r {
        Ok(()) => Ok(seq![]),
        Err(p) => Err(labelled(what + ": "@ + p.0, p.1)),
    }
}

pub open spec fn cd_plan(args: Seq<Seq<char>>) -> PlanView {
    PlanView::Perform(
        RequestView::ChangeDir(
            if args.len() == 0 {
                None
            } else {
                Some(args[0])
            },
        ),
    )
}

pub open spec fn pwd_result(r: Result<Seq<char>, Seq<char>>) -> Result<Seq<char>, Seq<char>> {
    match r {
        Ok(p) => Ok(p),
        Err(e) => Err("pwd: "@ + e),
    }
}

// ---------------------------------------------------------------------------
// Helpers
// ---------------------------------------------------------------------------

/// The arguments as character vectors.
fn arg_chars(args: &Vec<String>) -> (r: Vec<Vec<char>>)
    ensures
        seqs(r@) == views(args@),
{
    let mut r: Vec<Vec<char>> = Vec::new();
    let mut i: usize = 0;
    while i < args.len()
        invariant
            i <= args.len(),
            seqs(r@) == views(args@).take(i as int),
        decreases args.len() - i,
    {
        let c = chars_of(args[i].as_str());
        let ghost before = seqs(r@);
        let ghost cv = c@;
        r.push(c);
        assert(seqs(r@) =~= before.push(cv));
        assert(views(args@).take(i as int + 1) =~= views(args@).take(i as int).push(cv));
        i += 1;
    }
    assert(views(args@).take(args.len() as int) =~= views(args@));
    r
}

/// `"{what}: {message}"` as a string.
fn labelled_string(what: &[char], message: &str) -> (s: String)
    ensures
        s@ == labelled(what@, message@),
{
    let mut v: Vec<char> = Vec::new();
    push_all(&mut v, what);
    push_str(&mut v, ": ");
    push_str(&mut v, message);
    string_of(v.as_slice())
}

/// The characters of `a` followed by those of `b`.
fn concat_str(a: &str, b: &str) -> (v: Vec<char>)
    ensures
        v@ == a@ + b@,
{
    let mut v = chars_of(a);
    push_str(&mut v, b);
    v
}

/// Lines joined with newlines, as a string.
fn join_lines(parts: &Vec<Vec<char>>) -> (s: String)
    ensures
        s@ == join(seqs(parts@), "\n"@),
{
    let nl = chars_of("\n");
    let j = join_chars(parts, nl.as_slice());
    string_of(j.as_slice())
}

// ---------------------------------------------------------------------------
// The commands
// ---------------------------------------------------------------------------

impl Shell {
    /// `echo`: the arguments joined with spaces.
    pub fn echo(context: &CommandContext) -> (r: Result<String, String>)
        ensures
            result_view(r) == Ok::<Seq<char>, Seq<char>>(join(context.args_view(), " "@)),
    {
        let args = arg_chars(&context.args);
        let sp = chars_of(" ");
        let j = join_chars(&args, sp.as_slice());
        Ok(string_of(j.as_slice()))
    }

    /// `help`: the list of commands.
    pub fn help(context: &CommandContext) -> (r: Result<String, String>)
        ensures
            result_view(r) == Ok::<Seq<char>, Seq<char>>(help_text()),
    {
        Ok(
            String::from_str(
                "Available commands: echo, cat, ls, find, grep, head, tail, touch, cd, pwd, exit, help\nUse | for piping commands together.",
            ),
        )
    }

    /// `cat`: the piped input, or the named files one after another.
    pub fn cat(context: &CommandContext) -> (p: Plan)
        ensures
            p@ == cat_plan(context.input_view(), context.args_view()),
    {
        match &context.input {
            Some(x) => Plan::Finished(Ok(x.clone())),
            None => {
                if context.args.len() == 0 {
                    Plan::Finished(Err(String::from_str("cat: missing file operand")))
                } else {
                    Plan::Perform(Request::ReadFiles(context.args.clone()))
                }
            },
        }
    }

    /// Finishes `cat` from the files' contents.
    pub fn cat_finish(context: &CommandContext, contents: &Vec<Result<String, String>>) -> (r: Result<
        String,
        String,
    >)
        ensures
            result_view(r) == cat_contents(
                context.args_view(),
                contents@.map_values(|x: Result<String, String>| result_view(x)),
            ),
    {
        let ghost cv = contents@.map_values(|x: Result<String, String>| result_view(x));
        let ghost args = context.args_view();
        let mut acc: Vec<char> = Vec::new();
        let mut i: usize = 0;
        while i < contents.len()
            invariant
                i <= contents.len(),
                cv == contents@.map_values(|x: Result<String, String>| result_view(x)),
                args == context.args_view(),
                cat_contents(args, cv.take(i as int)) == Ok::<Seq<char>, Seq<char>>(acc@),
            decreases contents.len() - i,
        {
            proof {
                crate::text::lemma_take_succ(cv, i as int);
            }
            match &contents[i] {
                Ok(c) => {
                    if acc.len() > 0 {
                        push_str(&mut acc, "\n");
                    }
                    push_str(&mut acc, c.as_str());
                },
                Err(e) => {
                    let name: Vec<char> = if i < context.args.len() {
                        concat_str("cat: ", context.args[i].as_str())
                    } else {
                        chars_of("cat: ")
                    };
                    assert(name@ == "cat"@ + ": "@ + arg_at(args, i as int)) by {
                        reveal_strlit("cat: ");
                        reveal_strlit("cat");
                        reveal_strlit(": ");
                        if i < context.args.len() {
                            assert(args[i as int] == context.args@[i as int]@);
                        }
                        assert("cat: "@ =~= "cat"@ + ": "@);
                    }
                    proof {
                        assert(cv[i as int] == result_view(contents@[i as int]));
                        lemma_cat_error_sticks(args, cv, i as int + 1);
                    }
                    return Err(labelled_string(name.as_slice(), e.as_str()));
                },
            }
            i += 1;
        }
        assert(cv.take(contents.len() as int) =~= cv);
        Ok(string_of(acc.as_slice()))
    }

    /// `ls`: the names in a directory (the current one by default), sorted.
    pub fn ls(context: &CommandContext) -> (p: Plan)
        ensures
            p@ == ls_plan(context.args_view()),
    {
        let path = if context.args.len() == 0 {
            String::from_str(".")
        } else {
            context.args[0].clone()
        };
        Plan::Perform(Request::ListDir(path))
    }

    /// Finishes `ls` from the directory listing.
    pub fn ls_finish(context: &CommandContext, names: &Result<Vec<String>, String>) -> (r: Result<
        String,
        String,
    >)
        ensures
            result_view(r) == ls_names(
                context.args_view(),
                match names {
                    Ok(v) => Ok(views(v@)),
                    Err(e) => Err(e@),
                },
            ),
    {
        match names {
            Ok(v) => {
                let items = arg_chars(v);
                let sorted = sort_lex(items);
                Ok(join_lines(&sorted))
            },
            Err(e) => {
                let path = if context.args.len() == 0 {
                    String::from_str(".")
                } else {
                    context.args[0].clone()
                };
                let what = concat_str("ls: ", path.as_str());
                Err(labelled_string(what.as_slice(), e.as_str()))
            },
        }
    }

    /// `find`: the files under a path whose names match a pattern.
    pub fn find(context: &CommandContext) -> (p: Plan)
        ensures
            p@ == find_plan(context.args_view()),
    {
        if context.args.len() < 1 {
            return Plan::Finished(Err(String::from_str("find: missing path operand")));
        }
        Plan::Perform(Request::Walk(context.args[0].clone()))
    }

    /// Finishes `find` from the files found.
    pub fn find_finish(
        context: &CommandContext,
        files: &Result<Vec<(String, String)>, (String, String)>,
    ) -> (r: Result<String, String>)
        ensures
            result_view(r) == find_files(
                context.args_view(),
                match files {
                    Ok(v) => Ok(v@.map_values(|p: (String, String)| pair_view(p))),
                    Err(p) => Err(pair_view(*p)),
                },
            ),
    {
        match files {
            Ok(v) => {
                let pattern: Vec<char> = if context.args.len() > 1 {
                    chars_of(context.args[1].as_str())
                } else {
                    chars_of("*")
                };
                assert(pattern@ == find_pattern(context.args_view()));
                let star = chars_eq_str(pattern.as_slice(), "*");
                let ghost fv = v@.map_values(|p: (String, String)| pair_view(p));
                let mut out: Vec<Vec<char>> = Vec::new();
                let mut i: usize = 0;
                while i < v.len()
                    invariant
                        i <= v.len(),
                        fv == v@.map_values(|p: (String, String)| pair_view(p)),
                        star == (pattern@ == "*"@),
                        seqs(out@) == found_paths(fv.take(i as int), pattern@),
                    decreases v.len() - i,
                {
                    proof {
                        crate::text::lemma_take_succ(fv, i as int);
                    }
                    let name = chars_of(v[i].1.as_str());
                    let keep = star || contains_chars(name.as_slice(), pattern.as_slice());
                    if keep {
                        let p = chars_of(v[i].0.as_str());
                        let ghost before = seqs(out@);
                        let ghost pv = p@;
                        out.push(p);
                        assert(seqs(out@) =~= before.push(pv));
                    }
                    i += 1;
                }
                assert(fv.take(v.len() as int) =~= fv);
                Ok(join_lines(&out))
            },
            Err(p) => {
                let what = concat_str("find: ", p.0.as_str());
                Err(labelled_string(what.as_slice(), p.1.as_str()))
            },
        }
    }

    /// The lines of `content` that contain `pattern`, joined with newlines.
    fn grep_lines(pattern: &[char], content: &str) -> (s: String)
        ensures
            s@ == grep_text(pattern@, content@),
    {
        let c = chars_of(content);
        let ls = lines_of(c.as_slice());
        let mut out: Vec<Vec<char>> = Vec::new();
        let mut i: usize = 0;
        while i < ls.len()
            invariant
                i <= ls.len(),
                seqs(out@) == matching_lines(seqs(ls@).take(i as int), pattern@),
            decreases ls.len() - i,
        {
            proof {
                crate::text::lemma_take_succ(seqs(ls@), i as int);
            }
            if contains_chars(ls[i].as_slice(), pattern) {
                let l = ls[i].clone();
                let ghost before = seqs(out@);
                let ghost lv = l@;
                out.push(l);
                assert(seqs(out@) =~= before.push(lv));
            }
            i += 1;
        }
        assert(seqs(ls@).take(ls.len() as int) =~= seqs(ls@));
        join_lines(&out)
    }

    /// `grep`: the lines of the piped input, or of a file, that contain a
    /// pattern.
    pub fn grep(context: &CommandContext) -> (p: Plan)
        ensures
            p@ == grep_plan(context.input_view(), context.args_view()),
    {
        if context.args.len() == 0 {
            return Plan::Finished(Err(String::from_str("grep: missing pattern")));
        }
        let pattern = chars_of(context.args[0].as_str());
        match &context.input {
            Some(x) => Plan::Finished(Ok(Self::grep_lines(pattern.as_slice(), x.as_str()))),
            None => {
                if context.args.len() > 1 {
                    Plan::Perform(Request::ReadFile(context.args[1].clone()))
                } else {
                    Plan::Finished(Err(String::from_str("grep: no input file or pipe input")))
                }
            },
        }
    }

    /// Finishes `grep` from the file's text.
    pub fn grep_finish(context: &CommandContext, text: &Result<String, String>) -> (r: Result<
        String,
        String,
    >)
        requires
            context.args.len() > 0,
        ensures
            result_view(r) == grep_read(context.args_view(), result_view(*text)),
    {
        let pattern = chars_of(context.args[0].as_str());
        match text {
            Ok(t) => Ok(Self::grep_lines(pattern.as_slice(), t.as_str())),
            Err(e) => {
                let what: Vec<char> = if context.args.len() > 1 {
                    concat_str("grep: ", context.args[1].as_str())
                } else {
                    chars_of("grep: ")
                };
                assert(what@ == "grep: "@ + arg_at(context.args_view(), 1)) by {
                    if context.args.len() <= 1 {
                        assert("grep: "@ + seq![] =~= "grep: "@);
                    }
                }
                Err(labelled_string(what.as_slice(), e.as_str()))
            },
        }
    }

    /// Reads the options of `head` or `tail`.
    fn count_options(last: bool, args: &Vec<String>) -> (r: Result<(usize, Option<String>), String>)
        ensures
            match r {
                Ok((n, f)) => count_args(lines_name(last), views(args@)) == Ok::<
                    (usize, Option<Seq<char>>),
                    Seq<char>,
                >((n, opt_view(f))),
                Err(e) => count_args(lines_name(last), views(args@)) == Err::<
                    (usize, Option<Seq<char>>),
                    Seq<char>,
                >(e@),
            },
    {
        let name: &str = if last {
            "tail"
        } else {
            "head"
        };
        assert(name@ == lines_name(last));
        let ghost a = views(args@);
        let mut n: usize = 10;
        let mut file: Option<String> = None;
        let mut k: usize = 0;
        while k < args.len()
            invariant
                a == views(args@),
                name@ == lines_name(last),
                k <= args.len(),
                count_args(lines_name(last), a) == scan_count_args(
                    lines_name(last),
                    a,
                    k as int,
                    n,
                    opt_view(file),
                ),
            decreases args.len() - k,
        {
            let arg = chars_of(args[k].as_str());
            assert(arg@ == a[k as int]);
            if chars_eq_str(arg.as_slice(), "-n") {
                if k + 1 < args.len() {
                    let num = chars_of(args[k + 1].as_str());
                    assert(num@ == a[k + 1]);
                    match parse_usize(num.as_slice()) {
                        Some(v) => {
                            n = v;
                            k += 2;
                        },
                        None => {
                            let mut msg = chars_of(name);
                            push_str(&mut msg, ": invalid number of lines");
                            return Err(string_of(msg.as_slice()));
                        },
                    }
                } else {
                    let mut msg = chars_of(name);
                    push_str(&mut msg, ": option requires an argument -- 'n'");
                    return Err(string_of(msg.as_slice()));
                }
            } else {
                file = Some(args[k].clone());
                k += 1;
            }
        }
        Ok((n, file))
    }

    /// The first (or, when `last` holds, the final) `n` lines of `content`.
    fn select_lines(last: bool, content: &str, n: usize) -> (s: String)
        ensures
            s@ == lines_text(last, content@, n),
    {
        let c = chars_of(content);
        let ls = lines_of(c.as_slice());
        let len = ls.len();
        let (start, end): (usize, usize) = if last {
            (
                if len > n {
                    len - n
                } else {
                    0
                },
                len,
            )
        } else {
            (
                0,
                if n < len {
                    n
                } else {
                    len
                },
            )
        };
        let mut out: Vec<Vec<char>> = Vec::new();
        let mut i: usize = start;
        while i < end
            invariant
                start <= i <= end <= len == ls.len(),
                seqs(out@) == seqs(ls@).subrange(start as int, i as int),
            decreases end - i,
        {
            let l = ls[i].clone();
            let ghost before = seqs(out@);
            let ghost lv = l@;
            out.push(l);
            assert(seqs(out@) =~= before.push(lv));
            assert(seqs(ls@).subrange(start as int, i as int + 1) =~= seqs(ls@).subrange(start as int, i as int).push(lv));
            i += 1;
        }
        proof {
            let lsv = seqs(ls@);
            if last {
                if len > n {
                    assert(lsv.subrange(start as int, end as int) =~= lsv.skip(len - n));
                } else {
                    assert(lsv.subrange(0, end as int) =~= lsv);
                }
            } else {
                if n < len {
                    assert(lsv.subrange(0, end as int) =~= lsv.take(n as int));
                } else {
                    assert(lsv.subrange(0, end as int) =~= lsv);
                }
            }
        }
        join_lines(&out)
    }

    /// `head` (`tail` when `last` holds): the first (last) lines of the piped
    /// input or of a file.
    pub fn lines_command(last: bool, context: &CommandContext) -> (p: Plan)
        ensures
            p@ == lines_plan(last, context.input_view(), context.args_view()),
    {
        match Self::count_options(last, &context.args) {
            Err(e) => Plan::Finished(Err(e)),
            Ok((n, file)) => match &context.input {
                Some(x) => Plan::Finished(Ok(Self::select_lines(last, x.as_str(), n))),
                None => match file {
                    Some(f) => Plan::Perform(Request::ReadFile(f)),
                    None => {
                        let mut msg: Vec<char> = if last {
                            chars_of("tail")
                        } else {
                            chars_of("head")
                        };
                        push_str(&mut msg, ": no input file or pipe input");
                        Plan::Finished(Err(string_of(msg.as_slice())))
                    },
                },
            },
        }
    }

    /// Finishes `head` or `tail` from the file's text.
    pub fn lines_finish(last: bool, context: &CommandContext, text: &Result<String, String>) -> (r:
        Result<String, String>)
        ensures
            result_view(r) == lines_read(last, context.args_view(), result_view(*text)),
    {
        match Self::count_options(last, &context.args) {
            Err(e) => Err(e),
            Ok((n, file)) => match text {
                Ok(t) => Ok(Self::select_lines(last, t.as_str(), n)),
                Err(e) => {
                    let mut what: Vec<char> = if last {
                        chars_of("tail")
                    } else {
                        chars_of("head")
                    };
                    push_str(&mut what, ": ");
                    match &file {
                        Some(f) => push_str(&mut what, f.as_str()),
                        None => {},
                    }
                    assert(what@ == lines_name(last) + ": "@ + match opt_view(file) {
                        Some(f) => f,
                        None => seq![],
                    });
                    Err(labelled_string(what.as_slice(), e.as_str()))
                },
            },
        }
    }

    /// `head`: the first lines of the piped input or of a file (10 unless
    /// `-n` says otherwise).
    pub fn head(context: &CommandContext) -> (p: Plan)
        ensures
            p@ == lines_plan(false, context.input_view(), context.args_view()),
    {
        Self::lines_command(false, context)
    }

    /// `tail`: the last lines of the piped input or of a file (10 unless
    /// `-n` says otherwise).
    pub fn tail(context: &CommandContext) -> (p: Plan)
        ensures
            p@ == lines_plan(true, context.input_view(), context.args_view()),
    {
        Self::lines_command(true, context)
    }

    /// `touch`: create the named files.
    pub fn touch(context: &CommandContext) -> (p: Plan)
        ensures
            p@ == touch_plan(context.args_view()),
    {
        if context.args.len() == 0 {
            return Plan::Finished(Err(String::from_str("touch: missing file operand")));
        }
        Plan::Perform(Request::CreateFiles(context.args.clone()))
    }

    /// Finishes `touch` or `cd` (named `what`) once the work is done.
    pub fn done_finish(what: &str, done: &Result<(), (String, String)>) -> (r: Result<String, String>)
        ensures
            result_view(r) == done_result(
                what@,
                match done {
                    Ok(()) => Ok(()),
                    Err(p) => Err(pair_view(*p)),
                },
            ),
    {
        match done {
            Ok(()) => Ok(String::new()),
            Err(p) => {
                let mut w = chars_of(what);
                push_str(&mut w, ": ");
                push_str(&mut w, p.0.as_str());
                Err(labelled_string(w.as_slice(), p.1.as_str()))
            },
        }
    }

    /// `cd`: change to the named directory, or home without one.
    pub fn cd(context: &CommandContext) -> (p: Plan)
        ensures
            p@ == cd_plan(context.args_view()),
    {
        let target = if context.args.len() == 0 {
            None
        } else {
            Some(context.args[0].clone())
        };
        Plan::Perform(Request::ChangeDir(target))
    }

    /// `pwd`: the working directory.
    pub fn pwd(context: &CommandContext) -> (p: Plan)
        ensures
            p@ == PlanView::Perform(RequestView::CurrentDir),
    {
        Plan::Perform(Request::CurrentDir)
    }

    /// Finishes `pwd` from the working directory.
    pub fn pwd_finish(dir: &Result<String, String>) -> (r: Result<String, String>)
        ensures
            result_view(r) == pwd_result(result_view(*dir)),
    {
        match dir {
            Ok(p) => Ok(p.clone()),
            Err(e) => {
                let mut v = chars_of("pwd: ");
                push_str(&mut v, e.as_str());
                Err(string_of(v.as_slice()))
            },
        }
    }

    /// `exit`: leave the shell.
    pub fn exit_shell(context: &CommandContext) -> (p: Plan)
        ensures
            p@ == PlanView::Perform(RequestView::Exit),
    {
        Plan::Perform(Request::Exit)
    }
}

/// The first (or last) `min(n, number of lines)` lines of `c`.
pub open spec fn first_or_last_lines(last: bool, c: Seq<char>, n: int) -> Seq<Seq<char>> {
    let ls = lines(c);
    let k = if n < ls.len() {
        n
    } else {
        ls.len() as int
    };
    if last {
        ls.subrange(ls.len() - k, ls.len() as int)
    } else {
        ls.subrange(0, k)
    }
}

/// `head FILE` and `tail FILE` give ten lines of the file's text, and
/// `head -n N FILE` and `tail -n N FILE` give `N`: the first (or last)
/// `min(N, number of lines)` lines, joined with newlines.
pub proof fn law_head_tail_of_a_file(last: bool, file: Seq<char>, count: Seq<char>, c: Seq<char>)
    requires
        file != "-n"@,
    ensures
        lines_read(last, seq![file], Ok(c)) == Ok::<Seq<char>, Seq<char>>(
            join(first_or_last_lines(last, c, 10), "\n"@),
        ),
        parse_usize_spec(count) matches Some(n) ==> lines_read(
            last,
            seq!["-n"@, count, file],
            Ok(c),
        ) == Ok::<Seq<char>, Seq<char>>(join(first_or_last_lines(last, c, n as int), "\n"@)),
{
    law_head_tail_line_counts(c, 10);
    reveal_strlit("-n");
    let a = seq![file];
    assert(scan_count_args(lines_name(last), a, 1, 10, Some(file)) == Ok::<
        (usize, Option<Seq<char>>),
        Seq<char>,
    >((10usize, Some(file))));
    if parse_usize_spec(count) is Some {
        let n = parse_usize_spec(count)->0;
        law_head_tail_line_counts(c, n);
        let b = seq!["-n"@, count, file];
        assert(b[0] == "-n"@ && b[1] == count && b[2] == file);
        assert(scan_count_args(lines_name(last), b, 3, n, Some(file)) == Ok::<
            (usize, Option<Seq<char>>),
            Seq<char>,
        >((n, Some(file))));
        assert(scan_count_args(lines_name(last), b, 2, n, None) == Ok::<
            (usize, Option<Seq<char>>),
            Seq<char>,
        >((n, Some(file))));
    }
}

/// `grep PATTERN FILE` gives the lines of the file's text that contain the
/// pattern, in order, joined with newlines.
pub proof fn law_grep_of_a_file(args: Seq<Seq<char>>, c: Seq<char>)
    requires
        args.len() >= 1,
    ensures
        grep_read(args, Ok(c)) == Ok::<Seq<char>, Seq<char>>(
            join(lines(c).filter(|l: Seq<char>| contains(l, args[0])), "\n"@),
        ),
{
    law_grep_keeps_exactly_matching_lines(lines(c), args[0]);
}

/// `find PATH PATTERN` lists, one per line and in the walk's order, the
/// paths of the files whose names contain the pattern; without a pattern
/// (or with `*`) it lists every file.
pub proof fn law_find_output(args: Seq<Seq<char>>, files: Seq<(Seq<char>, Seq<char>)>)
    ensures
        ({
            let pattern = if args.len() > 1 {
                args[1]
            } else {
                "*"@
            };
            find_files(args, Ok(files)) == Ok::<Seq<char>, Seq<char>>(
                join(
                    files.filter(
                        |f: (Seq<char>, Seq<char>)| pattern == "*"@ || contains(f.1, pattern),
                    ).map_values(|f: (Seq<char>, Seq<char>)| f.0),
                    "\n"@,
                ),
            )
        }),
{
    law_find_matches_file_names(files, find_pattern(args));
}

} // verus!
