//! The shell itself: its command table, splitting a command line into
//! stages, and running a pipeline as a sequence of steps whose outside
//! work is performed by the caller.

use vstd::prelude::*;

use super::commands::{
    cat_contents, cat_plan, cd_plan, done_result, find_files, find_plan, grep_plan, grep_read,
    help_text, lines_plan, lines_read, ls_names, ls_plan, opt_view, pwd_result, reply_fits,
    result_view, touch_plan, CommandContext, Plan, PlanView, Reply, ReplyView, Request,
    RequestView,
};
use crate::text::{
    chars_eq_str, chars_of, push_all, push_str, seqs, split_at_char, split_char, split_ws,
    string_of, strings_of, trim, trim_chars, views, ws_tokens,
};

verus! {

/// The built-in commands.
#[derive(Clone, Copy, PartialEq, Eq, Structural, Debug)]
pub enum Builtin {
    Echo,
    Cat,
    Ls,
    Find,
    Grep,
    Head,
    Tail,
    Touch,
    Cd,
    Pwd,
    Exit,
    Help,
}

/// The shell: it knows its built-in commands and the directory it
/// started in.
pub struct Shell {
    pub working_dir: String,
}

/// The built-in command called `name`, if there is one.
pub open spec fn builtin_named(name: Seq<char>) -> Option<Builtin> {
    if name == "echo"@ {
        Some(Builtin::Echo)
    } else if name == "cat"@ {
        Some(Builtin::Cat)
    } else if name == "ls"@ {
        Some(Builtin::Ls)
    } else if name == "find"@ {
        Some(Builtin::Find)
    } else if name == "grep"@ {
        Some(Builtin::Grep)
    } else if name == "head"@ {
        Some(Builtin::Head)
    } else if name == "tail"@ {
        Some(Builtin::Tail)
    } else if name == "touch"@ {
        Some(Builtin::Touch)
    } else if name == "cd"@ {
        Some(Builtin::Cd)
    } else if name == "pwd"@ {
        Some(Builtin::Pwd)
    } else if name == "exit"@ {
        Some(Builtin::Exit)
    } else if name == "help"@ {
        Some(Builtin::Help)
    } else {
        None
    }
}

/// The name a built-in command is called by.
pub open spec fn command_name(b: Builtin) -> Seq<char> {
    match b {
        Builtin::Echo => "echo"@,
        Builtin::Cat => "cat"@,
        Builtin::Ls => "ls"@,
        Builtin::Find => "find"@,
        Builtin::Grep => "grep"@,
        Builtin::Head => "head"@,
        Builtin::Tail => "tail"@,
        Builtin::Touch => "touch"@,
        Builtin::Cd => "cd"@,
        Builtin::Pwd => "pwd"@,
        Builtin::Exit => "exit"@,
        Builtin::Help => "help"@,
    }
}

/// The shell knows exactly twelve commands, each under one name: a word
/// names command `b` exactly when it is `b`'s name, so every other word
/// is an unknown command.
pub proof fn law_command_names(w: Seq<char>, b: Builtin)
    ensures
        builtin_named(command_name(b)) == Some(b),
        (builtin_named(w) == Some(b)) == (w == command_name(b)),
        builtin_named(w) is None <==> (forall|c: Builtin| w != #[trigger] command_name(c)),
{
    reveal_strlit("echo");
    reveal_strlit("cat");
    reveal_strlit("ls");
    reveal_strlit("find");
    reveal_strlit("grep");
    reveal_strlit("head");
    reveal_strlit("tail");
    reveal_strlit("touch");
    reveal_strlit("cd");
    reveal_strlit("pwd");
    reveal_strlit("exit");
    reveal_strlit("help");
    assert("echo"@.len() == 4 && "cat"@.len() == 3 && "ls"@.len() == 2 && "find"@.len() == 4);
    assert("grep"@.len() == 4 && "head"@.len() == 4 && "tail"@.len() == 4 && "touch"@.len() == 5);
    assert("cd"@.len() == 2 && "pwd"@.len() == 3 && "exit"@.len() == 4 && "help"@.len() == 4);
    assert("echo"@[0] == 'e' && "find"@[0] == 'f' && "grep"@[0] == 'g' && "head"@[0] == 'h');
    assert("tail"@[0] == 't' && "exit"@[0] == 'e' && "help"@[0] == 'h' && "cat"@[0] == 'c');
    assert("pwd"@[0] == 'p' && "ls"@[0] == 'l' && "cd"@[0] == 'c');
    assert("echo"@[1] == 'c' && "exit"@[1] == 'x' && "head"@[1] == 'e' && "help"@[1] == 'e');
    assert("head"@[2] == 'a' && "help"@[2] == 'l');
    if builtin_named(w) is Some {
        let c = builtin_named(w)->0;
        assert(w == command_name(c));
    }
}

/// What command `b` does first, given its input and arguments.
pub open spec fn plan_of(b: Builtin, input: Option<Seq<char>>, args: Seq<Seq<char>>) -> PlanView {
    match b {
        Builtin::Echo => PlanView::Finished(Ok(crate::text::join(args, " "@))),
        Builtin::Help => PlanView::Finished(Ok(help_text())),
        Builtin::Cat => cat_plan(input, args),
        Builtin::Ls => ls_plan(args),
        Builtin::Find => find_plan(args),
        Builtin::Grep => grep_plan(input, args),
        Builtin::Head => lines_plan(false, input, args),
        Builtin::Tail => lines_plan(true, input, args),
        Builtin::Touch => touch_plan(args),
        Builtin::Cd => cd_plan(args),
        Builtin::Pwd => PlanView::Perform(RequestView::CurrentDir),
        Builtin::Exit => PlanView::Perform(RequestView::Exit),
    }
}

/// The result of command `b` once the outside work it asked for is done.
pub open spec fn finish_of(b: Builtin, args: Seq<Seq<char>>, reply: ReplyView) -> Result<
    Seq<char>,
    Seq<char>,
> {
    match (b, reply) {
        (Builtin::Cat, ReplyView::Contents(cs)) => cat_contents(args, cs),
        (Builtin::Ls, ReplyView::Names(r)) => ls_names(args, r),
        (Builtin::Find, ReplyView::Files(r)) => find_files(args, r),
        (Builtin::Grep, ReplyView::Text(r)) => grep_read(args, r),
        (Builtin::Head, ReplyView::Text(r)) => lines_read(false, args, r),
        (Builtin::Tail, ReplyView::Text(r)) => lines_read(true, args, r),
        (Builtin::Touch, ReplyView::Done(r)) => done_result("touch"@, r),
        (Builtin::Cd, ReplyView::Done(r)) => done_result("cd"@, r),
        (Builtin::Pwd, ReplyView::Text(r)) => pwd_result(r),
        _ => Ok(seq![]),
    }
}

/// The stages of a command line: the pieces between `|`, trimmed.
pub open spec fn stages_of(line: Seq<char>) -> Seq<Seq<char>> {
    split_char(line, '|').map_values(|s: Seq<char>| trim(s))
}

/// The error a pipeline reports when command `name` fails with `e`.
pub open spec fn failure(name: Seq<char>, e: Seq<char>) -> Seq<char> {
    "Error executing '"@ + name + "': "@ + e
}

/// Where running a pipeline gets to: a final result, or a stage waiting
/// for outside work.
pub enum DriveView {
    Done(Result<Seq<char>, Seq<char>>),
    Blocked {
        stage: nat,
        builtin: Builtin,
        name: Seq<char>,
        input: Option<Seq<char>>,
        args: Seq<Seq<char>>,
        request: RequestView,
    },
}

/// Runs the stages from `i` on, with `prev` the previous output: empty
/// stages are skipped, an unknown command or a failing one ends the
/// pipeline with an error, and the last output (or nothing) is the result.
pub open spec fn drive(stages: Seq<Seq<char>>, i: nat, prev: Option<Seq<char>>) -> DriveView
    decreases stages.len() - i,
{
    if i >= stages.len() {
        DriveView::Done(
            Ok(
                match prev {
                    Some(o) => o,
                    None => seq![],
                },
            ),
        )
    } else {
        let t = ws_tokens(stages[i as int]);
        if t.len() == 0 {
            drive(stages, i + 1, prev)
        } else {
            match builtin_named(t[0]) {
                None => DriveView::Done(Err("Unknown command: "@ + t[0])),
                Some(b) => match plan_of(b, prev, t.skip(1)) {
                    PlanView::Finished(Ok(o)) => drive(stages, i + 1, Some(o)),
                    PlanView::Finished(Err(e)) => DriveView::Done(Err(failure(t[0], e))),
                    PlanView::Perform(q) => DriveView::Blocked {
                        stage: i,
                        builtin: b,
                        name: t[0],
                        input: prev,
                        args: t.skip(1),
                        request: q,
                    },
                },
            }
        }
    }
}

/// `cat` in a pipeline passes its input on unchanged: a stage `cat ...`
/// that receives `x` hands `x` to the next stage.
pub proof fn law_cat_passes_input(stages: Seq<Seq<char>>, i: nat, x: Seq<char>)
    requires
        i < stages.len(),
        ws_tokens(stages[i as int]).len() >= 1,
        ws_tokens(stages[i as int])[0] == "cat"@,
    ensures
        drive(stages, i, Some(x)) == drive(stages, i + 1, Some(x)),
{
    reveal_strlit("cat");
    reveal_strlit("echo");
    assert(builtin_named("cat"@) == Some(Builtin::Cat));
}

/// `echo` in a pipeline hands its arguments, joined with spaces, to the
/// next stage, whatever its input.
pub proof fn law_echo_output(stages: Seq<Seq<char>>, i: nat, prev: Option<Seq<char>>)
    requires
        i < stages.len(),
        ws_tokens(stages[i as int]).len() >= 1,
        ws_tokens(stages[i as int])[0] == "echo"@,
    ensures
        drive(stages, i, prev) == drive(
            stages,
            i + 1,
            Some(crate::text::join(ws_tokens(stages[i as int]).skip(1), " "@)),
        ),
{
}

/// A command that is not built in ends the pipeline with an error naming it.
pub proof fn law_unknown_command(stages: Seq<Seq<char>>, i: nat, prev: Option<Seq<char>>)
    requires
        i < stages.len(),
        ws_tokens(stages[i as int]).len() >= 1,
        builtin_named(ws_tokens(stages[i as int])[0]) is None,
    ensures
        drive(stages, i, prev) == DriveView::Done(
            Err("Unknown command: "@ + ws_tokens(stages[i as int])[0]),
        ),
{
}

/// A stage waiting for the outcome of its request.
pub struct Pending {
    pub builtin: Builtin,
    pub name: String,
    pub context: CommandContext,
    pub request: Request,
}

/// What the caller does next while running a pipeline.
pub enum Step {
    /// The pipeline is over, with this result.
    Finished(Result<String, String>),
    /// Perform this request and hand the reply to `resume`.
    Perform(Request),
}

/// A pipeline being run.
pub struct Execution {
    stages: Vec<String>,
    next: usize,
    previous: Option<String>,
    pending: Option<Pending>,
    outcome: Option<Result<String, String>>,
}

/// Copies a list of strings.
fn clone_strings(v: &Vec<String>) -> (r: Vec<String>)
    ensures
        views(r@) == views(v@),
{
    let mut r: Vec<String> = Vec::new();
    let mut i: usize = 0;
    while i < v.len()
        invariant
            i <= v.len(),
            views(r@) == views(v@).take(i as int),
        decreases v.len() - i,
    {
        let s = v[i].clone();
        let ghost before = views(r@);
        let ghost sv = s@;
        assert(sv == views(v@)[i as int]);
        r.push(s);
        assert(views(r@) =~= before.push(sv));
        assert(views(r@) =~= views(v@).take(i as int + 1));
        i += 1;
    }
    assert(views(v@).take(v.len() as int) =~= views(v@));
    r
}

/// Copies an optional string.
fn clone_opt(o: &Option<String>) -> (r: Option<String>)
    ensures
        opt_view(r) == opt_view(*o),
{
    match o {
        Some(s) => Some(s.clone()),
        None => None,
    }
}

/// Copies a request.
fn clone_request(q: &Request) -> (r: Request)
    ensures
        r@ == q@,
{
    match q {
        Request::ReadFiles(v) => Request::ReadFiles(clone_strings(v)),
        Request::ReadFile(s) => Request::ReadFile(s.clone()),
        Request::ListDir(s) => Request::ListDir(s.clone()),
        Request::Walk(s) => Request::Walk(s.clone()),
        Request::CreateFiles(v) => Request::CreateFiles(clone_strings(v)),
        Request::ChangeDir(o) => Request::ChangeDir(clone_opt(o)),
        Request::CurrentDir => Request::CurrentDir,
        Request::Exit => Request::Exit,
    }
}

/// Copies a result.
fn clone_result(r: &Result<String, String>) -> (c: Result<String, String>)
    ensures
        result_view(c) == result_view(*r),
{
    match r {
        Ok(s) => Ok(s.clone()),
        Err(e) => Err(e.clone()),
    }
}

/// Whether `reply` is the kind of answer `request` calls for.
pub fn fits(request: &Request, reply: &Reply) -> (b: bool)
    ensures
        b == reply_fits(request@, reply@),
{
    match request {
        Request::ReadFiles(_) => matches!(reply, Reply::Contents(_)),
        Request::ReadFile(_) => matches!(reply, Reply::Text(_)),
        Request::ListDir(_) => matches!(reply, Reply::Names(_)),
        Request::Walk(_) => matches!(reply, Reply::Files(_)),
        Request::CreateFiles(_) => matches!(reply, Reply::Done(_)),
        Request::ChangeDir(_) => matches!(reply, Reply::Done(_)),
        Request::CurrentDir => matches!(reply, Reply::Text(_)),
        Request::Exit => matches!(reply, Reply::Done(_)),
    }
}

impl Shell {
    /// A shell that started in `working_dir`.
    pub fn new(working_dir: String) -> (s: Self)
        ensures
            s.working_dir@ == working_dir@,
    {
        Shell { working_dir }
    }

    /// The built-in command called `name`, if there is one.
    pub fn lookup(name: &[char]) -> (b: Option<Builtin>)
        ensures
            b == builtin_named(name@),
    {
        if chars_eq_str(name, "echo") {
            Some(Builtin::Echo)
        } else if chars_eq_str(name, "cat") {
            Some(Builtin::Cat)
        } else if chars_eq_str(name, "ls") {
            Some(Builtin::Ls)
        } else if chars_eq_str(name, "find") {
            Some(Builtin::Find)
        } else if chars_eq_str(name, "grep") {
            Some(Builtin::Grep)
        } else if chars_eq_str(name, "head") {
            Some(Builtin::Head)
        } else if chars_eq_str(name, "tail") {
            Some(Builtin::Tail)
        } else if chars_eq_str(name, "touch") {
            Some(Builtin::Touch)
        } else if chars_eq_str(name, "cd") {
            Some(Builtin::Cd)
        } else if chars_eq_str(name, "pwd") {
            Some(Builtin::Pwd)
        } else if chars_eq_str(name, "exit") {
            Some(Builtin::Exit)
        } else if chars_eq_str(name, "help") {
            Some(Builtin::Help)
        } else {
            None
        }
    }

    /// Starts command `b` on `context`.
    pub fn plan(b: Builtin, context: &CommandContext) -> (p: Plan)
        ensures
            p@ == plan_of(b, context.input_view(), context.args_view()),
    {
        match b {
            Builtin::Echo => Plan::Finished(Self::echo(context)),
            Builtin::Help => Plan::Finished(Self::help(context)),
            Builtin::Cat => Self::cat(context),
            Builtin::Ls => Self::ls(context),
            Builtin::Find => Self::find(context),
            Builtin::Grep => Self::grep(context),
            Builtin::Head => Self::head(context),
            Builtin::Tail => Self::tail(context),
            Builtin::Touch => Self::touch(context),
            Builtin::Cd => Self::cd(context),
            Builtin::Pwd => Self::pwd(context),
            Builtin::Exit => Self::exit_shell(context),
        }
    }

    /// Finishes command `b` on `context` from the reply to its request.
    pub fn finish(b: Builtin, context: &CommandContext, reply: &Reply) -> (r: Result<String, String>)
        requires
            plan_of(b, context.input_view(), context.args_view()) is Perform,
        ensures
            result_view(r) == finish_of(b, context.args_view(), reply@),
    {
        match (b, reply) {
            (Builtin::Cat, Reply::Contents(cs)) => Self::cat_finish(context, cs),
            (Builtin::Ls, Reply::Names(r)) => Self::ls_finish(context, r),
            (Builtin::Find, Reply::Files(r)) => Self::find_finish(context, r),
            (Builtin::Grep, Reply::Text(r)) => Self::grep_finish(context, r),
            (Builtin::Head, Reply::Text(r)) => Self::lines_finish(false, context, r),
            (Builtin::Tail, Reply::Text(r)) => Self::lines_finish(true, context, r),
            (Builtin::Touch, Reply::Done(r)) => Self::done_finish("touch", r),
            (Builtin::Cd, Reply::Done(r)) => Self::done_finish("cd", r),
            (Builtin::Pwd, Reply::Text(r)) => Self::pwd_finish(r),
            _ => Ok(String::new()),
        }
    }

    /// The stages of a command line: the pieces between `|`, trimmed.
    pub fn parse_pipeline(&self, command_line: &str) -> (r: Vec<String>)
        ensures
            views(r@) == stages_of(command_line@),
    {
        let c = chars_of(command_line);
        let pieces = split_at_char(c.as_slice(), '|');
        let mut out: Vec<Vec<char>> = Vec::new();
        let mut i: usize = 0;
        while i < pieces.len()
            invariant
                i <= pieces.len(),
                seqs(out@) == seqs(pieces@).take(i as int).map_values(|s: Seq<char>| trim(s)),
            decreases pieces.len() - i,
        {
            let t = trim_chars(pieces[i].as_slice());
            let ghost before = seqs(out@);
            let ghost tv = t@;
            out.push(t);
            assert(seqs(out@) =~= before.push(tv));
            assert(seqs(pieces@).take(i as int + 1).map_values(|s: Seq<char>| trim(s)) =~= seqs(
                pieces@,
            ).take(i as int).map_values(|s: Seq<char>| trim(s)).push(tv));
            i += 1;
        }
        assert(seqs(pieces@).take(pieces.len() as int) =~= seqs(pieces@));
        strings_of(&out)
    }

    /// Starts running `command_line`: a pipeline of built-in commands, each
    /// stage taking the previous stage's output as its input.
    pub fn execute(&self, command_line: &str) -> (e: Execution)
        ensures
            e.stages_view() == stages_of(command_line@),
            e.next_stage() == 0,
            e.previous_view() is None,
            e.pending_view() is None,
            e.outcome_view() is None,
    {
        let stages = self.parse_pipeline(command_line);
        Execution { stages, next: 0, previous: None, pending: None, outcome: None }
    }
}

/// The error text of a failing command.
fn failure_text(name: &[char], e: &str) -> (s: String)
    ensures
        s@ == failure(name@, e@),
{
    let mut v = chars_of("Error executing '");
    push_all(&mut v, name);
    push_str(&mut v, "': ");
    push_str(&mut v, e);
    string_of(v.as_slice())
}

impl Execution {
    pub closed spec fn stages_view(&self) -> Seq<Seq<char>> {
        views(self.stages@)
    }

    pub closed spec fn next_stage(&self) -> nat {
        self.next as nat
    }

    pub closed spec fn previous_view(&self) -> Option<Seq<char>> {
        opt_view(self.previous)
    }

    pub closed spec fn outcome_view(&self) -> Option<Result<Seq<char>, Seq<char>>> {
        match self.outcome {
            Some(r) => Some(result_view(r)),
            None => None,
        }
    }

    /// The stage waiting for outside work, if any: its command, name,
    /// input, arguments and request.
    pub closed spec fn pending_view(&self) -> Option<
        (Builtin, Seq<char>, Option<Seq<char>>, Seq<Seq<char>>, RequestView),
    > {
        match self.pending {
            Some(p) => Some(
                (p.builtin, p.name@, p.context.input_view(), p.context.args_view(), p.request@),
            ),
            None => None,
        }
    }

    #[verifier::type_invariant]
    closed spec fn inv(self) -> bool {
        &&& self.next <= self.stages.len()
        &&& self.pending matches Some(p) ==> {
            &&& self.outcome is None
            &&& plan_of(p.builtin, p.context.input_view(), p.context.args_view())
                == PlanView::Perform(p.request@)
        }
    }

    /// Whether `reply` answers the request that the pipeline waits on.
    pub fn accepts(&self, reply: &Reply) -> (b: bool)
        ensures
            b == (self.pending_view() matches Some(p) && reply_fits(p.4, reply@)),
    {
        match &self.pending {
            None => false,
            Some(p) => fits(&p.request, reply),
        }
    }

    /// Runs the pipeline on until it is over or a stage needs outside work.
    pub fn advance(&mut self) -> (step: Step)
        ensures
            final(self).stages_view() == old(self).stages_view(),
            match old(self).outcome_view() {
                Some(r) => {
                    &&& final(self).outcome_view() == Some(r)
                    &&& step matches Step::Finished(s) && result_view(s) == r
                },
                None => match old(self).pending_view() {
                    Some(p) => {
                        &&& final(self).pending_view() == old(self).pending_view()
                        &&& final(self).outcome_view() is None
                        &&& step matches Step::Perform(q) && q@ == p.4
                    },
                    None => match drive(
                        old(self).stages_view(),
                        old(self).next_stage(),
                        old(self).previous_view(),
                    ) {
                        DriveView::Done(r) => {
                            &&& final(self).outcome_view() == Some(r)
                            &&& step matches Step::Finished(s) && result_view(s) == r
                        },
                        DriveView::Blocked { stage, builtin, name, input, args, request } => {
                            &&& final(self).pending_view() == Some(
                                (builtin, name, input, args, request),
                            )
                            &&& final(self).outcome_view() is None
                            &&& final(self).next_stage() == stage + 1
                            &&& step matches Step::Perform(q) && q@ == request
                        },
                    },
                },
            },
    {
        proof {
            use_type_invariant(&*self);
        }
        match &self.outcome {
            Some(r) => {
                return Step::Finished(clone_result(r));
            },
            None => {},
        }
        match &self.pending {
            Some(p) => {
                return Step::Perform(clone_request(&p.request));
            },
            None => {},
        }
        let ghost target = drive(self.stages_view(), self.next_stage(), self.previous_view());
        while self.next < self.stages.len()
            invariant
                self.next <= self.stages.len(),
                self.stages_view() == old(self).stages_view(),
                self.pending is None,
                self.outcome is None,
                old(self).outcome_view() is None,
                old(self).pending_view() is None,
                target == drive(
                    old(self).stages_view(),
                    old(self).next_stage(),
                    old(self).previous_view(),
                ),
                drive(self.stages_view(), self.next_stage(), self.previous_view()) == target,
            decreases self.stages.len() - self.next,
        {
            let stage = chars_of(self.stages[self.next].as_str());
            assert(stage@ == self.stages_view()[self.next as int]);
            let t = split_ws(stage.as_slice());
            let ghost tv = seqs(t@);
            assert(tv == ws_tokens(self.stages_view()[self.next as int]));
            if t.len() == 0 {
                self.next = self.next + 1;
            } else {
                let name = string_of(t[0].as_slice());
                assert(tv[0] == t@[0]@);
                match Shell::lookup(t[0].as_slice()) {
                    None => {
                        let mut msg = chars_of("Unknown command: ");
                        push_all(&mut msg, t[0].as_slice());
                        let r = Err(string_of(msg.as_slice()));
                        let c = clone_result(&r);
                        self.outcome = Some(r);
                        return Step::Finished(c);
                    },
                    Some(b) => {
                        let mut rest: Vec<Vec<char>> = Vec::new();
                        let mut k: usize = 1;
                        while k < t.len()
                            invariant
                                1 <= k <= t.len(),
                                seqs(rest@) == seqs(t@).subrange(1, k as int),
                            decreases t.len() - k,
                        {
                            let w = t[k].clone();
                            let ghost before = seqs(rest@);
                            let ghost wv = w@;
                            rest.push(w);
                            assert(seqs(rest@) =~= before.push(wv));
                            assert(seqs(t@).subrange(1, k as int + 1) =~= seqs(t@).subrange(
                                1,
                                k as int,
                            ).push(wv));
                            k += 1;
                        }
                        assert(seqs(t@).subrange(1, t.len() as int) =~= seqs(t@).skip(1));
                        let args = strings_of(&rest);
                        let input = match &self.previous {
                            Some(x) => Some(x.clone()),
                            None => None,
                        };
                        let context = CommandContext { input, args };
                        assert(context.input_view() == self.previous_view());
                        match Shell::plan(b, &context) {
                            Plan::Finished(Ok(o)) => {
                                self.previous = Some(o);
                                self.next = self.next + 1;
                            },
                            Plan::Finished(Err(e)) => {
                                let r = Err(failure_text(t[0].as_slice(), e.as_str()));
                                let c = clone_result(&r);
                                self.outcome = Some(r);
                                return Step::Finished(c);
                            },
                            Plan::Perform(q) => {
                                let kept = clone_request(&q);
                                self.next = self.next + 1;
                                self.pending = Some(
                                    Pending { builtin: b, name, context, request: kept },
                                );
                                return Step::Perform(q);
                            },
                        }
                    },
                }
            }
        }
        let r = match &self.previous {
            Some(o) => Ok(o.clone()),
            None => Ok(String::new()),
        };
        let c = clone_result(&r);
        self.outcome = Some(r);
        Step::Finished(c)
    }

    /// Completes the waiting stage with the reply to its request.
    pub fn resume(&mut self, reply: Reply)
        requires
            old(self).pending_view() matches Some(p) && reply_fits(p.4, reply@),
        ensures
            final(self).stages_view() == old(self).stages_view(),
            final(self).next_stage() == old(self).next_stage(),
            final(self).pending_view() is None,
            ({
                let p = old(self).pending_view()->0;
                match finish_of(p.0, p.3, reply@) {
                    Ok(o) => final(self).previous_view() == Some(o)
                        && final(self).outcome_view() is None,
                    Err(e) => final(self).outcome_view() == Some(
                        Err::<Seq<char>, Seq<char>>(failure(p.1, e)),
                    ),
                }
            }),
    {
        proof {
            use_type_invariant(&*self);
        }
        let mut p: Option<Pending> = None;
        std::mem::swap(&mut self.pending, &mut p);
        match p {
            Some(p) => {
                let r = Shell::finish(p.builtin, &p.context, &reply);
                match r {
                    Ok(o) => {
                        self.previous = Some(o);
                    },
                    Err(e) => {
                        let name = chars_of(p.name.as_str());
                        self.outcome = Some(Err(failure_text(name.as_slice(), e.as_str())));
                    },
                }
            },
            None => {},
        }
    }
}

} // verus!
