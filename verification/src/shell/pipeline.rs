//! The pipeline grammar: a raw input line is split into stages joined by
//! the control operators `|`, `&&`, `||`, `;` and `>`, and the parsed
//! pipeline is turned into a plan of actions for the embedding program.

use vstd::prelude::*;
use vstd::string::StringExecFns;
use crate::engine::commands::CommandError;
use crate::engine::config::AliasManager;
use crate::table::spec_lookup;
use crate::text::str_eq;
use crate::text::{
    all_spaces_from, blank_from, chars_of, is_blank, lemma_tokens_nonblank, spec_tokens,
    split_tokens, string_from_chars,
};

verus! {

/// The control operator that follows a stage.
#[derive(Debug, Clone, Copy, PartialEq, Eq, Structural)]
pub enum PipelineOperator {
    Pipe,
    And,
    Or,
    Sequence,
    Redirect,
}

/// One parsed stage: a command, its arguments, and the operator that
/// follows it (`None` for the last stage).
#[derive(Debug, Clone)]
pub struct PipelineStage {
    pub command: String,
    pub args: Vec<String>,
    pub operator: Option<PipelineOperator>,
}

/// The mathematical shape of a stage.
pub ghost struct StageView {
    pub command: Seq<char>,
    pub args: Seq<Seq<char>>,
    pub operator: Option<PipelineOperator>,
}

impl View for PipelineStage {
    type V = StageView;

    open spec fn view(&self) -> StageView {
        StageView { command: self.command@, args: self.args.deep_view(), operator: self.operator }
    }
}

/// The views of a sequence of stages.
pub open spec fn stages_view(ss: Seq<PipelineStage>) -> Seq<StageView> {
    ss.map_values(|st: PipelineStage| st@)
}

/// Failures of parsing or executing a pipeline.
#[derive(Debug)]
pub enum PipelineError {
    IoError(String),
    CommandError(CommandError),
    ParseError(String),
    ExecutionError(String),
}

impl PipelineError {
    /// The human-readable description of this error.
    pub fn message(&self) -> (r: String)
        ensures
            match self {
                PipelineError::IoError(msg) => r@ == "IO error: "@ + msg@,
                PipelineError::CommandError(_) => r@.len() > 0,
                PipelineError::ParseError(msg) => r@ == "Parse error: "@ + msg@,
                PipelineError::ExecutionError(msg) => r@ == "Execution error: "@ + msg@,
            },
    {
        match self {
            PipelineError::IoError(msg) => {
                let mut s = String::from_str("IO error: ");
                s.append(msg.as_str());
                s
            },
            PipelineError::CommandError(err) => {
                let mut s = String::from_str("Command error: ");
                let inner = err.message();
                s.append(inner.as_str());
                proof {
                    reveal_strlit("Command error: ");
                }
                s
            },
            PipelineError::ParseError(msg) => {
                let mut s = String::from_str("Parse error: ");
                s.append(msg.as_str());
                s
            },
            PipelineError::ExecutionError(msg) => {
                let mut s = String::from_str("Execution error: ");
                s.append(msg.as_str());
                s
            },
        }
    }
}

/// The stage built from the buffered text `cur`: its first token is the
/// command, the remaining tokens the arguments.
pub open spec fn stage_of(cur: Seq<char>, op: Option<PipelineOperator>) -> StageView {
    let toks = spec_tokens(cur);
    StageView { command: toks[0], args: toks.drop_first(), operator: op }
}

/// The parse of `s` from position `i`, with the buffered text `cur` and the
/// stages `acc` already emitted. An `Err` carries the message of the
/// `ParseError`.
pub open spec fn spec_parse_from(
    s: Seq<char>,
    i: int,
    cur: Seq<char>,
    acc: Seq<StageView>,
) -> Result<Seq<StageView>, Seq<char>>
    decreases s.len() - i,
{
    if i < 0 || i >= s.len() {
        if !is_blank(cur) {
            Ok(acc.push(stage_of(cur, None)))
        } else if acc.len() == 0 {
            Err("Empty pipeline"@)
        } else {
            Ok(acc)
        }
    } else {
        let c = s[i];
        if c == '|' && i + 1 < s.len() && s[i + 1] == '|' {
            if blank_from(s, i + 2) {
                Err("Incomplete pipeline: missing command after ||"@)
            } else if is_blank(cur) {
                Err("Empty command"@)
            } else {
                spec_parse_from(
                    s,
                    i + 2,
                    Seq::empty(),
                    acc.push(stage_of(cur, Some(PipelineOperator::Or))),
                )
            }
        } else if c == '|' {
            if blank_from(s, i + 1) {
                Err("Incomplete pipeline: missing command after |"@)
            } else if is_blank(cur) {
                Err("Empty command"@)
            } else {
                spec_parse_from(
                    s,
                    i + 1,
                    Seq::empty(),
                    acc.push(stage_of(cur, Some(PipelineOperator::Pipe))),
                )
            }
        } else if c == '&' && i + 1 < s.len() && s[i + 1] == '&' {
            if blank_from(s, i + 2) {
                Err("Incomplete command: missing command after &&"@)
            } else if is_blank(cur) {
                Err("Empty command"@)
            } else {
                spec_parse_from(
                    s,
                    i + 2,
                    Seq::empty(),
                    acc.push(stage_of(cur, Some(PipelineOperator::And))),
                )
            }
        } else if c == ';' {
            if is_blank(cur) {
                Err("Empty command"@)
            } else {
                spec_parse_from(
                    s,
                    i + 1,
                    Seq::empty(),
                    acc.push(stage_of(cur, Some(PipelineOperator::Sequence))),
                )
            }
        } else if c == '>' {
            if is_blank(cur) {
                Err("Empty command"@)
            } else {
                spec_parse_from(
                    s,
                    i + 1,
                    Seq::empty(),
                    acc.push(stage_of(cur, Some(PipelineOperator::Redirect))),
                )
            }
        } else {
            spec_parse_from(s, i + 1, cur.push(c), acc)
        }
    }
}

/// The parse of a whole input line.
pub open spec fn spec_parse(s: Seq<char>) -> Result<Seq<StageView>, Seq<char>> {
    spec_parse_from(s, 0, Seq::empty(), Seq::empty())
}

/// An ordered, non-empty sequence of stages, parsed from one input line.
pub struct Pipeline {
    stages: Vec<PipelineStage>,
}

impl View for Pipeline {
    type V = Seq<StageView>;

    closed spec fn view(&self) -> Seq<StageView> {
        stages_view(self.stages@)
    }
}

impl Pipeline {
    /// A pipeline with no stages.
    pub fn new() -> (r: Pipeline)
        ensures
            r@ == Seq::<StageView>::empty(),
    {
        let r = Pipeline { stages: Vec::new() };
        proof {
            assert(r@ =~= Seq::<StageView>::empty());
        }
        r
    }

    /// Substitute every `$NAME` reference in `input` against the given
    /// environment table.
    pub fn expand_env_vars(&self, input: &str, env_vars: &crate::engine::env::EnvVarManager) -> (r:
        String)
        ensures
            r@ == crate::expand::spec_expand_env(input@, env_vars@),
    {
        env_vars.expand_string(input)
    }

    /// The parsed stages, in order.
    pub fn stages(&self) -> (r: &Vec<PipelineStage>)
        ensures
            stages_view(r@) == self@,
    {
        &self.stages
    }

    /// Split the buffered text into command and arguments and append the
    /// stage; buffered text that is empty or whitespace-only is refused.
    pub fn add_stage(
        stages: &mut Vec<PipelineStage>,
        command_str: &str,
        operator: Option<PipelineOperator>,
    ) -> (r: Result<(), PipelineError>)
        ensures
            match r {
                Ok(()) => !is_blank(command_str@) && stages_view(final(stages)@) == stages_view(
                    old(stages)@,
                ).push(stage_of(command_str@, operator)),
                Err(e) => {
                    &&& is_blank(command_str@)
                    &&& final(stages)@ == old(stages)@
                    &&& (e matches PipelineError::ParseError(m) && m@ == "Empty command"@)
                },
            },
    {
        let cs = chars_of(command_str);
        if all_spaces_from(cs.as_slice(), 0) {
            return Err(PipelineError::ParseError(String::from_str("Empty command")));
        }
        let toks = split_tokens(cs.as_slice());
        proof {
            lemma_tokens_nonblank(cs@, 0, Seq::empty());
            assert(toks.deep_view().len() == toks@.len());
        }
        let command = toks[0].clone();
        let mut args: Vec<String> = Vec::new();
        let mut k: usize = 1;
        while k < toks.len()
            invariant
                1 <= k <= toks@.len(),
                toks.deep_view() == spec_tokens(command_str@),
                args.deep_view() == toks.deep_view().subrange(1, k as int),
            decreases toks@.len() - k,
        {
            let ghost pre = args.deep_view();
            let a = toks[k].clone();
            proof {
                assert(a@ == toks.deep_view()[k as int]);
            }
            args.push(a);
            proof {
                assert(args.deep_view() =~~= pre.push(a@));
                assert(args.deep_view() =~~= toks.deep_view().subrange(1, k as int + 1));
            }
            k = k + 1;
        }
        let st = PipelineStage { command, args, operator };
        proof {
            assert(args.deep_view() =~~= spec_tokens(command_str@).drop_first());
            assert(st@.command == spec_tokens(command_str@)[0]);
        }
        stages.push(st);
        proof {
            assert(stages_view(stages@) =~= stages_view(old(stages)@).push(
                stage_of(command_str@, operator),
            ));
        }
        Ok(())
    }

    /// Parse a raw input line into a pipeline, exactly as `spec_parse`
    /// describes: operators split stages, a dangling `|`, `||` or `&&` and
    /// an empty stage are parse errors, and a line with no stages at all is
    /// the `Empty pipeline` error.
    pub fn parse(input: &str) -> (r: Result<Pipeline, PipelineError>)
        ensures
            match r {
                Ok(p) => spec_parse(input@) == Ok::<Seq<StageView>, Seq<char>>(p@),
                Err(e) => e matches PipelineError::ParseError(m) && spec_parse(input@)
                    == Err::<Seq<StageView>, Seq<char>>(m@),
            },
    {
        let s = chars_of(input);
        let mut stages: Vec<PipelineStage> = Vec::new();
        let mut cur: Vec<char> = Vec::new();
        let mut i: usize = 0;
        proof {
            assert(stages_view(stages@) =~= Seq::<StageView>::empty());
        }
        while i < s.len()
            invariant
                0 <= i <= s@.len(),
                s@ == input@,
                spec_parse(input@) == spec_parse_from(
                    s@,
                    i as int,
                    cur@,
                    stages_view(stages@),
                ),
            decreases s@.len() - i,
        {
            let c = s[i];
            if c == '|' && i + 1 < s.len() && s[i + 1] == '|' {
                if all_spaces_from(s.as_slice(), i + 2) {
                    return Err(
                        PipelineError::ParseError(
                            String::from_str("Incomplete pipeline: missing command after ||"),
                        ),
                    );
                }
                let cur_str = string_from_chars(cur.as_slice());
                match Self::add_stage(&mut stages, cur_str.as_str(), Some(PipelineOperator::Or)) {
                    Ok(()) => {},
                    Err(e) => {
                        return Err(e);
                    },
                }
                cur = Vec::new();
                i = i + 2;
            } else if c == '|' {
                if all_spaces_from(s.as_slice(), i + 1) {
                    return Err(
                        PipelineError::ParseError(
                            String::from_str("Incomplete pipeline: missing command after |"),
                        ),
                    );
                }
                let cur_str = string_from_chars(cur.as_slice());
                match Self::add_stage(&mut stages, cur_str.as_str(), Some(PipelineOperator::Pipe)) {
                    Ok(()) => {},
                    Err(e) => {
                        return Err(e);
                    },
                }
                cur = Vec::new();
                i = i + 1;
            } else if c == '&' && i + 1 < s.len() && s[i + 1] == '&' {
                if all_spaces_from(s.as_slice(), i + 2) {
                    return Err(
                        PipelineError::ParseError(
                            String::from_str("Incomplete command: missing command after &&"),
                        ),
                    );
                }
                let cur_str = string_from_chars(cur.as_slice());
                match Self::add_stage(&mut stages, cur_str.as_str(), Some(PipelineOperator::And)) {
                    Ok(()) => {},
                    Err(e) => {
                        return Err(e);
                    },
                }
                cur = Vec::new();
                i = i + 2;
            } else if c == ';' {
                let cur_str = string_from_chars(cur.as_slice());
                match Self::add_stage(
                    &mut stages,
                    cur_str.as_str(),
                    Some(PipelineOperator::Sequence),
                ) {
                    Ok(()) => {},
                    Err(e) => {
                        return Err(e);
                    },
                }
                cur = Vec::new();
                i = i + 1;
            } else if c == '>' {
                let cur_str = string_from_chars(cur.as_slice());
                match Self::add_stage(
                    &mut stages,
                    cur_str.as_str(),
                    Some(PipelineOperator::Redirect),
                ) {
                    Ok(()) => {},
                    Err(e) => {
                        return Err(e);
                    },
                }
                cur = Vec::new();
                i = i + 1;
            } else {
                cur.push(c);
                i = i + 1;
            }
        }
        if !all_spaces_from(cur.as_slice(), 0) {
            let cur_str = string_from_chars(cur.as_slice());
            match Self::add_stage(&mut stages, cur_str.as_str(), None) {
                Ok(()) => {},
                Err(_) => {
                    proof {
                        assert(false);
                    }
                },
            }
            Ok(Pipeline { stages })
        } else if stages.len() == 0 {
            Err(PipelineError::ParseError(String::from_str("Empty pipeline")))
        } else {
            Ok(Pipeline { stages })
        }
    }
}


/// A blank rest of input with a blank buffer and no stages parses to the
/// `Empty pipeline` error.
proof fn lemma_parse_from_blank(s: Seq<char>, i: int, cur: Seq<char>)
    requires
        0 <= i <= s.len(),
        blank_from(s, i),
        is_blank(cur),
    ensures
        spec_parse_from(s, i, cur, Seq::empty()) == Err::<Seq<StageView>, Seq<char>>(
            "Empty pipeline"@,
        ),
    decreases s.len() - i,
{
    if i < s.len() {
        assert(crate::text::is_space(s[i]));
        lemma_parse_from_blank(s, i + 1, cur.push(s[i]));
    }
}

/// An input that is empty or whitespace-only parses to the
/// `Empty pipeline` error.
pub proof fn lemma_parse_blank_input(s: Seq<char>)
    requires
        is_blank(s),
    ensures
        spec_parse(s) == Err::<Seq<StageView>, Seq<char>>("Empty pipeline"@),
{
    lemma_parse_from_blank(s, 0, Seq::empty());
}

/// The rest of the input from `b` on is a dangling operator: `|`, `||` or
/// `&&` followed by whitespace only.
pub open spec fn dangling_op_at(s: Seq<char>, b: int) -> bool {
    &&& 0 <= b < s.len()
    &&& {
        ||| (s[b] == '|' && b + 1 < s.len() && s[b + 1] == '|' && blank_from(s, b + 2))
        ||| (s[b] == '|' && blank_from(s, b + 1))
        ||| (s[b] == '&' && b + 1 < s.len() && s[b + 1] == '&' && blank_from(s, b + 2))
    }
}

/// Scanning towards a dangling operator always ends in a parse error,
/// provided the text before the operator does not itself end in the
/// operator's first character.
proof fn lemma_parse_from_dangling(s: Seq<char>, b: int, i: int, cur: Seq<char>, acc: Seq<
    StageView,
>)
    requires
        0 <= i <= b,
        dangling_op_at(s, b),
        s[b] == '|' ==> (b == 0 || s[b - 1] != '|'),
        s[b] == '&' ==> (b == 0 || s[b - 1] != '&'),
    ensures
        spec_parse_from(s, i, cur, acc) is Err,
    decreases s.len() - i,
{
    let c = s[i];
    if i == b {
        if s[b] == '|' && b + 1 < s.len() && s[b + 1] == '|' && blank_from(s, b + 2) {
            assert(spec_parse_from(s, i, cur, acc) is Err);
        } else if s[b] == '|' {
            assert(blank_from(s, b + 1));
            if b + 1 < s.len() && s[b + 1] == '|' {
                assert(crate::text::is_space(s[b + 1]));
                assert(false);
            }
            assert(spec_parse_from(s, i, cur, acc) is Err);
        } else {
            assert(s[b] == '&' && b + 1 < s.len() && s[b + 1] == '&' && blank_from(s, b + 2));
            assert(spec_parse_from(s, i, cur, acc) is Err);
        }
    } else {
        assert(i < b);
        if c == '|' && i + 1 < s.len() && s[i + 1] == '|' {
            if i + 1 == b {
                assert(s[b] == '|' && s[b - 1] == '|');
                assert(false);
            }
            if !blank_from(s, i + 2) && !is_blank(cur) {
                lemma_parse_from_dangling(
                    s,
                    b,
                    i + 2,
                    Seq::empty(),
                    acc.push(stage_of(cur, Some(PipelineOperator::Or))),
                );
            }
        } else if c == '|' {
            if !blank_from(s, i + 1) && !is_blank(cur) {
                lemma_parse_from_dangling(
                    s,
                    b,
                    i + 1,
                    Seq::empty(),
                    acc.push(stage_of(cur, Some(PipelineOperator::Pipe))),
                );
            }
        } else if c == '&' && i + 1 < s.len() && s[i + 1] == '&' {
            if i + 1 == b {
                assert(s[b] == '&' && s[b - 1] == '&');
                assert(false);
            }
            if !blank_from(s, i + 2) && !is_blank(cur) {
                lemma_parse_from_dangling(
                    s,
                    b,
                    i + 2,
                    Seq::empty(),
                    acc.push(stage_of(cur, Some(PipelineOperator::And))),
                );
            }
        } else if c == ';' {
            if !is_blank(cur) {
                lemma_parse_from_dangling(
                    s,
                    b,
                    i + 1,
                    Seq::empty(),
                    acc.push(stage_of(cur, Some(PipelineOperator::Sequence))),
                );
            }
        } else if c == '>' {
            if !is_blank(cur) {
                lemma_parse_from_dangling(
                    s,
                    b,
                    i + 1,
                    Seq::empty(),
                    acc.push(stage_of(cur, Some(PipelineOperator::Redirect))),
                );
            }
        } else {
            lemma_parse_from_dangling(s, b, i + 1, cur.push(c), acc);
        }
    }
}

/// An input that ends with a dangling `|`, `||` or `&&` — the operator
/// followed by nothing but whitespace — is a parse error, whatever came
/// before it, as long as the text before the operator does not end in the
/// operator's own first character.
pub proof fn lemma_parse_dangling_operator(p: Seq<char>, op: Seq<char>, w: Seq<char>)
    requires
        op == "|"@ || op == "||"@ || op == "&&"@,
        is_blank(w),
        (op == "|"@ || op == "||"@) ==> (p.len() == 0 || p.last() != '|'),
        op == "&&"@ ==> (p.len() == 0 || p.last() != '&'),
    ensures
        spec_parse(p + op + w) is Err,
{
    reveal_strlit("|");
    reveal_strlit("||");
    reveal_strlit("&&");
    let s = p + op + w;
    let b = p.len() as int;
    assert forall|j: int| b + op.len() <= j < s.len() implies crate::text::is_space(
        #[trigger] s[j],
    ) by {
        assert(s[j] == w[j - b - op.len()]);
    }
    if op == "|"@ {
        assert(s[b] == '|');
        assert(blank_from(s, b + 1));
        assert(dangling_op_at(s, b));
    } else if op == "||"@ {
        assert(s[b] == '|' && s[b + 1] == '|');
        assert(blank_from(s, b + 2));
        assert(dangling_op_at(s, b));
    } else {
        assert(s[b] == '&' && s[b + 1] == '&');
        assert(blank_from(s, b + 2));
        assert(dangling_op_at(s, b));
    }
    if b > 0 {
        assert(s[b - 1] == p.last());
    }
    lemma_parse_from_dangling(s, b, 0, Seq::empty(), Seq::empty());
}


/// One step of running a pipeline, for the embedding program to carry out.
#[derive(Debug)]
pub enum StageAction {
    /// Spawn the command with captured standard output; the output becomes
    /// the buffer for the next stage.
    CaptureSpawn { command: String, args: Vec<String> },
    /// Feed the buffer to the text filter through a temporary file handed
    /// to the dispatcher as an extra argument; its output becomes the new
    /// buffer.
    CaptureGrep { args: Vec<String> },
    /// Run through the dispatcher (built-in or spawned), discarding any
    /// buffered output.
    Run { command: String, args: Vec<String> },
    /// Write the buffer to the file at `path` and stop.
    RedirectBuffer { path: String },
    /// Spawn the command with captured output, write that output to the
    /// file at `path`, and stop.
    RedirectSpawn { command: String, args: Vec<String>, path: String },
    /// Write the remaining buffer to standard output.
    PrintBuffer,
}

/// The mathematical shape of a plan step.
pub ghost enum ActionView {
    CaptureSpawn { command: Seq<char>, args: Seq<Seq<char>> },
    CaptureGrep { args: Seq<Seq<char>> },
    Run { command: Seq<char>, args: Seq<Seq<char>> },
    RedirectBuffer { path: Seq<char> },
    RedirectSpawn { command: Seq<char>, args: Seq<Seq<char>>, path: Seq<char> },
    PrintBuffer,
}

impl View for StageAction {
    type V = ActionView;

    open spec fn view(&self) -> ActionView {
        match self {
            StageAction::CaptureSpawn { command, args } => ActionView::CaptureSpawn {
                command: command@,
                args: args.deep_view(),
            },
            StageAction::CaptureGrep { args } => ActionView::CaptureGrep {
                args: args.deep_view(),
            },
            StageAction::Run { command, args } => ActionView::Run {
                command: command@,
                args: args.deep_view(),
            },
            StageAction::RedirectBuffer { path } => ActionView::RedirectBuffer { path: path@ },
            StageAction::RedirectSpawn { command, args, path } => ActionView::RedirectSpawn {
                command: command@,
                args: args.deep_view(),
                path: path@,
            },
            StageAction::PrintBuffer => ActionView::PrintBuffer,
        }
    }
}

/// The views of a sequence of plan steps.
pub open spec fn actions_view(aa: Seq<StageAction>) -> Seq<ActionView> {
    aa.map_values(|a: StageAction| a@)
}

/// The command and arguments of a stage after alias resolution: when the
/// stage's command is an alias with at least one token, the alias's tokens
/// replace the command and lead the arguments; otherwise the stage is
/// unchanged.
pub open spec fn spec_resolved(aliases: Seq<(Seq<char>, Seq<char>)>, st: StageView) -> (
    Seq<char>,
    Seq<Seq<char>>,
) {
    match spec_lookup(aliases, st.command) {
        Some(value) => {
            let toks = spec_tokens(value);
            if toks.len() > 0 {
                (toks[0], toks.drop_first() + st.args)
            } else {
                (st.command, st.args)
            }
        },
        None => (st.command, st.args),
    }
}

/// The plan for the stages from `idx` on, with `has_buffer` saying whether
/// the stage before was a `Pipe` stage whose output is buffered.
pub open spec fn spec_plan_from(
    stages: Seq<StageView>,
    aliases: Seq<(Seq<char>, Seq<char>)>,
    idx: int,
    has_buffer: bool,
) -> Result<Seq<ActionView>, Seq<char>>
    decreases stages.len() - idx,
{
    if idx < 0 || idx >= stages.len() {
        if has_buffer {
            Ok(seq![ActionView::PrintBuffer])
        } else {
            Ok(Seq::empty())
        }
    } else {
        let st = stages[idx];
        let resolved = spec_resolved(aliases, st);
        let cmd = resolved.0;
        let args = resolved.1;
        match st.operator {
            Some(PipelineOperator::Pipe) => {
                if cmd == "grep"@ {
                    if args.len() == 0 {
                        Err("grep: no pattern specified"@)
                    } else {
                        match spec_plan_from(stages, aliases, idx + 1, true) {
                            Ok(rest) => Ok(seq![ActionView::CaptureGrep { args }] + rest),
                            Err(e) => Err(e),
                        }
                    }
                } else {
                    match spec_plan_from(stages, aliases, idx + 1, true) {
                        Ok(rest) => Ok(
                            seq![ActionView::CaptureSpawn { command: cmd, args }] + rest,
                        ),
                        Err(e) => Err(e),
                    }
                }
            },
            Some(PipelineOperator::Redirect) => {
                if idx + 1 < stages.len() {
                    let path = stages[idx + 1].command;
                    if has_buffer {
                        Ok(seq![ActionView::RedirectBuffer { path }])
                    } else {
                        Ok(seq![ActionView::RedirectSpawn { command: cmd, args, path }])
                    }
                } else {
                    Err("Redirect operator requires a file path"@)
                }
            },
            _ => {
                match spec_plan_from(stages, aliases, idx + 1, false) {
                    Ok(rest) => Ok(seq![ActionView::Run { command: cmd, args }] + rest),
                    Err(e) => Err(e),
                }
            },
        }
    }
}

/// The plan for a whole pipeline.
pub open spec fn spec_plan(stages: Seq<StageView>, aliases: Seq<(Seq<char>, Seq<char>)>) -> Result<
    Seq<ActionView>,
    Seq<char>,
> {
    spec_plan_from(stages, aliases, 0, false)
}

/// Resolve one stage against the alias table.
fn resolve_stage(aliases: &AliasManager, st: &PipelineStage) -> (r: (String, Vec<String>))
    ensures
        (r.0@, r.1.deep_view()) == spec_resolved(aliases@, st@),
{
    match aliases.get(st.command.as_str()) {
        Some(value) => {
            let vchars = chars_of(value.as_str());
            let toks = split_tokens(vchars.as_slice());
            proof {
                assert(toks.deep_view().len() == toks@.len());
            }
            if toks.len() > 0 {
                let cmd = toks[0].clone();
                let mut args: Vec<String> = Vec::new();
                let mut k: usize = 1;
                while k < toks.len()
                    invariant
                        1 <= k <= toks@.len(),
                        toks.deep_view() == spec_tokens(value@),
                        args.deep_view() == toks.deep_view().subrange(1, k as int),
                    decreases toks@.len() - k,
                {
                    let ghost pre = args.deep_view();
                    let a = toks[k].clone();
                    proof {
                        assert(a@ == toks.deep_view()[k as int]);
                    }
                    args.push(a);
                    proof {
                        assert(args.deep_view() =~~= pre.push(a@));
                        assert(args.deep_view() =~~= toks.deep_view().subrange(1, k as int + 1));
                    }
                    k = k + 1;
                }
                let mut m: usize = 0;
                while m < st.args.len()
                    invariant
                        0 <= m <= st.args@.len(),
                        args.deep_view() == spec_tokens(value@).drop_first()
                            + st.args.deep_view().subrange(0, m as int),
                    decreases st.args@.len() - m,
                {
                    let ghost pre = args.deep_view();
                    let a = st.args[m].clone();
                    proof {
                        assert(a@ == st.args.deep_view()[m as int]);
                    }
                    args.push(a);
                    proof {
                        assert(args.deep_view() =~~= pre.push(a@));
                        assert(args.deep_view() =~~= spec_tokens(value@).drop_first()
                            + st.args.deep_view().subrange(0, m as int + 1));
                    }
                    m = m + 1;
                }
                proof {
                    assert(st.args.deep_view().subrange(0, st.args@.len() as int) =~~= st.args.deep_view());
                }
                (cmd, args)
            } else {
                let cmd = st.command.clone();
                let mut args: Vec<String> = Vec::new();
                let mut m: usize = 0;
                while m < st.args.len()
                    invariant
                        0 <= m <= st.args@.len(),
                        args.deep_view() == st.args.deep_view().subrange(0, m as int),
                    decreases st.args@.len() - m,
                {
                    let ghost pre = args.deep_view();
                    let a = st.args[m].clone();
                    proof {
                        assert(a@ == st.args.deep_view()[m as int]);
                    }
                    args.push(a);
                    proof {
                        assert(args.deep_view() =~~= pre.push(a@));
                        assert(args.deep_view() =~~= st.args.deep_view().subrange(
                            0,
                            m as int + 1,
                        ));
                    }
                    m = m + 1;
                }
                proof {
                    assert(args.deep_view() =~~= st.args.deep_view());
                }
                (cmd, args)
            }
        },
        None => {
            let cmd = st.command.clone();
            let mut args: Vec<String> = Vec::new();
            let mut m: usize = 0;
            while m < st.args.len()
                invariant
                    0 <= m <= st.args@.len(),
                    args.deep_view() == st.args.deep_view().subrange(0, m as int),
                decreases st.args@.len() - m,
            {
                let ghost pre = args.deep_view();
                let a = st.args[m].clone();
                proof {
                    assert(a@ == st.args.deep_view()[m as int]);
                }
                args.push(a);
                proof {
                    assert(args.deep_view() =~~= pre.push(a@));
                    assert(args.deep_view() =~~= st.args.deep_view().subrange(0, m as int + 1));
                }
                m = m + 1;
            }
            proof {
                assert(args.deep_view() =~~= st.args.deep_view());
            }
            (cmd, args)
        },
    }
}


impl Pipeline {
    /// Turn the parsed stages into the plan of actions that runs them: a
    /// `Pipe` stage captures output (the text filter reads the buffer
    /// through the dispatcher), `&&`, `||`, `;` and the last stage run
    /// through the dispatcher and drop the buffer, and `>` writes the
    /// buffer — or freshly captured output — to the next stage's command
    /// field as a file path and ends the plan. A remaining buffer is
    /// printed. Aliases are resolved on each stage's first token.
    pub fn execution_plan(&self, aliases: &AliasManager) -> (r: Result<
        Vec<StageAction>,
        PipelineError,
    >)
        ensures
            match r {
                Ok(actions) => spec_plan(self@, aliases@) == Ok::<Seq<ActionView>, Seq<char>>(
                    actions_view(actions@),
                ),
                Err(e) => e matches PipelineError::ExecutionError(m) && spec_plan(self@, aliases@)
                    == Err::<Seq<ActionView>, Seq<char>>(m@),
            },
    {
        let mut out: Vec<StageAction> = Vec::new();
        let mut idx: usize = 0;
        let mut has_buffer = false;
        let n = self.stages.len();
        proof {
            assert(actions_view(out@) =~= Seq::<ActionView>::empty());
            assert(actions_view(out@) + spec_plan_from(self@, aliases@, 0, false)->Ok_0
                =~= spec_plan_from(self@, aliases@, 0, false)->Ok_0);
        }
        while idx < n
            invariant
                0 <= idx <= n == self@.len(),
                self@ == stages_view(self.stages@),
                match spec_plan_from(self@, aliases@, idx as int, has_buffer) {
                    Ok(rest) => spec_plan(self@, aliases@) == Ok::<Seq<ActionView>, Seq<char>>(
                        actions_view(out@) + rest,
                    ),
                    Err(e) => spec_plan(self@, aliases@) == Err::<Seq<ActionView>, Seq<char>>(e),
                },
            decreases n - idx,
        {
            let st = &self.stages[idx];
            proof {
                assert(self@[idx as int] == st@);
            }
            let resolved = resolve_stage(aliases, st);
            let cmd = resolved.0;
            let args = resolved.1;
            let ghost cmdv = cmd@;
            let ghost argsv = args.deep_view();
            let ghost pre_out = actions_view(out@);
            let ghost hb_old = has_buffer;
            match st.operator {
                Some(PipelineOperator::Pipe) => {
                    if str_eq(cmd.as_str(), "grep") {
                        if args.len() == 0 {
                            proof {
                                assert(argsv.len() == 0);
                            }
                            return Err(
                                PipelineError::ExecutionError(
                                    String::from_str("grep: no pattern specified"),
                                ),
                            );
                        }
                        let act = StageAction::CaptureGrep { args };
                        proof {
                            assert(act@ == (ActionView::CaptureGrep { args: argsv }));
                        }
                        out.push(act);
                        proof {
                            assert(actions_view(out@) =~= pre_out.push(
                                ActionView::CaptureGrep { args: argsv },
                            ));
                        }
                    } else {
                        let act = StageAction::CaptureSpawn { command: cmd, args };
                        proof {
                            assert(act@ == (ActionView::CaptureSpawn {
                                command: cmdv,
                                args: argsv,
                            }));
                        }
                        out.push(act);
                        proof {
                            assert(actions_view(out@) =~= pre_out.push(
                                ActionView::CaptureSpawn { command: cmdv, args: argsv },
                            ));
                        }
                    }
                    has_buffer = true;
                    idx = idx + 1;
                    proof {
                        let a = if cmdv == "grep"@ {
                            ActionView::CaptureGrep { args: argsv }
                        } else {
                            ActionView::CaptureSpawn { command: cmdv, args: argsv }
                        };
                        lemma_plan_step(
                            self@,
                            aliases@,
                            idx as int - 1,
                            hb_old,
                            true,
                            a,
                            pre_out,
                            spec_plan(self@, aliases@),
                        );
                    }
                },
                Some(PipelineOperator::Redirect) => {
                    if idx + 1 < n {
                        let path = self.stages[idx + 1].command.clone();
                        proof {
                            assert(self@[idx as int + 1] == self.stages@[idx as int + 1]@);
                            assert(path@ == self@[idx as int + 1].command);
                        }
                        if has_buffer {
                            let act = StageAction::RedirectBuffer { path };
                            out.push(act);
                        } else {
                            let act = StageAction::RedirectSpawn { command: cmd, args, path };
                            out.push(act);
                        }
                        proof {
                            assert(actions_view(out@) =~= pre_out.push(
                                spec_plan_from(self@, aliases@, idx as int, has_buffer)->Ok_0[0],
                            ));
                            assert(actions_view(out@) =~= pre_out + spec_plan_from(
                                self@,
                                aliases@,
                                idx as int,
                                has_buffer,
                            )->Ok_0);
                        }
                        return Ok(out);
                    } else {
                        return Err(
                            PipelineError::ExecutionError(
                                String::from_str("Redirect operator requires a file path"),
                            ),
                        );
                    }
                },
                _ => {
                    let act = StageAction::Run { command: cmd, args };
                    proof {
                        assert(act@ == (ActionView::Run { command: cmdv, args: argsv }));
                    }
                    out.push(act);
                    proof {
                        assert(actions_view(out@) =~= pre_out.push(
                            ActionView::Run { command: cmdv, args: argsv },
                        ));
                    }
                    has_buffer = false;
                    idx = idx + 1;
                    proof {
                        lemma_plan_step(
                            self@,
                            aliases@,
                            idx as int - 1,
                            hb_old,
                            false,
                            ActionView::Run { command: cmdv, args: argsv },
                            pre_out,
                            spec_plan(self@, aliases@),
                        );
                    }
                },
            }
        }
        if has_buffer {
            let ghost pre_out = actions_view(out@);
            out.push(StageAction::PrintBuffer);
            proof {
                assert(actions_view(out@) =~= pre_out.push(ActionView::PrintBuffer));
                assert(pre_out + seq![ActionView::PrintBuffer] =~= actions_view(out@));
            }
        } else {
            proof {
                assert(actions_view(out@) + Seq::<ActionView>::empty() =~= actions_view(out@));
            }
        }
        Ok(out)
    }
}

/// When the plan step at `i` emits the one action `a` and continues at
/// `i + 1`, appending `a` to the emitted actions keeps the running plan
/// equal to the whole plan.
proof fn lemma_plan_step(
    stages: Seq<StageView>,
    aliases: Seq<(Seq<char>, Seq<char>)>,
    i: int,
    hb_old: bool,
    hb_new: bool,
    a: ActionView,
    pre: Seq<ActionView>,
    whole: Result<Seq<ActionView>, Seq<char>>,
)
    requires
        0 <= i < stages.len(),
        whole == spec_plan(stages, aliases),
        spec_plan_from(stages, aliases, i, hb_old) == (match spec_plan_from(
            stages,
            aliases,
            i + 1,
            hb_new,
        ) {
            Ok(rest) => Ok::<Seq<ActionView>, Seq<char>>(seq![a] + rest),
            Err(e) => Err::<Seq<ActionView>, Seq<char>>(e),
        }),
        match spec_plan_from(stages, aliases, i, hb_old) {
            Ok(rest) => whole == Ok::<Seq<ActionView>, Seq<char>>(pre + rest),
            Err(e) => whole == Err::<Seq<ActionView>, Seq<char>>(e),
        },
    ensures
        match spec_plan_from(stages, aliases, i + 1, hb_new) {
            Ok(rest) => whole == Ok::<Seq<ActionView>, Seq<char>>(pre.push(a) + rest),
            Err(e) => whole == Err::<Seq<ActionView>, Seq<char>>(e),
        },
{
    match spec_plan_from(stages, aliases, i + 1, hb_new) {
        Ok(rest) => {
            assert(pre.push(a) =~= pre + seq![a]);
            vstd::seq_lib::lemma_concat_associative(pre, seq![a], rest);
        },
        Err(_) => {},
    }
}

} // verus!
