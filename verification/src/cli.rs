//! The decisions of the command line: the `init` dialog, what `check`
//! does after validating, and what is shown.
use vstd::prelude::*;
use crate::text::{name_order, NameOrder};
use crate::valid::ValidationError;
use stripmargin::StripMargin;

verus! {

/// The suffix of GraphQL files.
pub open spec fn graphql_suffix() -> Seq<char> {
    ".graphql"@
}

/// The text ends with the suffix.
pub open spec fn ends_with(s: Seq<char>, suffix: Seq<char>) -> bool {
    s.len() >= suffix.len() && s.subrange(s.len() - suffix.len(), s.len() as int) == suffix
}

/// The file name made of an answer: the answer without a trailing
/// `.graphql`, then `.graphql`.
pub open spec fn spec_file_name(answer: Seq<char>) -> Seq<char> {
    let stem = if ends_with(answer, graphql_suffix()) {
        answer.subrange(0, answer.len() - graphql_suffix().len())
    } else {
        answer
    };
    stem + graphql_suffix()
}

/// Names the file that `init` creates from the answer given: a trailing
/// `.graphql` is dropped and `.graphql` added, so that the name ends in it
/// exactly once more than the stem.
pub fn file_name_of(answer: &str) -> (r: String)
    ensures
        r@ == spec_file_name(answer@),
{
    proof {
        reveal_strlit(".graphql");
    }
    let n = answer.unicode_len();
    let mut name = if n >= 8 && name_order(answer.substring_char(n - 8, n), ".graphql")
        == NameOrder::Same {
        String::from_str(answer.substring_char(0, n - 8))
    } else {
        String::from_str(answer)
    };
    name.append(".graphql");
    name
}

/// A path in a directory: the directory, `/`, then the name.
pub open spec fn spec_join(dir: Seq<char>, name: Seq<char>) -> Seq<char> {
    dir + "/"@ + name
}

/// The path of a file in a directory.
pub fn join_path(dir: &str, name: &str) -> (r: String)
    ensures
        r@ == spec_join(dir@, name@),
{
    let mut p = String::from_str(dir);
    p.append("/");
    p.append(name);
    p
}

/// A character with the Unicode `White_Space` property, which is what
/// `char::is_whitespace` tests.
pub open spec fn is_white_space(c: char) -> bool {
    let u = c as u32;
    (0x9 <= u <= 0xD) || u == 0x20 || u == 0x85 || u == 0xA0 || u == 0x1680 || (0x2000 <= u
        <= 0x200A) || u == 0x2028 || u == 0x2029 || u == 0x202F || u == 0x205F || u == 0x3000
}

/// How many white-space characters a text starts with.
pub open spec fn leading_white_space(s: Seq<char>) -> nat
    decreases s.len(),
{
    if s.len() > 0 && is_white_space(s[0]) {
        1 + leading_white_space(s.drop_first())
    } else {
        0
    }
}

/// Where the first line of a text ends: the position of its first newline,
/// or its length.
pub open spec fn line_end(s: Seq<char>) -> nat
    decreases s.len(),
{
    if s.len() == 0 || s[0] == '\n' {
        0
    } else {
        1 + line_end(s.drop_first())
    }
}

/// One line with its margin stripped: when the leading white space is
/// followed by `|`, both go; otherwise the line stays as it is.
pub open spec fn strip_line(line: Seq<char>) -> Seq<char> {
    let k = leading_white_space(line);
    if k < line.len() && line[k as int] == '|' {
        line.skip(k + 1int)
    } else {
        line
    }
}

/// The text that `stripmargin` makes of `s`: every line (the text split at
/// each newline) with its margin stripped, joined again by newlines.
pub open spec fn spec_strip_margin(s: Seq<char>) -> Seq<char>
    decreases s.len(),
{
    let i = line_end(s);
    if i < s.len() {
        strip_line(s.take(i as int)) + seq!['\n'] + spec_strip_margin(s.skip(i + 1int))
    } else {
        strip_line(s)
    }
}

/// Calls `StripMargin::strip_margin` of `stripmargin`, whose source splits
/// the text at each `'\n'`, drops from each line the characters that
/// `char::is_whitespace` accepts up to a `'|'` together with the `'|'` (and
/// leaves a line without such a `'|'` as it is), and joins the lines by `'\n'`.
#[verifier::external_body]
fn strip_margin(s: &str) -> (r: String)
    ensures
        r@ == spec_strip_margin(s@),
{
    s.strip_margin()
}

/// The text has no newline.
pub open spec fn one_line(s: Seq<char>) -> bool {
    forall|i: int| 0 <= i < s.len() ==> s[i] != '\n'
}

pub proof fn lemma_line_end_concat(a: Seq<char>, b: Seq<char>)
    requires
        one_line(a),
    ensures
        line_end(a + b) == a.len() + line_end(b),
    decreases a.len(),
{
    if a.len() > 0 {
        assert((a + b)[0] == a[0]);
        assert((a + b).drop_first() =~= a.drop_first() + b);
        assert(one_line(a.drop_first())) by {
            assert forall|i: int| 0 <= i < a.drop_first().len() implies a.drop_first()[i] != '\n' by {
                assert(a.drop_first()[i] == a[i + 1]);
            }
        }
        lemma_line_end_concat(a.drop_first(), b);
    } else {
        assert(a + b =~= b);
    }
}

pub proof fn lemma_leading_white_space_concat(a: Seq<char>, b: Seq<char>)
    requires
        forall|i: int| 0 <= i < a.len() ==> is_white_space(#[trigger] a[i]),
    ensures
        leading_white_space(a + b) == a.len() + leading_white_space(b),
    decreases a.len(),
{
    if a.len() > 0 {
        assert((a + b)[0] == a[0]);
        assert((a + b).drop_first() =~= a.drop_first() + b);
        assert forall|i: int| 0 <= i < a.drop_first().len() implies is_white_space(
            #[trigger] a.drop_first()[i],
        ) by {
            assert(a.drop_first()[i] == a[i + 1]);
        }
        lemma_leading_white_space_concat(a.drop_first(), b);
    } else {
        assert(a + b =~= b);
    }
}

/// Stripping a text is stripping its first line, then the rest.
pub proof fn lemma_strip_margin_first_line(a: Seq<char>, rest: Seq<char>)
    requires
        one_line(a),
    ensures
        spec_strip_margin(a + seq!['\n'] + rest) == strip_line(a) + seq!['\n'] + spec_strip_margin(
            rest,
        ),
{
    let s = a + seq!['\n'] + rest;
    lemma_line_end_concat(a, seq!['\n'] + rest);
    assert(s =~= a + (seq!['\n'] + rest));
    assert((seq!['\n'] + rest)[0] == '\n');
    assert(line_end(s) == a.len());
    assert(s.take(a.len() as int) =~= a);
    assert(s.skip(a.len() + 1int) =~= rest);
}

/// A text of one line is stripped as that line.
pub proof fn lemma_strip_margin_one_line(a: Seq<char>)
    requires
        one_line(a),
    ensures
        spec_strip_margin(a) == strip_line(a),
{
    lemma_line_end_concat(a, Seq::empty());
    assert(a + Seq::<char>::empty() =~= a);
}

/// `n` spaces.
pub open spec fn spaces(n: nat) -> Seq<char> {
    Seq::new(n, |i: int| ' ')
}

proof fn lemma_strip_indented(n: nat, rest: Seq<char>)
    requires
        rest.len() > 0,
        rest[0] == '|',
    ensures
        strip_line(spaces(n) + rest) == rest.drop_first(),
{
    let line = spaces(n) + rest;
    lemma_leading_white_space_concat(spaces(n), rest);
    assert(leading_white_space(rest) == 0);
    assert(line[n as int] == '|');
    assert(line.skip(n + 1int) =~= rest.drop_first());
}

/// The lines of `.graphqlrc.yml` for a file name of one line: `schema:`, the
/// file, the bundled `.tailcallrc.graphql`, then the template's last line of
/// ten spaces.
pub open spec fn graphqlrc_lines(file_name: Seq<char>) -> Seq<char> {
    "schema:\n- './"@ + file_name + "'\n- './.tailcallrc.graphql'\n          "@
}

/// For a file name of one line, stripping the template gives those lines.
pub proof fn law_graphqlrc_lines(file_name: Seq<char>)
    requires
        one_line(file_name),
    ensures
        spec_strip_margin(graphqlrc_template(file_name)) == graphqlrc_lines(file_name),
{
    reveal_strlit("|schema:\n               |- './");
    reveal_strlit("'\n               |- './.tailcallrc.graphql'\n          ");
    reveal_strlit("schema:\n- './");
    reveal_strlit("'\n- './.tailcallrc.graphql'\n          ");
    let nl = seq!['\n'];
    let l1 = seq!['|', 's', 'c', 'h', 'e', 'm', 'a', ':'];
    let head = seq!['|', '-', ' ', '\'', '.', '/'];
    let l2 = spaces(15) + (head + file_name + seq!['\'']);
    let tail3 = seq![
        '|', '-', ' ', '\'', '.', '/', '.', 't', 'a', 'i', 'l', 'c', 'a', 'l', 'l', 'r', 'c', '.',
        'g', 'r', 'a', 'p', 'h', 'q', 'l', '\'',
    ];
    let l3 = spaces(15) + tail3;
    let l4 = spaces(10);
    let t = graphqlrc_template(file_name);
    assert(t =~= l1 + nl + (l2 + nl + (l3 + nl + l4)));
    assert(one_line(l1));
    assert(one_line(l2)) by {
        assert forall|i: int| 0 <= i < l2.len() implies l2[i] != '\n' by {
            if i >= 15 + head.len() && i < 15 + head.len() + file_name.len() {
                assert(l2[i] == file_name[i - 15 - head.len()]);
            }
        }
    }
    assert(one_line(l3));
    assert(one_line(l4));
    lemma_strip_margin_first_line(l1, l2 + nl + (l3 + nl + l4));
    lemma_strip_margin_first_line(l2, l3 + nl + l4);
    lemma_strip_margin_first_line(l3, l4);
    lemma_strip_margin_one_line(l4);
    assert(strip_line(l1) =~= l1.drop_first()) by {
        assert(leading_white_space(l1) == 0);
        assert(l1.skip(1) =~= l1.drop_first());
    }
    lemma_strip_indented(15, head + file_name + seq!['\'']);
    lemma_strip_indented(15, tail3);
    assert(strip_line(l4) == l4) by {
        lemma_leading_white_space_concat(l4, Seq::empty());
        assert(l4 + Seq::<char>::empty() =~= l4);
    }
    assert((head + file_name + seq!['\'']).drop_first() =~= head.drop_first() + file_name + seq!['\'']);
    assert(graphqlrc_lines(file_name) =~= l1.drop_first() + nl + ((head.drop_first() + file_name
        + seq!['\'']) + nl + (tail3.drop_first() + nl + l4)));
}

/// The template of `.graphqlrc.yml` for a file, before its margins are stripped.
pub open spec fn graphqlrc_template(file_name: Seq<char>) -> Seq<char> {
    "|schema:\n               |- './"@ + file_name
        + "'\n               |- './.tailcallrc.graphql'\n          "@
}

/// The contents of `.graphqlrc.yml` that lists the file and the bundled
/// `.tailcallrc.graphql`.
pub fn graphqlrc_contents(file_name: &str) -> (r: String)
    ensures
        r@ == spec_strip_margin(graphqlrc_template(file_name@)),
        one_line(file_name@) ==> r@ == graphqlrc_lines(file_name@),
{
    proof {
        if one_line(file_name@) {
            law_graphqlrc_lines(file_name@);
        }
    }
    let mut t = String::from_str("|schema:\n               |- './");
    t.append(file_name);
    t.append("'\n               |- './.tailcallrc.graphql'\n          ");
    strip_margin(t.as_str())
}

/// Where the `init` dialog stands.
#[derive(Debug)]
pub enum InitPhase {
    /// Waiting for the answer: add a file?
    AskAddFile,
    /// Waiting for the file's name.
    AskFileName,
    /// Waiting for the answer: create this file?
    AskCreate { file_name: String },
    /// Waiting for the new, empty file to be written.
    WriteNewFile { file_name: String },
    /// Waiting for `.graphqlrc.yml` to be written.
    WriteGraphqlrc,
    /// Waiting for `.tailcallrc.graphql` to be written.
    WriteTailcallrc,
    /// Finished.
    Done,
}

/// The `init` dialog for a directory.
#[derive(Debug)]
pub struct InitMachine {
    pub file_path: String,
    pub phase: InitPhase,
}

/// What happened in answer to the last action.
#[derive(Debug)]
pub enum InitEvent {
    /// A yes/no question was answered.
    Confirmed(bool),
    /// A yes/no question could not be answered; the error's text.
    PromptFailed(String),
    /// The file name was entered.
    TextEntered(String),
    /// The file name could not be read.
    TextFailed,
    /// The file was written.
    Written,
    /// The file could not be written; the error's text.
    WriteFailed(String),
}

/// What the dialog asks to be done next.
#[derive(Debug)]
pub enum InitAction {
    /// Ask a yes/no question.
    Confirm { message: String, default: bool },
    /// Ask for a text.
    AskText { message: String, initial: String },
    /// Write a file.
    WriteFile { path: String, contents: String },
    /// Write the bundled `.tailcallrc.graphql` at the path.
    WriteTailcallrc { path: String },
    /// Stop, with the outcome.
    Finish(Result<(), String>),
}

/// Where the dialog stands, by the views of its texts.
pub enum InitPhaseView {
    AskAddFile,
    AskFileName,
    AskCreate(Seq<char>),
    WriteNewFile(Seq<char>),
    WriteGraphqlrc,
    WriteTailcallrc,
    Done,
}

/// An action, by the views of its texts.
pub enum InitActionView {
    Confirm(Seq<char>, bool),
    AskText(Seq<char>, Seq<char>),
    WriteFile(Seq<char>, Seq<char>),
    WriteTailcallrc(Seq<char>),
    Finish(Result<(), Seq<char>>),
}

impl InitPhase {
    pub open spec fn view(&self) -> InitPhaseView {
        match self {
            InitPhase::AskAddFile => InitPhaseView::AskAddFile,
            InitPhase::AskFileName => InitPhaseView::AskFileName,
            InitPhase::AskCreate { file_name } => InitPhaseView::AskCreate(file_name@),
            InitPhase::WriteNewFile { file_name } => InitPhaseView::WriteNewFile(file_name@),
            InitPhase::WriteGraphqlrc => InitPhaseView::WriteGraphqlrc,
            InitPhase::WriteTailcallrc => InitPhaseView::WriteTailcallrc,
            InitPhase::Done => InitPhaseView::Done,
        }
    }
}

impl InitAction {
    pub open spec fn view(&self) -> InitActionView {
        match self {
            InitAction::Confirm { message, default } => InitActionView::Confirm(message@, *default),
            InitAction::AskText { message, initial } => InitActionView::AskText(message@, initial@),
            InitAction::WriteFile { path, contents } => InitActionView::WriteFile(path@, contents@),
            InitAction::WriteTailcallrc { path } => InitActionView::WriteTailcallrc(path@),
            InitAction::Finish(r) => InitActionView::Finish(
                match r {
                    Ok(()) => Ok(()),
                    Err(e) => Err(e@),
                },
            ),
        }
    }
}

/// The event is one that the last action can give.
pub open spec fn event_fits(phase: InitPhaseView, event: InitEvent) -> bool {
    match phase {
        InitPhaseView::AskAddFile | InitPhaseView::AskCreate(_) => event is Confirmed
            || event is PromptFailed,
        InitPhaseView::AskFileName => event is TextEntered || event is TextFailed,
        InitPhaseView::WriteNewFile(_) | InitPhaseView::WriteGraphqlrc
        | InitPhaseView::WriteTailcallrc => event is Written || event is WriteFailed,
        InitPhaseView::Done => false,
    }
}

pub open spec fn add_file_question() -> Seq<char> {
    "Do you want to add a file to the project?"@
}

pub open spec fn file_name_question() -> Seq<char> {
    "Enter the file name:"@
}

pub open spec fn create_question(file_name: Seq<char>) -> Seq<char> {
    "Do you want to create the file "@ + file_name + "?"@
}

pub open spec fn tailcallrc_name() -> Seq<char> {
    ".tailcallrc.graphql"@
}

pub open spec fn graphqlrc_name() -> Seq<char> {
    ".graphqlrc.yml"@
}

/// The dialog's next phase and action, for an event that fits.
pub open spec fn spec_init_step(file_path: Seq<char>, phase: InitPhaseView, event: InitEvent) -> (
    InitPhaseView,
    InitActionView,
) {
    let tailcallrc = (
        InitPhaseView::WriteTailcallrc,
        InitActionView::WriteTailcallrc(spec_join(file_path, tailcallrc_name())),
    );
    match event {
        InitEvent::PromptFailed(e) => (InitPhaseView::Done, InitActionView::Finish(Err(e@))),
        InitEvent::WriteFailed(e) => (InitPhaseView::Done, InitActionView::Finish(Err(e@))),
        InitEvent::Confirmed(yes) => match phase {
            InitPhaseView::AskAddFile => if yes {
                (
                    InitPhaseView::AskFileName,
                    InitActionView::AskText(file_name_question(), graphql_suffix()),
                )
            } else {
                tailcallrc
            },
            InitPhaseView::AskCreate(name) => if yes {
                (
                    InitPhaseView::WriteNewFile(name),
                    InitActionView::WriteFile(spec_join(file_path, name), Seq::empty()),
                )
            } else {
                tailcallrc
            },
            _ => (InitPhaseView::Done, InitActionView::Finish(Ok(()))),
        },
        InitEvent::TextEntered(s) => {
            let name = spec_file_name(s@);
            (InitPhaseView::AskCreate(name), InitActionView::Confirm(create_question(name), false))
        },
        InitEvent::TextFailed => {
            let name = spec_file_name(graphql_suffix());
            (InitPhaseView::AskCreate(name), InitActionView::Confirm(create_question(name), false))
        },
        InitEvent::Written => match phase {
            InitPhaseView::WriteNewFile(name) => (
                InitPhaseView::WriteGraphqlrc,
                InitActionView::WriteFile(
                    spec_join(file_path, graphqlrc_name()),
                    spec_strip_margin(graphqlrc_template(name)),
                ),
            ),
            InitPhaseView::WriteGraphqlrc => tailcallrc,
            _ => (InitPhaseView::Done, InitActionView::Finish(Ok(()))),
        },
    }
}

/// Starts the `init` dialog for a directory: asks whether to add a file.
pub fn init_start(file_path: String) -> (r: (InitMachine, InitAction))
    ensures
        r.0.file_path == file_path,
        r.0.phase@ == InitPhaseView::AskAddFile,
        r.1@ == InitActionView::Confirm(add_file_question(), false),
{
    (
        InitMachine { file_path, phase: InitPhase::AskAddFile },
        InitAction::Confirm {
            message: String::from_str("Do you want to add a file to the project?"),
            default: false,
        },
    )
}

/// One step of the `init` dialog: the answer to the last action decides the
/// next one. A failed question or write ends the dialog with its error;
/// declining either question goes straight to writing `.tailcallrc.graphql`,
/// and writing it ends the dialog.
pub fn init_step(m: InitMachine, event: InitEvent) -> (r: (InitMachine, InitAction))
    requires
        event_fits(m.phase@, event),
    ensures
        r.0.file_path == m.file_path,
        (r.0.phase@, r.1@) == spec_init_step(m.file_path@, m.phase@, event),
{
    let InitMachine { file_path, phase } = m;
    let tailcallrc_path = join_path(file_path.as_str(), ".tailcallrc.graphql");
    match event {
        InitEvent::PromptFailed(e) => (
            InitMachine { file_path, phase: InitPhase::Done },
            InitAction::Finish(Err(e)),
        ),
        InitEvent::WriteFailed(e) => (
            InitMachine { file_path, phase: InitPhase::Done },
            InitAction::Finish(Err(e)),
        ),
        InitEvent::Confirmed(yes) => match phase {
            InitPhase::AskAddFile => {
                if yes {
                    (
                        InitMachine { file_path, phase: InitPhase::AskFileName },
                        InitAction::AskText {
                            message: String::from_str("Enter the file name:"),
                            initial: String::from_str(".graphql"),
                        },
                    )
                } else {
                    (
                        InitMachine { file_path, phase: InitPhase::WriteTailcallrc },
                        InitAction::WriteTailcallrc { path: tailcallrc_path },
                    )
                }
            },
            InitPhase::AskCreate { file_name } => {
                if yes {
                    let path = join_path(file_path.as_str(), file_name.as_str());
                    let empty = String::new();
                    (
                        InitMachine { file_path, phase: InitPhase::WriteNewFile { file_name } },
                        InitAction::WriteFile { path, contents: empty },
                    )
                } else {
                    (
                        InitMachine { file_path, phase: InitPhase::WriteTailcallrc },
                        InitAction::WriteTailcallrc { path: tailcallrc_path },
                    )
                }
            },
            _ => (
                InitMachine { file_path, phase: InitPhase::Done },
                InitAction::Finish(Ok(())),
            ),
        },
        InitEvent::TextEntered(s) => {
            let name = file_name_of(s.as_str());
            let question = create_question_text(name.as_str());
            (
                InitMachine { file_path, phase: InitPhase::AskCreate { file_name: name } },
                InitAction::Confirm { message: question, default: false },
            )
        },
        InitEvent::TextFailed => {
            let name = file_name_of(".graphql");
            let question = create_question_text(name.as_str());
            (
                InitMachine { file_path, phase: InitPhase::AskCreate { file_name: name } },
                InitAction::Confirm { message: question, default: false },
            )
        },
        InitEvent::Written => match phase {
            InitPhase::WriteNewFile { file_name } => {
                let path = join_path(file_path.as_str(), ".graphqlrc.yml");
                let contents = graphqlrc_contents(file_name.as_str());
                (
                    InitMachine { file_path, phase: InitPhase::WriteGraphqlrc },
                    InitAction::WriteFile { path, contents },
                )
            },
            InitPhase::WriteGraphqlrc => (
                InitMachine { file_path, phase: InitPhase::WriteTailcallrc },
                InitAction::WriteTailcallrc { path: tailcallrc_path },
            ),
            _ => (
                InitMachine { file_path, phase: InitPhase::Done },
                InitAction::Finish(Ok(())),
            ),
        },
    }
}

/// The question whether to create the named file.
fn create_question_text(file_name: &str) -> (r: String)
    ensures
        r@ == create_question(file_name@),
{
    let mut q = String::from_str("Do you want to create the file ");
    q.append(file_name);
    q.append("?");
    q
}

/// The name made of any answer ends in `.graphql`.
pub proof fn law_file_name_ends_with_graphql(answer: Seq<char>)
    ensures
        ends_with(spec_file_name(answer), graphql_suffix()),
{
    reveal_strlit(".graphql");
    let r = spec_file_name(answer);
    assert(r.subrange(r.len() - 8, r.len() as int) =~= graphql_suffix());
}

/// Naming a file from a name that `init` made changes nothing.
pub proof fn law_file_name_idempotent(answer: Seq<char>)
    ensures
        spec_file_name(spec_file_name(answer)) == spec_file_name(answer),
{
    reveal_strlit(".graphql");
    let r = spec_file_name(answer);
    law_file_name_ends_with_graphql(answer);
    let stem = if ends_with(answer, graphql_suffix()) {
        answer.subrange(0, answer.len() - 8)
    } else {
        answer
    };
    assert(r == stem + graphql_suffix());
    assert(r.subrange(0, r.len() - 8) =~= stem);
}

/// The dialog ends well only after `.tailcallrc.graphql` was written.
pub proof fn law_init_success_only_after_tailcallrc(
    file_path: Seq<char>,
    phase: InitPhaseView,
    event: InitEvent,
)
    requires
        event_fits(phase, event),
        spec_init_step(file_path, phase, event).1 == InitActionView::Finish(Ok(())),
    ensures
        phase == InitPhaseView::WriteTailcallrc,
        event is Written,
{
}

/// A failed question or write ends the dialog with that error, and nothing
/// more is written.
pub proof fn law_init_failure_stops(file_path: Seq<char>, phase: InitPhaseView, event: InitEvent)
    requires
        event_fits(phase, event),
        event is PromptFailed || event is WriteFailed,
    ensures
        spec_init_step(file_path, phase, event).0 == InitPhaseView::Done,
        spec_init_step(file_path, phase, event).1 is Finish,
        spec_init_step(file_path, phase, event).1->Finish_0 is Err,
{
}

/// Wherever the dialog stands and whatever answer came, the bundled
/// `.tailcallrc.graphql` is written into the project's directory, at
/// `<file_path>/.tailcallrc.graphql`, and every other file is written there
/// too: the new file under its own name, and `.graphqlrc.yml`.
pub proof fn law_init_writes_into_project(file_path: Seq<char>, phase: InitPhaseView, event: InitEvent)
    requires
        event_fits(phase, event),
    ensures
        spec_init_step(file_path, phase, event).1 matches InitActionView::WriteTailcallrc(p) ==> p
            == file_path + "/"@ + ".tailcallrc.graphql"@,
        spec_init_step(file_path, phase, event).1 matches InitActionView::WriteFile(p, _) ==> (
        phase matches InitPhaseView::AskCreate(name) && p == file_path + "/"@ + name) || (phase
            is WriteNewFile && p == file_path + "/"@ + ".graphqlrc.yml"@),
{
}

/// Every yes/no question of the dialog defaults to no, and the file that the
/// user asked for is created empty.
pub proof fn law_init_questions_default_to_no(
    file_path: Seq<char>,
    phase: InitPhaseView,
    event: InitEvent,
)
    requires
        event_fits(phase, event),
    ensures
        spec_init_step(file_path, phase, event).1 matches InitActionView::Confirm(_, d) ==> !d,
        phase is AskCreate ==> (spec_init_step(file_path, phase, event).1 matches InitActionView::WriteFile(
            _,
            c,
        ) ==> c.len() == 0),
{
}

/// Declining to add a file, the first answer of the dialog and its default,
/// goes straight to writing `<file_path>/.tailcallrc.graphql`.
pub proof fn law_init_decline_writes_tailcallrc(file_path: Seq<char>)
    ensures
        spec_init_step(file_path, InitPhaseView::AskAddFile, InitEvent::Confirmed(false)) == (
            InitPhaseView::WriteTailcallrc,
            InitActionView::WriteTailcallrc(file_path + "/"@ + ".tailcallrc.graphql"@),
        ),
{
}

/// What the command line shows.
#[derive(Debug)]
pub enum DisplayItem {
    /// A heading.
    Heading(String),
    /// A success message.
    Success(String),
    /// Plain text.
    Text(String),
    /// A table of (key, value) rows.
    Table(Vec<(String, String)>),
}

/// Shows the GraphQL schema: a heading, then the schema's text.
pub fn display_schema(sdl: String) -> (r: Vec<DisplayItem>)
    ensures
        r@.len() == 2,
        r@[0] matches DisplayItem::Heading(h) && h@ == "GraphQL Schema:\n"@,
        r@[1] == DisplayItem::Text(sdl),
{
    let mut v: Vec<DisplayItem> = Vec::new();
    v.push(DisplayItem::Heading(String::from_str("GraphQL Schema:\n")));
    v.push(DisplayItem::Text(sdl));
    v
}

/// Shows that the configuration is valid: a success message, then a table
/// with the row of N + 1 queries.
pub fn display_config(n_plus_one_row: (String, String)) -> (r: Vec<DisplayItem>)
    ensures
        r@.len() == 2,
        r@[0] matches DisplayItem::Success(m) && m@ == "No errors found"@,
        r@[1] matches DisplayItem::Table(t) && t@ == seq![n_plus_one_row],
{
    let mut v: Vec<DisplayItem> = Vec::new();
    v.push(DisplayItem::Success(String::from_str("No errors found")));
    let mut rows: Vec<(String, String)> = Vec::new();
    rows.push(n_plus_one_row);
    v.push(DisplayItem::Table(rows));
    v
}

/// What `check` shows of a valid configuration: its findings (a success
/// message, then the table with the row of N + 1 queries), followed by the
/// schema (a heading, then its text) exactly when there is one to show.
pub open spec fn shows_check(
    items: Seq<DisplayItem>,
    n_plus_one_row: (String, String),
    sdl: Option<String>,
) -> bool {
    &&& items.len() == (if sdl is Some {
        4int
    } else {
        2int
    })
    &&& items[0] is Success && items[0]->Success_0@ == "No errors found"@
    &&& items[1] is Table && items[1]->Table_0@ == seq![n_plus_one_row]
    &&& sdl is Some ==> {
        &&& items[2] is Heading && items[2]->Heading_0@ == "GraphQL Schema:\n"@
        &&& items[3] == DisplayItem::Text(sdl->0)
    }
}

/// Shows the findings of a valid configuration, then the schema when its
/// text is given.
pub fn check_display(n_plus_one_row: (String, String), sdl: Option<String>) -> (r: Vec<
    DisplayItem,
>)
    ensures
        shows_check(r@, n_plus_one_row, sdl),
{
    let mut items = display_config(n_plus_one_row);
    match sdl {
        Some(text) => {
            let mut more = display_schema(text);
            items.append(&mut more);
        },
        None => {},
    }
    items
}

/// What `check` does once the configuration gave a blueprint.
#[derive(Debug)]
pub enum CheckAction {
    /// Validate the operation in this file, and end with that outcome.
    ValidateOperation(String),
    /// Show the configuration, and the schema when asked.
    Display { schema: bool },
}

/// What `check` does next: with operations given, it validates the first
/// and ends; otherwise it shows its findings.
pub fn check_next(operations: Option<Vec<String>>, schema: bool) -> (r: CheckAction)
    ensures
        match operations {
            Some(ops) => if ops@.len() > 0 {
                r == CheckAction::ValidateOperation(ops@[0])
            } else {
                r == CheckAction::Display { schema }
            },
            None => r == CheckAction::Display { schema },
        },
{
    match operations {
        Some(ops) => {
            let mut ops = ops;
            if ops.len() > 0 {
                let first = ops.remove(0);
                CheckAction::ValidateOperation(first)
            } else {
                CheckAction::Display { schema }
            }
        },
        None => CheckAction::Display { schema },
    }
}

/// The outcome of `check` for the validation of an operation: the server's
/// errors, each written out, become the messages of a validation error.
pub fn check_outcome(validation: Result<(), Vec<String>>) -> (r: Result<(), ValidationError>)
    ensures
        match validation {
            Ok(()) => r is Ok,
            Err(msgs) => r is Err && r->Err_0@ == msgs@.map_values(|s: String| s@),
        },
{
    match validation {
        Ok(()) => Ok(()),
        Err(msgs) => Err(ValidationError::from_messages(msgs)),
    }
}

/// How much the server logs.
#[derive(PartialEq, Eq, Structural, Clone, Copy, Debug)]
pub enum LogLevel {
    Error,
    Warn,
    Info,
    Debug,
    Trace,
}

/// A command of the command line.
#[derive(Debug)]
pub enum Command {
    /// Start the server with the configuration in these files.
    Start { file_paths: Vec<String>, log_level: Option<LogLevel> },
    /// Check the configuration in these files, and the operations if given.
    Check {
        file_paths: Vec<String>,
        n_plus_one_queries: bool,
        schema: bool,
        operations: Option<Vec<String>>,
    },
    /// Set up a project in a directory.
    Init { file_path: String },
}

/// Where a command stands.
#[derive(Debug)]
pub enum RunPhase {
    /// Waiting for the logger, then loading the configuration.
    StartingLogger { file_paths: Vec<String> },
    /// Waiting for the configuration, to start the server.
    LoadingForServer,
    /// Waiting for the server to stop.
    Serving,
    /// Waiting for the configuration, to check it.
    LoadingForCheck { n_plus_one_queries: bool, schema: bool, operations: Option<Vec<String>> },
    /// Waiting for the blueprint of the configuration.
    BuildingBlueprint { n_plus_one_queries: bool, schema: bool, operations: Option<Vec<String>> },
    /// Waiting for the validation of an operation.
    ValidatingOperation,
    /// Waiting for the findings of the configuration, and for its schema
    /// when asked.
    Describing { schema: bool },
    /// Waiting for the findings to be shown.
    Displaying,
    /// Waiting for the `init` dialog.
    RunningInit,
    /// Finished.
    Done,
}

/// What a command asks to be done next.
#[derive(Debug)]
pub enum RunAction {
    /// Set up the logger at this level.
    InitLogger(LogLevel),
    /// Load the configuration from these files.
    LoadConfig(Vec<String>),
    /// Start the server with the loaded configuration.
    StartServer,
    /// Build the blueprint of the loaded configuration.
    BuildBlueprint,
    /// Validate the operation in this file against the blueprint's schema.
    ValidateOperation(String),
    /// Work out the row of N + 1 queries (listing them when asked), and the
    /// schema's text when asked.
    Describe { n_plus_one_queries: bool, schema: bool },
    /// Show these items, in order.
    Display(Vec<DisplayItem>),
    /// Run the `init` dialog for this directory.
    RunInit(String),
    /// Stop, with the outcome.
    Finish(Result<(), ValidationError>),
}

/// What happened in answer to the last action.
#[derive(Debug)]
pub enum RunEvent {
    LoggerReady,
    ConfigLoaded,
    ConfigFailed(String),
    ServerStopped(Result<(), String>),
    BlueprintBuilt,
    BlueprintFailed(Vec<String>),
    Validated(Result<(), Vec<String>>),
    /// The row of N + 1 queries, and the schema's text when it was asked for.
    Described { n_plus_one_row: (String, String), sdl: Option<String> },
    Shown,
    InitFinished(Result<(), String>),
}

/// The event is one that the phase waits for.
pub open spec fn run_event_fits(phase: RunPhase, event: RunEvent) -> bool {
    match phase {
        RunPhase::StartingLogger { .. } => event is LoggerReady,
        RunPhase::LoadingForServer | RunPhase::LoadingForCheck { .. } => event is ConfigLoaded
            || event is ConfigFailed,
        RunPhase::Serving => event is ServerStopped,
        RunPhase::BuildingBlueprint { .. } => event is BlueprintBuilt || event is BlueprintFailed,
        RunPhase::ValidatingOperation => event is Validated,
        RunPhase::Describing { schema } => event is Described && (event->sdl is Some <==> schema),
        RunPhase::Displaying => event is Shown,
        RunPhase::RunningInit => event is InitFinished,
        RunPhase::Done => false,
    }
}

pub open spec fn strings_view(v: Vec<String>) -> Seq<Seq<char>> {
    v@.map_values(|s: String| s@)
}

/// The outcome of a failure with one message.
pub open spec fn failed_with(r: Result<(), ValidationError>, message: Seq<char>) -> bool {
    r is Err && r->Err_0@ == seq![message]
}

/// Starts a command: the server sets up its logger (at `Info` unless a level
/// is given), `check` loads the configuration, `init` runs its dialog.
pub fn run_start(command: Command) -> (r: (RunPhase, RunAction))
    ensures
        match command {
            Command::Start { file_paths, log_level } => r.0 == (RunPhase::StartingLogger {
                file_paths,
            }) && r.1 == RunAction::InitLogger(
                match log_level {
                    Some(l) => l,
                    None => LogLevel::Info,
                },
            ),
            Command::Check { file_paths, n_plus_one_queries, schema, operations } => r.0 == (
            RunPhase::LoadingForCheck { n_plus_one_queries, schema, operations }) && r.1
                == RunAction::LoadConfig(file_paths),
            Command::Init { file_path } => r.0 == RunPhase::RunningInit && r.1 == RunAction::RunInit(
                file_path,
            ),
        },
{
    match command {
        Command::Start { file_paths, log_level } => {
            let level = match log_level {
                Some(l) => l,
                None => LogLevel::Info,
            };
            (RunPhase::StartingLogger { file_paths }, RunAction::InitLogger(level))
        },
        Command::Check { file_paths, n_plus_one_queries, schema, operations } => (
            RunPhase::LoadingForCheck { n_plus_one_queries, schema, operations },
            RunAction::LoadConfig(file_paths),
        ),
        Command::Init { file_path } => (RunPhase::RunningInit, RunAction::RunInit(file_path)),
    }
}

/// One step of a command. A failure to load, build or validate ends it with
/// the failure's messages. Once the blueprint is built, `check` validates
/// only the first operation given and ends with that outcome, without
/// showing anything; with no operation it shows its findings and ends well.
pub fn run_step(phase: RunPhase, event: RunEvent) -> (r: (RunPhase, RunAction))
    requires
        run_event_fits(phase, event),
    ensures
        match phase {
            RunPhase::StartingLogger { file_paths } => r.0 == RunPhase::LoadingForServer && r.1
                == RunAction::LoadConfig(file_paths),
            RunPhase::LoadingForServer => match event {
                RunEvent::ConfigFailed(e) => r.0 == RunPhase::Done && r.1 is Finish && failed_with(r.1->Finish_0, e@),
                _ => r.0 == RunPhase::Serving && r.1 == RunAction::StartServer,
            },
            RunPhase::Serving => r.0 == RunPhase::Done && r.1 is Finish && match event {
                RunEvent::ServerStopped(Ok(())) => r.1->Finish_0 is Ok,
                RunEvent::ServerStopped(Err(e)) => failed_with(r.1->Finish_0, e@),
                _ => false,
            },
            RunPhase::LoadingForCheck { n_plus_one_queries, schema, operations } => match event {
                RunEvent::ConfigFailed(e) => r.0 == RunPhase::Done && r.1 is Finish && failed_with(r.1->Finish_0, e@),
                _ => r.0 == (RunPhase::BuildingBlueprint { n_plus_one_queries, schema, operations })
                    && r.1 == RunAction::BuildBlueprint,
            },
            RunPhase::BuildingBlueprint { n_plus_one_queries, schema, operations } => match event {
                RunEvent::BlueprintFailed(msgs) => r.0 == RunPhase::Done && r.1 is Finish && r.1->Finish_0 is Err && r.1->Finish_0->Err_0@ == strings_view(msgs),
                _ => match operations {
                    Some(ops) => if ops@.len() > 0 {
                        r.0 == RunPhase::ValidatingOperation && r.1 == RunAction::ValidateOperation(
                            ops@[0],
                        )
                    } else {
                        r.0 == (RunPhase::Describing { schema }) && r.1 == (RunAction::Describe {
                            n_plus_one_queries,
                            schema,
                        })
                    },
                    None => r.0 == (RunPhase::Describing { schema }) && r.1 == (RunAction::Describe {
                        n_plus_one_queries,
                        schema,
                    }),
                },
            },
            RunPhase::ValidatingOperation => r.0 == RunPhase::Done && r.1 is Finish
                && match event {
                RunEvent::Validated(Ok(())) => r.1->Finish_0 is Ok,
                RunEvent::Validated(Err(msgs)) => r.1->Finish_0 is Err && r.1->Finish_0->Err_0@ == strings_view(msgs),
                _ => false,
            },
            RunPhase::Describing { .. } => r.0 == RunPhase::Displaying && r.1 is Display && match event {
                RunEvent::Described { n_plus_one_row, sdl } => shows_check(
                    r.1->Display_0@,
                    n_plus_one_row,
                    sdl,
                ),
                _ => false,
            },
            RunPhase::Displaying => r.0 == RunPhase::Done && r.1 is Finish && r.1->Finish_0 is Ok,
            RunPhase::RunningInit => r.0 == RunPhase::Done && r.1 is Finish
                && match event {
                RunEvent::InitFinished(Ok(())) => r.1->Finish_0 is Ok,
                RunEvent::InitFinished(Err(e)) => failed_with(r.1->Finish_0, e@),
                _ => false,
            },
            RunPhase::Done => false,
        },
{
    match phase {
        RunPhase::StartingLogger { file_paths } => (
            RunPhase::LoadingForServer,
            RunAction::LoadConfig(file_paths),
        ),
        RunPhase::LoadingForServer => match event {
            RunEvent::ConfigFailed(e) => finish_with_message(e),
            _ => (RunPhase::Serving, RunAction::StartServer),
        },
        RunPhase::Serving => match event {
            RunEvent::ServerStopped(Err(e)) => finish_with_message(e),
            _ => (RunPhase::Done, RunAction::Finish(Ok(()))),
        },
        RunPhase::LoadingForCheck { n_plus_one_queries, schema, operations } => match event {
            RunEvent::ConfigFailed(e) => finish_with_message(e),
            _ => (
                RunPhase::BuildingBlueprint { n_plus_one_queries, schema, operations },
                RunAction::BuildBlueprint,
            ),
        },
        RunPhase::BuildingBlueprint { n_plus_one_queries, schema, operations } => match event {
            RunEvent::BlueprintFailed(msgs) => (
                RunPhase::Done,
                RunAction::Finish(Err(ValidationError::from_messages(msgs))),
            ),
            _ => match check_next(operations, schema) {
                CheckAction::ValidateOperation(p) => (
                    RunPhase::ValidatingOperation,
                    RunAction::ValidateOperation(p),
                ),
                CheckAction::Display { schema } => (
                    RunPhase::Describing { schema },
                    RunAction::Describe { n_plus_one_queries, schema },
                ),
            },
        },
        RunPhase::ValidatingOperation => match event {
            RunEvent::Validated(v) => (RunPhase::Done, RunAction::Finish(check_outcome(v))),
            _ => (RunPhase::Done, RunAction::Finish(Ok(()))),
        },
        RunPhase::Describing { .. } => match event {
            RunEvent::Described { n_plus_one_row, sdl } => (
                RunPhase::Displaying,
                RunAction::Display(check_display(n_plus_one_row, sdl)),
            ),
            _ => (RunPhase::Displaying, RunAction::Display(Vec::new())),
        },
        RunPhase::Displaying => (RunPhase::Done, RunAction::Finish(Ok(()))),
        RunPhase::RunningInit => match event {
            RunEvent::InitFinished(Err(e)) => finish_with_message(e),
            _ => (RunPhase::Done, RunAction::Finish(Ok(()))),
        },
        RunPhase::Done => (RunPhase::Done, RunAction::Finish(Ok(()))),
    }
}

/// Ends a command with one message.
fn finish_with_message(message: String) -> (r: (RunPhase, RunAction))
    ensures
        r.0 == RunPhase::Done,
        r.1 is Finish && failed_with(r.1->Finish_0, message@),
{
    (RunPhase::Done, RunAction::Finish(Err(ValidationError::new(message))))
}

} // verus!
