//! The search for clang's runtime library in the active Xcode toolchain.
//!
//! The search asks questions of the machine one after the other. Whoever asks them on its
//! behalf hands the answer back and is told what to ask next.

use crate::text::{from_utf8_lossy, trim, trimmed, utf8_lossy};
use vstd::prelude::*;
use vstd::string::*;
use vstd::utf8::*;

verus! {

/// Where a toolchain keeps the runtime libraries of its clang versions, below the developer
/// directory.
pub const CLANG_DIRECTORY: &'static str = "/Toolchains/XcodeDefault.xctoolchain/usr/lib/clang";

/// Where a version of clang keeps its libraries for macOS.
pub const DARWIN_DIRECTORY: &'static str = "lib/darwin";

/// The file that holds clang's runtime library for macOS.
pub const RUNTIME_LIBRARY: &'static str = "libclang_rt.osx.a";

/// What is to be asked next.
#[derive(Debug)]
pub enum Question {
    /// Run `xcrun --show-sdk-platform-path`.
    SdkPlatformPath,
    /// Run `xcode-select --print-path`.
    DeveloperDirectory,
    /// List this directory, which has an entry for each version of clang.
    ClangVersions { directory: String },
    /// Look whether this one of the `count` entries has the runtime library.
    RuntimeLibrary { entry: usize, count: usize },
    /// Nothing more: the runtime library was found at this entry, or nowhere.
    Finished { found: Option<usize> },
}

/// What the machine answers.
#[derive(Debug)]
pub enum Answer {
    /// The command could not be run.
    NotRun,
    /// The command was run.
    Ran { success: bool, stdout: Vec<u8> },
    /// The directory could not be listed.
    NotListed,
    /// The directory has that many entries.
    Listed { count: usize },
    /// The runtime library is there, or it is not.
    Looked { exists: bool },
}

/// A question as the contracts see it.
pub enum QuestionView {
    SdkPlatformPath,
    DeveloperDirectory,
    ClangVersions { directory: Seq<char> },
    RuntimeLibrary { entry: int, count: int },
    Finished { found: Option<int> },
}

/// An answer as the contracts see it.
pub enum AnswerView {
    NotRun,
    Ran { success: bool, stdout: Seq<u8> },
    NotListed,
    Listed { count: int },
    Looked { exists: bool },
}

impl View for Question {
    type V = QuestionView;

    open spec fn view(&self) -> QuestionView {
        match self {
            Question::SdkPlatformPath => QuestionView::SdkPlatformPath,
            Question::DeveloperDirectory => QuestionView::DeveloperDirectory,
            Question::ClangVersions { directory } => QuestionView::ClangVersions {
                directory: directory@,
            },
            Question::RuntimeLibrary { entry, count } => QuestionView::RuntimeLibrary {
                entry: *entry as int,
                count: *count as int,
            },
            Question::Finished { found } => QuestionView::Finished {
                found: match found {
                    Some(i) => Some(*i as int),
                    None => None,
                },
            },
        }
    }
}

impl View for Answer {
    type V = AnswerView;

    open spec fn view(&self) -> AnswerView {
        match self {
            Answer::NotRun => AnswerView::NotRun,
            Answer::Ran { success, stdout } => AnswerView::Ran {
                success: *success,
                stdout: stdout@,
            },
            Answer::NotListed => AnswerView::NotListed,
            Answer::Listed { count } => AnswerView::Listed { count: *count as int },
            Answer::Looked { exists } => AnswerView::Looked { exists: *exists },
        }
    }
}

/// The command, with its argument, whose run answers a question, if it is a command that does.
pub open spec fn command_of(question: QuestionView) -> Option<(Seq<char>, Seq<char>)> {
    match question {
        QuestionView::SdkPlatformPath => Some(("xcrun"@, "--show-sdk-platform-path"@)),
        QuestionView::DeveloperDirectory => Some(("xcode-select"@, "--print-path"@)),
        _ => None,
    }
}

/// The path, part by part, below the entry that a question is about: while it is looked at, the
/// file of the runtime library; where that was found, the directory that holds it.
pub open spec fn path_below_entry(question: QuestionView) -> Seq<Seq<char>> {
    match question {
        QuestionView::RuntimeLibrary { .. } => seq![DARWIN_DIRECTORY@, RUNTIME_LIBRARY@],
        QuestionView::Finished { found: Some(_) } => seq![DARWIN_DIRECTORY@],
        _ => seq![],
    }
}

/// A pair of strings that may be absent, as the contracts see it.
pub open spec fn pair_view(pair: Option<(&'static str, &'static str)>) -> Option<
    (Seq<char>, Seq<char>),
> {
    match pair {
        Some((first, second)) => Some((first@, second@)),
        None => None,
    }
}

/// The parts of a path as the contracts see them.
pub open spec fn parts_view(parts: Seq<&'static str>) -> Seq<Seq<char>> {
    Seq::new(parts.len(), |i: int| parts[i]@)
}

/// The directory of the clang versions below a developer directory.
pub open spec fn clang_directory(developer_dir: Seq<char>) -> Seq<char> {
    developer_dir + CLANG_DIRECTORY@
}

/// The developer directory that a command printed, without the whitespace around it.
pub open spec fn printed_directory(stdout: Seq<u8>) -> Seq<char> {
    trimmed(utf8_lossy(stdout))
}

/// The end of a search that found nothing.
pub open spec fn nothing_found() -> QuestionView {
    QuestionView::Finished { found: None }
}

/// The look at an entry, or the end where there is no such entry.
pub open spec fn look_at(entry: int, count: int) -> QuestionView {
    if entry < count {
        QuestionView::RuntimeLibrary { entry, count }
    } else {
        nothing_found()
    }
}

/// What is asked after a question and its answer. An answer to another question ends the
/// search without a result.
pub open spec fn next_question(question: QuestionView, answer: AnswerView) -> QuestionView {
    match (question, answer) {
        (
            QuestionView::SdkPlatformPath,
            AnswerView::Ran { success: true, .. },
        ) => QuestionView::DeveloperDirectory,
        (
            QuestionView::DeveloperDirectory,
            AnswerView::Ran { success: true, stdout },
        ) => QuestionView::ClangVersions { directory: clang_directory(printed_directory(stdout)) },
        (QuestionView::ClangVersions { .. }, AnswerView::Listed { count }) => look_at(0, count),
        (
            QuestionView::RuntimeLibrary { entry, count },
            AnswerView::Looked { exists },
        ) => if exists {
            QuestionView::Finished { found: Some(entry) }
        } else {
            look_at(entry + 1, count)
        },
        (QuestionView::Finished { found }, _) => QuestionView::Finished { found },
        _ => nothing_found(),
    }
}

/// The directory of the clang versions below a developer directory.
pub fn toolchain_base(developer_dir: &str) -> (r: String)
    ensures
        r@ == clang_directory(developer_dir@),
        r@ == developer_dir@ + "/Toolchains/XcodeDefault.xctoolchain/usr/lib/clang"@,
{
    let mut r = developer_dir.to_owned();
    r.append(CLANG_DIRECTORY);
    r
}

/// The developer directory that a command printed, without the whitespace around it.
pub fn developer_directory(stdout: &[u8]) -> (r: String)
    ensures
        r@ == printed_directory(stdout@),
        r@ == trimmed(utf8_lossy(stdout@)),
        valid_utf8(stdout@) ==> r@ == trimmed(decode_utf8(stdout@)),
{
    let text = from_utf8_lossy(stdout);
    trim(text.as_str()).to_owned()
}

/// The look at an entry, or the end where there is no such entry.
fn look(entry: usize, count: usize) -> (r: Question)
    ensures
        r@ == look_at(entry as int, count as int),
{
    if entry < count {
        Question::RuntimeLibrary { entry, count }
    } else {
        Question::Finished { found: None }
    }
}

/// Begins the search for clang's runtime library.
pub fn find_clang_rt_path() -> (r: Question)
    ensures
        r@ == QuestionView::SdkPlatformPath,
{
    Question::SdkPlatformPath
}

impl Question {
    /// The command, with its argument, that is to be run to answer this question; `None` where
    /// no command is asked for.
    pub fn command(&self) -> (r: Option<(&'static str, &'static str)>)
        ensures
            pair_view(r) == command_of(self@),
            *self is SdkPlatformPath ==> (r matches Some(c) && c.0@ == "xcrun"@ && c.1@
                == "--show-sdk-platform-path"@),
            *self is DeveloperDirectory ==> (r matches Some(c) && c.0@ == "xcode-select"@ && c.1@
                == "--print-path"@),
            r is Some ==> *self is SdkPlatformPath || *self is DeveloperDirectory,
    {
        match self {
            Question::SdkPlatformPath => Some(("xcrun", "--show-sdk-platform-path")),
            Question::DeveloperDirectory => Some(("xcode-select", "--print-path")),
            _ => None,
        }
    }

    /// The path, part by part, below the entry that this question is about.
    pub fn below_entry(&self) -> (r: Vec<&'static str>)
        ensures
            parts_view(r@) == path_below_entry(self@),
            *self is RuntimeLibrary ==> r@.len() == 2 && r@[0]@ == "lib/darwin"@ && r@[1]@
                == "libclang_rt.osx.a"@,
            *self matches Question::Finished { found: Some(_) } ==> r@.len() == 1 && r@[0]@
                == "lib/darwin"@,
            !(*self is RuntimeLibrary) && !(*self matches Question::Finished { found: Some(_) })
                ==> r@.len() == 0,
    {
        let r: Vec<&'static str> = match self {
            Question::RuntimeLibrary { .. } => vec![DARWIN_DIRECTORY, RUNTIME_LIBRARY],
            Question::Finished { found: Some(_) } => vec![DARWIN_DIRECTORY],
            _ => vec![],
        };
        assert(parts_view(r@) =~= path_below_entry(self@));
        r
    }

    /// Takes the answer to this question and gives the next one.
    pub fn answered(self, answer: Answer) -> (r: Question)
        ensures
            r@ == next_question(self@, answer@),
            self@ is DeveloperDirectory ==> (answer@ matches AnswerView::Ran {
                success: true,
                stdout,
            } ==> valid_utf8(stdout) ==> r@ == (QuestionView::ClangVersions {
                directory: clang_directory(trimmed(decode_utf8(stdout))),
            })),
            (self is SdkPlatformPath && answer is Ran && answer->success) ==> (r is
                DeveloperDirectory),
            (self is SdkPlatformPath && !(answer is Ran && answer->success)) ==> (r is Finished
                && r->found is None),
            (self is DeveloperDirectory && answer is Ran && answer->success) ==> (r is
                ClangVersions && r->directory@ == trimmed(utf8_lossy(answer->stdout@))
                + "/Toolchains/XcodeDefault.xctoolchain/usr/lib/clang"@),
            (self is DeveloperDirectory && !(answer is Ran && answer->success)) ==> (r is Finished
                && r->found is None),
            (self is ClangVersions && answer is Listed && answer->count > 0) ==> (r is
                RuntimeLibrary && r->entry == 0 && r->count == answer->count),
            (self is ClangVersions && !(answer is Listed && answer->count > 0)) ==> (r is Finished
                && r->found is None),
            (self is RuntimeLibrary && answer is Looked && (answer->Looked_exists)) ==> (r is
                Finished && r->found == Some(self->entry)),
            (self is RuntimeLibrary && answer is Looked && !(answer->Looked_exists) && self->entry
                + 1 < self->count) ==> (r is RuntimeLibrary && r->entry == self->entry + 1
                && r->count == self->count),
            (self is RuntimeLibrary && answer is Looked && !(answer->Looked_exists) && self->entry
                + 1 >= self->count) ==> (r is Finished && r->found is None),
            (self is RuntimeLibrary && !(answer is Looked)) ==> (r is Finished && r->found is None),
            (self is Finished) ==> (r is Finished && r->found == self->found),
    {
        match (self, answer) {
            (
                Question::SdkPlatformPath,
                Answer::Ran { success: true, .. },
            ) => Question::DeveloperDirectory,
            (Question::DeveloperDirectory, Answer::Ran { success: true, stdout }) => {
                let developer_dir = developer_directory(stdout.as_slice());
                Question::ClangVersions { directory: toolchain_base(developer_dir.as_str()) }
            },
            (Question::ClangVersions { .. }, Answer::Listed { count }) => look(0, count),
            (Question::RuntimeLibrary { entry, count }, Answer::Looked { exists }) => {
                if exists {
                    Question::Finished { found: Some(entry) }
                } else if entry < count {
                    look(entry + 1, count)
                } else {
                    Question::Finished { found: None }
                }
            },
            (Question::Finished { found }, _) => Question::Finished { found },
            _ => Question::Finished { found: None },
        }
    }
}

/// A machine on which the search is made: what it answers to each question.
pub struct Machine {
    /// Whether `xcrun` ran, with success, and what it printed.
    pub sdk: Option<(bool, Seq<u8>)>,
    /// Whether `xcode-select` ran, with success, and what it printed.
    pub developer: Option<(bool, Seq<u8>)>,
    /// Which entries of a directory have the runtime library; a directory may be missing.
    pub versions: spec_fn(Seq<char>) -> Option<Seq<bool>>,
}

impl Machine {
    /// Whether `xcrun` ran with success.
    pub open spec fn has_sdk(self) -> bool {
        self.sdk matches Some((success, _)) && success
    }

    /// The entries of the directory that the developer directory leads to.
    pub open spec fn entries(self) -> Option<Seq<bool>> {
        match self.developer {
            Some((true, stdout)) => (self.versions)(clang_directory(printed_directory(stdout))),
            _ => None,
        }
    }

    /// What the machine answers to a question.
    pub open spec fn answer(self, question: QuestionView) -> AnswerView {
        match question {
            QuestionView::SdkPlatformPath => match self.sdk {
                Some((success, stdout)) => AnswerView::Ran { success, stdout },
                None => AnswerView::NotRun,
            },
            QuestionView::DeveloperDirectory => match self.developer {
                Some((success, stdout)) => AnswerView::Ran { success, stdout },
                None => AnswerView::NotRun,
            },
            QuestionView::ClangVersions { directory } => match (self.versions)(directory) {
                Some(entries) => AnswerView::Listed { count: entries.len() as int },
                None => AnswerView::NotListed,
            },
            QuestionView::RuntimeLibrary { entry, .. } => match self.entries() {
                Some(entries) => AnswerView::Looked { exists: entries[entry] },
                None => AnswerView::NotListed,
            },
            QuestionView::Finished { .. } => AnswerView::NotRun,
        }
    }

    /// Where the search stands after a number of questions.
    pub open spec fn after(self, questions: nat) -> QuestionView
        decreases questions,
    {
        if questions == 0 {
            QuestionView::SdkPlatformPath
        } else {
            let question = self.after((questions - 1) as nat);
            next_question(question, self.answer(question))
        }
    }
}

/// The first entry that has the runtime library, if there is one.
pub open spec fn is_first_present(entries: Seq<bool>, found: Option<int>) -> bool {
    match found {
        Some(i) => {
            &&& 0 <= i < entries.len()
            &&& entries[i]
            &&& forall|j: int| 0 <= j < i ==> !#[trigger] entries[j]
        },
        None => forall|j: int| 0 <= j < entries.len() ==> !#[trigger] entries[j],
    }
}

/// While the entries are looked at, none before the present one has the runtime library.
proof fn lemma_looking(machine: Machine, n: nat)
    requires
        machine.has_sdk(),
        machine.entries() is Some,
    ensures
        ({
            let entries = machine.entries()->0;
            let question = machine.after(3 + n);
            ||| {
                &&& n < entries.len()
                &&& question == QuestionView::RuntimeLibrary {
                    entry: n as int,
                    count: entries.len() as int,
                }
                &&& forall|j: int| 0 <= j < n ==> !#[trigger] entries[j]
            }
            ||| {
                &&& question matches QuestionView::Finished { found }
                &&& is_first_present(entries, found)
            }
        }),
    decreases n,
{
    let entries = machine.entries()->0;
    if n == 0 {
        assert(machine.after(0) == QuestionView::SdkPlatformPath);
        assert(machine.after(1) == QuestionView::DeveloperDirectory);
        assert(machine.after(2) is ClangVersions);
        assert(machine.after(3) == look_at(0, entries.len() as int));
    } else {
        lemma_looking(machine, (n - 1) as nat);
        let question = machine.after((3 + n - 1) as nat);
        assert(machine.after(3 + n) == next_question(question, machine.answer(question)));
    }
}

/// The search ends, after three questions and one for each entry at most, with the first
/// version of clang that has the runtime library; where a command does not succeed or the
/// directory cannot be listed, it ends without a result.
pub proof fn lemma_search_finds_the_first(machine: Machine, questions: nat)
    requires
        machine.entries() is Some ==> questions >= 3 + (machine.entries()->0).len(),
        questions >= 3,
    ensures
        machine.after(questions) matches QuestionView::Finished { found } && {
            if machine.has_sdk() && machine.entries() is Some {
                is_first_present(machine.entries()->0, found)
            } else {
                found is None
            }
        },
{
    if machine.has_sdk() && machine.entries() is Some {
        lemma_looking(machine, (questions - 3) as nat);
    } else {
        lemma_search_ends_early(machine, questions);
    }
}

/// A search that cannot list the versions of clang ends at once.
proof fn lemma_search_ends_early(machine: Machine, questions: nat)
    requires
        !machine.has_sdk() || machine.entries() is None,
        questions >= 3,
    ensures
        machine.after(questions) == nothing_found(),
    decreases questions,
{
    if questions == 3 {
        assert(machine.after(0) == QuestionView::SdkPlatformPath);
        let first = machine.after(1);
        let second = machine.after(2);
        assert(machine.after(1) == next_question(
            machine.after(0),
            machine.answer(machine.after(0)),
        ));
        assert(second == next_question(first, machine.answer(first)));
        assert(machine.after(3) == next_question(second, machine.answer(second)));
    } else {
        lemma_search_ends_early(machine, (questions - 1) as nat);
    }
}

/// What is found is the directory of the file that was looked for at the same entry.
pub proof fn lemma_found_where_looked_for(entry: int, count: int)
    ensures
        ({
            let question = QuestionView::RuntimeLibrary { entry, count };
            let found = next_question(question, AnswerView::Looked { exists: true });
            &&& found == QuestionView::Finished { found: Some(entry) }
            &&& path_below_entry(found).push(RUNTIME_LIBRARY@) == path_below_entry(question)
        }),
{
    assert(seq![DARWIN_DIRECTORY@].push(RUNTIME_LIBRARY@) =~= seq![
        DARWIN_DIRECTORY@,
        RUNTIME_LIBRARY@,
    ]);
}

/// An ended search stays as it is, whatever is answered.
pub proof fn lemma_finished_stays(question: QuestionView, answer: AnswerView)
    requires
        question is Finished,
    ensures
        next_question(question, answer) == question,
{
}

} // verus!
