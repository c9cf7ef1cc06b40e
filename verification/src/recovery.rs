//! What a failure of a change stream means for opening it again.
use vstd::prelude::*;

verus! {

/// What is known of a failure.
#[derive(Debug)]
pub enum FailureKind {
    /// A change came without a resume token.
    MissingResumeToken,
    /// The server refused a command.
    Command {
        /// The number of the error.
        code: i32,
        /// The name of the error.
        code_name: String,
        /// What the server says of it.
        message: String,
    },
    /// Anything else.
    Other,
}

/// A [`FailureKind`] with its texts as characters.
pub enum FailureKindView {
    MissingResumeToken,
    Command { code: i32, code_name: Seq<char>, message: Seq<char> },
    Other,
}

impl View for FailureKind {
    type V = FailureKindView;

    open spec fn view(&self) -> FailureKindView {
        match self {
            FailureKind::MissingResumeToken => FailureKindView::MissingResumeToken,
            FailureKind::Command { code, code_name, message } => FailureKindView::Command {
                code: *code,
                code_name: code_name@,
                message: message@,
            },
            FailureKind::Other => FailureKindView::Other,
        }
    }
}

/// A failure and its text.
#[derive(Debug)]
pub struct Failure {
    /// What is known of it.
    pub kind: FailureKind,
    /// What it says.
    pub text: String,
}

/// A [`Failure`] with its texts as characters.
pub struct FailureView {
    pub kind: FailureKindView,
    pub text: Seq<char>,
}

impl View for Failure {
    type V = FailureView;

    open spec fn view(&self) -> FailureView {
        FailureView { kind: self.kind@, text: self.text@ }
    }
}

/// Whether a text stands somewhere within another.
pub open spec fn occurs_in(needle: Seq<char>, text: Seq<char>) -> bool {
    exists|at: int|
        0 <= at <= text.len() - needle.len() && #[trigger] text.subrange(at, at + needle.len())
            == needle
}

/// Calls `str::contains` with a string as the pattern: whether it stands somewhere within the
/// text.
#[verifier::external_body]
fn text_contains(text: &str, needle: &str) -> (found: bool)
    ensures
        found == occurs_in(needle@, text@),
{
    text.contains(needle)
}

impl FailureKindView {
    /// Whether the stream cannot pick up where it was, so that it has to be opened afresh: its
    /// token is missing, or the server says that it cannot resume, by number, by name or in words.
    pub open spec fn requires_fresh_recovery(self) -> bool {
        match self {
            FailureKindView::MissingResumeToken => true,
            FailureKindView::Command { code, code_name, message } => {
                ||| code == 237
                ||| code == 260
                ||| code == 280
                ||| code == 286
                ||| code_name == "ChangeStreamFatalError"@
                ||| code_name == "ChangeStreamHistoryLost"@
                ||| code_name == "ResumeTokenException"@
                ||| occurs_in("resume"@, message)
                ||| occurs_in("Resume"@, message)
            },
            FailureKindView::Other => false,
        }
    }
}

/// Whether a text is made of something, another text and something behind that.
pub open spec fn is_around(text: Seq<char>, needle: Seq<char>) -> bool {
    exists|before: Seq<char>, after: Seq<char>| text == #[trigger] (before + needle + after)
}

/// A text stands within another exactly if the other is made of something ahead of it, the text and
/// something behind it.
pub proof fn law_text_occurs_between_two_others(needle: Seq<char>, text: Seq<char>)
    ensures
        occurs_in(needle, text) <==> is_around(text, needle),
{
    if occurs_in(needle, text) {
        let at = choose|at: int|
            0 <= at <= text.len() - needle.len() && #[trigger] text.subrange(
                at,
                at + needle.len(),
            ) == needle;
        let before = text.subrange(0, at);
        let after = text.subrange(at + needle.len(), text.len() as int);
        assert(text =~= before + needle + after);
    }
    if is_around(text, needle) {
        let (before, after) = choose|before: Seq<char>, after: Seq<char>|
            text == #[trigger] (before + needle + after);
        let at = before.len() as int;
        assert(text.subrange(at, at + needle.len()) =~= needle);
    }
}

/// The server's refusal of a command calls for a fresh start exactly if its number, its name or its
/// words do, each on its own. A missing token does so always, and no other failure does.
pub proof fn law_each_sign_calls_for_a_fresh_start(
    code: i32,
    code_name: Seq<char>,
    message: Seq<char>,
)
    ensures
        FailureKindView::MissingResumeToken.requires_fresh_recovery(),
        !FailureKindView::Other.requires_fresh_recovery(),
        (FailureKindView::Command { code, code_name, message }).requires_fresh_recovery() <==> (
        set![237i32, 260i32, 280i32, 286i32].contains(code) || set![
            "ChangeStreamFatalError"@,
            "ChangeStreamHistoryLost"@,
            "ResumeTokenException"@,
        ].contains(code_name) || is_around(message, "resume"@) || is_around(message, "Resume"@)),
{
    law_text_occurs_between_two_others("resume"@, message);
    law_text_occurs_between_two_others("Resume"@, message);
}

/// A failure's view is the failure, texts taken as characters.
pub proof fn law_failure_is_seen_as_it_is(
    failure: Failure,
    code: i32,
    code_name: String,
    message: String,
)
    ensures
        failure@.kind == failure.kind@,
        failure@.text == failure.text@,
        FailureKind::MissingResumeToken@ is MissingResumeToken,
        FailureKind::Other@ is Other,
        (FailureKind::Command { code, code_name, message })@ == (FailureKindView::Command {
            code,
            code_name: code_name@,
            message: message@,
        }),
{
}

/// Whether a text is the given one.
fn text_is(text: &String, other: &str) -> (same: bool)
    ensures
        same == (text@ == other@),
{
    *text == other.to_owned()
}

/// Whether a stream that failed like this cannot pick up where it was.
pub fn requires_fresh_recovery(kind: &FailureKind) -> (fresh: bool)
    ensures
        fresh == kind@.requires_fresh_recovery(),
{
    match kind {
        FailureKind::MissingResumeToken => true,
        FailureKind::Command { code, code_name, message } => {
            let code = *code;
            code == 237 || code == 260 || code == 280 || code == 286 || text_is(
                code_name,
                "ChangeStreamFatalError",
            ) || text_is(code_name, "ChangeStreamHistoryLost") || text_is(
                code_name,
                "ResumeTokenException",
            ) || text_contains(message.as_str(), "resume") || text_contains(
                message.as_str(),
                "Resume",
            )
        },
        FailureKind::Other => false,
    }
}

} // verus!
