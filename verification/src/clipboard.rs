//! Copying text to the clipboard through the platform's clipboard helper
//! programs. Running a helper is left to the caller; this module decides
//! which helper to run next and what the outcome of each run means.

use vstd::prelude::*;

use crate::text::to_owned_string;

verus! {

/// The platform families with different clipboard helpers.
#[derive(Debug, Clone, Copy, PartialEq, Eq, Structural)]
pub enum Platform {
    MacOs,
    Windows,
    OtherUnix,
    Unsupported,
}

/// A helper program and its arguments; it reads the text on its standard input.
pub struct ClipboardHelper {
    pub program: String,
    pub args: Vec<String>,
}

/// What running a helper gave.
pub enum PipeOutcome {
    /// The helper ran and exited successfully.
    Success,
    /// The helper program does not exist; the text says so.
    NotFound(String),
    /// The helper could not be run or did not succeed; the text says why.
    Failed(String),
}

/// Why the text could not be copied.
#[derive(Debug, PartialEq, Eq)]
pub enum ClipboardError {
    /// There is nothing to copy.
    Empty,
    /// A helper failed; the text says how.
    HelperFailed(String),
    /// `pbcopy` is missing.
    PbcopyMissing,
    /// None of the Unix helpers is installed.
    NoHelperFound,
    /// The platform has no clipboard support.
    Unsupported,
}

/// What to do next.
pub enum ClipboardStep {
    /// Run helper number `index` of the platform's helpers.
    Run(usize),
    /// The text is on the clipboard.
    Done,
    /// Copying failed.
    Fail(ClipboardError),
}

/// The abstract outcome of a helper run.
pub enum OutcomeKind {
    Success,
    NotFound(Seq<char>),
    Failed(Seq<char>),
}

impl View for PipeOutcome {
    type V = OutcomeKind;

    open spec fn view(&self) -> OutcomeKind {
        match self {
            PipeOutcome::Success => OutcomeKind::Success,
            PipeOutcome::NotFound(m) => OutcomeKind::NotFound(m@),
            PipeOutcome::Failed(m) => OutcomeKind::Failed(m@),
        }
    }
}

/// The abstract step.
pub enum StepKind {
    Run(nat),
    Done,
    Fail(ClipboardFailure),
}

/// The abstract reason of a failure.
pub enum ClipboardFailure {
    Empty,
    HelperFailed(Seq<char>),
    PbcopyMissing,
    NoHelperFound,
    Unsupported,
}

impl View for ClipboardError {
    type V = ClipboardFailure;

    open spec fn view(&self) -> ClipboardFailure {
        match self {
            ClipboardError::Empty => ClipboardFailure::Empty,
            ClipboardError::HelperFailed(m) => ClipboardFailure::HelperFailed(m@),
            ClipboardError::PbcopyMissing => ClipboardFailure::PbcopyMissing,
            ClipboardError::NoHelperFound => ClipboardFailure::NoHelperFound,
            ClipboardError::Unsupported => ClipboardFailure::Unsupported,
        }
    }
}

impl View for ClipboardStep {
    type V = StepKind;

    open spec fn view(&self) -> StepKind {
        match self {
            ClipboardStep::Run(i) => StepKind::Run(*i as nat),
            ClipboardStep::Done => StepKind::Done,
            ClipboardStep::Fail(e) => StepKind::Fail(e@),
        }
    }
}

/// The helpers of a platform, in the order they are tried, as program name
/// and arguments.
pub open spec fn spec_helpers(platform: Platform) -> Seq<(Seq<char>, Seq<Seq<char>>)> {
    match platform {
        Platform::MacOs => seq![("pbcopy"@, Seq::empty())],
        Platform::Windows => seq![("cmd"@, seq!["/C"@, "clip"@])],
        Platform::OtherUnix => seq![
            ("wl-copy"@, Seq::empty()),
            ("xclip"@, seq!["-selection"@, "clipboard"@]),
            ("xsel"@, seq!["--clipboard"@, "--input"@]),
        ],
        Platform::Unsupported => Seq::empty(),
    }
}

/// A helper as text.
pub open spec fn helper_view(h: ClipboardHelper) -> (Seq<char>, Seq<Seq<char>>) {
    (h.program@, string_views(h.args@))
}

/// Texts as character sequences.
pub open spec fn string_views(v: Seq<String>) -> Seq<Seq<char>> {
    v.map_values(|a: String| a@)
}

/// The clipboard commands: each writes its standard input to the system
/// clipboard (not to a primary selection).
pub open spec fn clipboard_command(h: (Seq<char>, Seq<Seq<char>>)) -> bool {
    ||| h == ("pbcopy"@, Seq::<Seq<char>>::empty())
    ||| h == ("cmd"@, seq!["/C"@, "clip"@])
    ||| h == ("wl-copy"@, Seq::<Seq<char>>::empty())
    ||| h == ("xclip"@, seq!["-selection"@, "clipboard"@])
    ||| h == ("xsel"@, seq!["--clipboard"@, "--input"@])
}

/// Every helper of every platform writes to the system clipboard; macOS
/// uses `pbcopy` and Windows `clip`; other Unix systems try the Wayland
/// helper `wl-copy` first, then `xclip`, then `xsel`; a platform without
/// clipboard support has no helper.
pub proof fn law_helpers_write_the_clipboard(platform: Platform, i: int)
    requires
        0 <= i < spec_helpers(platform).len(),
    ensures
        clipboard_command(spec_helpers(platform)[i]),
        platform is MacOs ==> spec_helpers(platform)[i].0 == "pbcopy"@,
        platform is Windows ==> spec_helpers(platform)[i] == ("cmd"@, seq!["/C"@, "clip"@]),
        platform is OtherUnix ==> spec_helpers(platform).len() == 3 && spec_helpers(platform)[0] == (
            "wl-copy"@,
            Seq::<Seq<char>>::empty(),
        ) && spec_helpers(platform)[1].0 == "xclip"@ && spec_helpers(platform)[2].0 == "xsel"@,
        !(platform is Unsupported),
{
}

fn no_args() -> (r: Vec<String>)
    ensures
        string_views(r@) == Seq::<Seq<char>>::empty(),
{
    let r: Vec<String> = Vec::new();
    assert(string_views(r@) =~= Seq::<Seq<char>>::empty());
    r
}

fn two_args(a: &str, b: &str) -> (r: Vec<String>)
    ensures
        string_views(r@) == seq![a@, b@],
{
    let mut r: Vec<String> = Vec::new();
    r.push(to_owned_string(a));
    r.push(to_owned_string(b));
    assert(string_views(r@) =~= seq![a@, b@]);
    r
}

/// The helpers of a platform, in the order they are tried.
pub fn clipboard_helpers(platform: Platform) -> (r: Vec<ClipboardHelper>)
    ensures
        r@.map_values(|h: ClipboardHelper| helper_view(h)) == spec_helpers(platform),
{
    let mut out: Vec<ClipboardHelper> = Vec::new();
    match platform {
        Platform::MacOs => {
            out.push(ClipboardHelper { program: to_owned_string("pbcopy"), args: no_args() });
        },
        Platform::Windows => {
            out.push(ClipboardHelper { program: to_owned_string("cmd"), args: two_args("/C", "clip") });
        },
        Platform::OtherUnix => {
            out.push(ClipboardHelper { program: to_owned_string("wl-copy"), args: no_args() });
            out.push(
                ClipboardHelper {
                    program: to_owned_string("xclip"),
                    args: two_args("-selection", "clipboard"),
                },
            );
            out.push(
                ClipboardHelper {
                    program: to_owned_string("xsel"),
                    args: two_args("--clipboard", "--input"),
                },
            );
        },
        Platform::Unsupported => {},
    }
    assert(out@.map_values(|h: ClipboardHelper| helper_view(h)) =~= spec_helpers(platform));
    out
}

/// What a helper run means where missing helpers are skipped: `true` for
/// success, `false` for a missing helper, an error for any other failure.
pub fn try_pipe_to_command(outcome: PipeOutcome) -> (r: Result<bool, ClipboardError>)
    ensures
        match outcome@ {
            OutcomeKind::Success => r == Ok::<bool, ClipboardError>(true),
            OutcomeKind::NotFound(_) => r == Ok::<bool, ClipboardError>(false),
            OutcomeKind::Failed(m) => r matches Err(e) && e@ == ClipboardFailure::HelperFailed(m),
        },
{
    match outcome {
        PipeOutcome::Success => Ok(true),
        PipeOutcome::NotFound(_) => Ok(false),
        PipeOutcome::Failed(m) => Err(ClipboardError::HelperFailed(m)),
    }
}

/// The first step of copying `contents`: nothing to copy and an unsupported
/// platform fail at once; otherwise the first helper runs.
pub open spec fn spec_first_step(contents: Seq<char>, platform: Platform) -> StepKind {
    if contents.len() == 0 {
        StepKind::Fail(ClipboardFailure::Empty)
    } else if platform == Platform::Unsupported {
        StepKind::Fail(ClipboardFailure::Unsupported)
    } else {
        StepKind::Run(0)
    }
}

/// The step after helper `index` ran with `outcome`: success is done; on
/// Windows any failure fails, as its helper is always run; elsewhere a missing helper moves on to the
/// next one, and failing that, fails; any other failure fails.
pub open spec fn spec_next_step(platform: Platform, index: nat, outcome: OutcomeKind) -> StepKind {
    match outcome {
        OutcomeKind::Success => StepKind::Done,
        OutcomeKind::Failed(m) => StepKind::Fail(ClipboardFailure::HelperFailed(m)),
        OutcomeKind::NotFound(m) => match platform {
            Platform::Windows => StepKind::Fail(ClipboardFailure::HelperFailed(m)),
            Platform::MacOs => StepKind::Fail(ClipboardFailure::PbcopyMissing),
            Platform::OtherUnix => if index + 1 < 3 {
                StepKind::Run(index + 1)
            } else {
                StepKind::Fail(ClipboardFailure::NoHelperFound)
            },
            Platform::Unsupported => StepKind::Fail(ClipboardFailure::Unsupported),
        },
    }
}

/// Starts copying `contents` to the clipboard of `platform`.
pub fn set_clipboard(contents: &str, platform: Platform) -> (r: ClipboardStep)
    ensures
        r@ == spec_first_step(contents@, platform),
{
    if contents.unicode_len() == 0 {
        ClipboardStep::Fail(ClipboardError::Empty)
    } else if platform == Platform::Unsupported {
        ClipboardStep::Fail(ClipboardError::Unsupported)
    } else {
        ClipboardStep::Run(0)
    }
}

/// The next step once helper `index` of `platform` ran with `outcome`.
pub fn next_clipboard_step(platform: Platform, index: usize, outcome: PipeOutcome) -> (r: ClipboardStep)
    requires
        index < 3,
    ensures
        r@ == spec_next_step(platform, index as nat, outcome@),
{
    match outcome {
        PipeOutcome::Success => ClipboardStep::Done,
        PipeOutcome::Failed(m) => ClipboardStep::Fail(ClipboardError::HelperFailed(m)),
        PipeOutcome::NotFound(m) => match platform {
            Platform::Windows => ClipboardStep::Fail(ClipboardError::HelperFailed(m)),
            Platform::MacOs => ClipboardStep::Fail(ClipboardError::PbcopyMissing),
            Platform::OtherUnix => if index + 1 < 3 {
                ClipboardStep::Run(index + 1)
            } else {
                ClipboardStep::Fail(ClipboardError::NoHelperFound)
            },
            Platform::Unsupported => ClipboardStep::Fail(ClipboardError::Unsupported),
        },
    }
}

impl ClipboardError {
    /// The message shown for this error.
    pub fn message(&self) -> (r: String)
        ensures
            match self {
                ClipboardError::Empty => r@ == "Nothing to copy to clipboard (empty output)"@,
                ClipboardError::HelperFailed(m) => r@ == m@,
                ClipboardError::PbcopyMissing => r@ == "Could not find 'pbcopy' to set clipboard"@,
                ClipboardError::NoHelperFound => r@
                    == "No clipboard helper found. Install one of: wl-copy, xclip, xsel."@,
                ClipboardError::Unsupported => r@ == "Clipboard is not supported on this platform"@,
            },
    {
        match self {
            ClipboardError::Empty => to_owned_string("Nothing to copy to clipboard (empty output)"),
            ClipboardError::HelperFailed(m) => m.clone(),
            ClipboardError::PbcopyMissing => to_owned_string(
                "Could not find 'pbcopy' to set clipboard",
            ),
            ClipboardError::NoHelperFound => to_owned_string(
                "No clipboard helper found. Install one of: wl-copy, xclip, xsel.",
            ),
            ClipboardError::Unsupported => to_owned_string("Clipboard is not supported on this platform"),
        }
    }
}

} // verus!
