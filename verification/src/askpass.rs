//! The script that tells `ssh` a password where `sshpass` is not installed: what it is called, what
//! it holds and in which steps it is made.

use crate::profile::Platform;
use crate::shell::{
    all_plain, lemma_read_blank, lemma_read_concat, lemma_read_plain, lemma_read_quoted,
    nothing_read, push_quoted, quoted, read_text, shell_words,
};
use crate::text::{
    chars_of, concat, decimal, hex, hex_bound, law_decimal_stands_for_the_number,
    lemma_hex_length, lemma_hex_tells_apart, outcome_view, push_decimal, push_hex,
};
use std::path::PathBuf;
use vstd::prelude::*;

verus! {

/// A path of the file system, carried as it is.
#[verifier::external_type_specification]
#[verifier::external_body]
pub struct ExPathBuf(std::path::PathBuf);

/// `dirs::home_dir`: the home directory of the current user, if there is one. It depends on the
/// environment and on the user database, so nothing is claimed of it.
pub assume_specification[ dirs::home_dir ]() -> (home: Option<PathBuf>)
;

/// Calls `rand::random` for a `u32`. It is a random number, so nothing is claimed of it.
#[verifier::external_body]
fn random_nonce() -> (nonce: u32) {
    rand::random()
}

/// The directory for temporary files: `parts`, one below the other, below `home`.
#[derive(Debug, PartialEq, Eq)]
pub struct PrivateTmp {
    pub home: PathBuf,
    pub parts: Vec<String>,
}

/// The directory for temporary files, by the text that it holds.
#[verifier::ext_equal]
pub struct PrivateTmpView {
    pub home: PathBuf,
    pub parts: Seq<Seq<char>>,
}

impl View for PrivateTmp {
    type V = PrivateTmpView;

    open spec fn view(&self) -> PrivateTmpView {
        PrivateTmpView { home: self.home, parts: self.parts.deep_view() }
    }
}

/// The directories below the home directory that lead to the temporary files.
pub open spec fn private_tmp_parts() -> Seq<Seq<char>> {
    seq![".cokacdir"@, "tmp"@]
}

/// The directory for temporary files below a home directory.
pub fn private_tmp_below(home: Option<PathBuf>) -> (tmp: Result<PrivateTmp, String>)
    ensures
        match (home, tmp) {
            (Some(home), Ok(tmp)) => tmp@ == (PrivateTmpView { home, parts: private_tmp_parts() }),
            (None, Err(reason)) => reason@ == "Failed to get home directory"@,
            _ => false,
        },
{
    match home {
        Some(home) => {
            let mut parts: Vec<String> = Vec::new();
            parts.push(".cokacdir".to_string());
            parts.push("tmp".to_string());
            assert(parts.deep_view() == private_tmp_parts());
            Ok(PrivateTmp { home, parts })
        },
        None => Err("Failed to get home directory".to_string()),
    }
}

/// The directory for temporary files of the current user. It fails where the user has no home
/// directory.
pub fn private_tmp() -> (tmp: Result<PrivateTmp, String>)
    ensures
        match tmp {
            Ok(tmp) => tmp@.parts == private_tmp_parts(),
            Err(reason) => reason@ == "Failed to get home directory"@,
        },
{
    private_tmp_below(dirs::home_dir())
}

/// The file name of a script. The random number keeps scripts of one process apart.
pub open spec fn script_name(pid: u32, nonce: u32, platform: Platform) -> Seq<char> {
    "askpass_"@ + decimal(pid as nat) + "_"@ + hex(nonce as nat, 8) + (match platform {
        Platform::Unix => Seq::empty(),
        Platform::Windows => ".bat"@,
    })
}

/// Builds the file name of a script.
pub fn build_script_name(pid: u32, nonce: u32, platform: Platform) -> (name: String)
    ensures
        name@ == script_name(pid, nonce, platform),
{
    let mut name = "askpass_".to_string();
    push_decimal(&mut name, pid as u128);
    name.append("_");
    push_hex(&mut name, nonce, 8);
    match platform {
        Platform::Unix => {
            assert(name@ + Seq::<char>::empty() == name@);
        },
        Platform::Windows => name.append(".bat"),
    }
    name
}

/// Whether a password can be put into a Windows batch file at all: a line end would start another
/// command, and a double quote would close a quotation.
pub open spec fn batch_safe(password: Seq<char>) -> bool {
    !password.contains('\n') && !password.contains('\r') && !password.contains('"')
}

/// The text that stands for one character in a batch file.
pub open spec fn batch_escaped_char(c: char) -> Seq<char> {
    if c == '^' || c == '&' || c == '|' || c == '<' || c == '>' {
        seq!['^', c]
    } else if c == '%' {
        seq!['%', '%']
    } else {
        seq![c]
    }
}

/// The text that stands for `s` in a batch file.
pub open spec fn batch_escaped(s: Seq<char>) -> Seq<char>
    decreases s.len(),
{
    if s.len() == 0 {
        Seq::empty()
    } else {
        batch_escaped(s.drop_last()) + batch_escaped_char(s.last())
    }
}

/// The script that prints a password, where there can be one.
pub open spec fn script_content(password: Seq<char>, platform: Platform) -> Result<
    Seq<char>,
    Seq<char>,
> {
    match platform {
        Platform::Unix => Ok("#!/bin/sh\necho "@ + quoted(password) + "\n"@),
        Platform::Windows => if batch_safe(password) {
            Ok("@echo off\necho "@ + batch_escaped(password) + "\n"@)
        } else {
            Err(
                "Password contains characters (newline or double quote) that cannot be safely embedded in a Windows askpass script."@,
            )
        },
    }
}

/// Tells whether a password can be put into a batch file.
fn check_batch_safe(password: &Vec<char>) -> (safe: bool)
    ensures
        safe == batch_safe(password@),
{
    let mut i: usize = 0;
    while i < password.len()
        invariant
            i <= password.len(),
            forall|k: int|
                0 <= k < i ==> #[trigger] password@[k] != '\n' && password@[k] != '\r'
                    && password@[k] != '"',
        decreases password.len() - i,
    {
        let c = password[i];
        if c == '\n' || c == '\r' || c == '"' {
            assert(password@.contains(c));
            return false;
        }
        i += 1;
    }
    true
}

/// Appends the text that stands for a password in a batch file.
fn push_batch_escaped(out: &mut String, password: &Vec<char>)
    ensures
        final(out)@ == old(out)@ + batch_escaped(password@),
{
    let mut i: usize = 0;
    assert(old(out)@ + batch_escaped(password@.take(0)) == old(out)@);
    while i < password.len()
        invariant
            i <= password.len(),
            out@ == old(out)@ + batch_escaped(password@.take(i as int)),
        decreases password.len() - i,
    {
        let ghost before = out@;
        let c = password[i];
        if c == '^' || c == '&' || c == '|' || c == '<' || c == '>' {
            out.push('^');
        } else if c == '%' {
            out.push('%');
        }
        out.push(c);
        proof {
            assert(password@.take(i + 1).drop_last() == password@.take(i as int));
            assert(out@ == before + batch_escaped_char(c));
        }
        i += 1;
    }
    assert(password@.take(password.len() as int) == password@);
}

/// Builds the script that prints a password, or says why there can be none.
pub fn build_script_content(password: &str, platform: Platform) -> (content: Result<String, String>)
    ensures
        match (script_content(password@, platform), content) {
            (Ok(expected), Ok(content)) => content@ == expected,
            (Err(expected), Err(reason)) => reason@ == expected,
            _ => false,
        },
{
    match platform {
        Platform::Unix => {
            let mut content = "#!/bin/sh\necho ".to_string();
            push_quoted(&mut content, password);
            content.append("\n");
            Ok(content)
        },
        Platform::Windows => {
            let chars = chars_of(password);
            if !check_batch_safe(&chars) {
                return Err(
                    "Password contains characters (newline or double quote) that cannot be safely embedded in a Windows askpass script.".to_string(),
                );
            }
            let mut content = "@echo off\necho ".to_string();
            push_batch_escaped(&mut content, &chars);
            content.append("\n");
            Ok(content)
        },
    }
}

/// What is to be done next to make the script.
#[derive(Debug, PartialEq, Eq)]
pub enum AskpassStep {
    /// Create the directory for temporary files.
    CreateDir(PrivateTmp),
    /// Write the script into that directory.
    Write { name: String, content: String },
    /// Give the script these permissions.
    Restrict { mode: u32 },
    /// The script is ready.
    Ready,
    /// Remove whatever has been written of the script, which failed for this reason.
    Discard(String),
    /// There is no script.
    Failed(String),
}

/// A step, by the text that it holds.
#[verifier::ext_equal]
pub enum AskpassStepView {
    CreateDir(PrivateTmpView),
    Write { name: Seq<char>, content: Seq<char> },
    Restrict { mode: u32 },
    Ready,
    Discard(Seq<char>),
    Failed(Seq<char>),
}

impl View for AskpassStep {
    type V = AskpassStepView;

    open spec fn view(&self) -> AskpassStepView {
        match self {
            AskpassStep::CreateDir(tmp) => AskpassStepView::CreateDir(tmp@),
            AskpassStep::Write { name, content } => AskpassStepView::Write {
                name: name@,
                content: content@,
            },
            AskpassStep::Restrict { mode } => AskpassStepView::Restrict { mode: *mode },
            AskpassStep::Ready => AskpassStepView::Ready,
            AskpassStep::Discard(reason) => AskpassStepView::Discard(reason@),
            AskpassStep::Failed(reason) => AskpassStepView::Failed(reason@),
        }
    }
}

/// The first step: the directory, or a failure where there is no home directory.
pub open spec fn first_step(home: Option<PathBuf>) -> AskpassStepView {
    match home {
        Some(home) => AskpassStepView::CreateDir(
            PrivateTmpView { home, parts: private_tmp_parts() },
        ),
        None => AskpassStepView::Failed("Failed to get home directory"@),
    }
}

/// The step behind the attempt to create the directory.
pub open spec fn step_after_dir(
    created: Result<(), Seq<char>>,
    password: Seq<char>,
    pid: u32,
    nonce: u32,
    platform: Platform,
) -> AskpassStepView {
    match created {
        Ok(()) => match script_content(password, platform) {
            Ok(content) => AskpassStepView::Write {
                name: script_name(pid, nonce, platform),
                content,
            },
            Err(reason) => AskpassStepView::Failed(reason),
        },
        Err(reason) => AskpassStepView::Failed("Failed to create tmp dir: "@ + reason),
    }
}

/// The step behind the attempt to write the script. Only its owner may read or run it. An attempt
/// that failed may have written a part of it, which is removed.
pub open spec fn step_after_write(
    written: Result<(), Seq<char>>,
    platform: Platform,
) -> AskpassStepView {
    match (written, platform) {
        (Ok(()), Platform::Unix) => AskpassStepView::Restrict { mode: 0o700 },
        (Ok(()), Platform::Windows) => AskpassStepView::Ready,
        (Err(reason), _) => AskpassStepView::Discard("Failed to create askpass script: "@ + reason),
    }
}

/// The step behind the attempt to set the permissions. A script that others may read is removed.
pub open spec fn step_after_restrict(restricted: Result<(), Seq<char>>) -> AskpassStepView {
    match restricted {
        Ok(()) => AskpassStepView::Ready,
        Err(reason) => AskpassStepView::Discard("Failed to set script permissions: "@ + reason),
    }
}

/// Starts to make a script below a home directory.
pub fn start_askpass_script(home: Option<PathBuf>) -> (step: AskpassStep)
    ensures
        step@ == first_step(home),
{
    match private_tmp_below(home) {
        Ok(tmp) => AskpassStep::CreateDir(tmp),
        Err(reason) => AskpassStep::Failed(reason),
    }
}

/// Starts to make a script below the home directory of the current user.
pub fn create_askpass_script() -> (step: AskpassStep)
    ensures
        exists|home: Option<PathBuf>| step@ == #[trigger] first_step(home),
{
    start_askpass_script(dirs::home_dir())
}

/// Goes on, with a given random number, when the directory has been created or could not be.
pub fn continue_with_nonce(
    created: Result<(), String>,
    password: &str,
    pid: u32,
    nonce: u32,
    platform: Platform,
) -> (step: AskpassStep)
    ensures
        step@ == step_after_dir(outcome_view(created), password@, pid, nonce, platform),
{
    match created {
        Ok(()) => match build_script_content(password, platform) {
            Ok(content) => AskpassStep::Write {
                name: build_script_name(pid, nonce, platform),
                content,
            },
            Err(reason) => AskpassStep::Failed(reason),
        },
        Err(reason) => AskpassStep::Failed(concat("Failed to create tmp dir: ", reason.as_str())),
    }
}

/// Goes on when the directory has been created or could not be. The name of the script holds a
/// random number.
pub fn askpass_dir_created(
    created: Result<(), String>,
    password: &str,
    pid: u32,
    platform: Platform,
) -> (step: AskpassStep)
    ensures
        exists|nonce: u32|
            step@ == #[trigger] step_after_dir(
                outcome_view(created),
                password@,
                pid,
                nonce,
                platform,
            ),
{
    continue_with_nonce(created, password, pid, random_nonce(), platform)
}

/// Goes on when the script has been written or could not be.
pub fn askpass_written(written: Result<(), String>, platform: Platform) -> (step: AskpassStep)
    ensures
        step@ == step_after_write(outcome_view(written), platform),
{
    match written {
        Ok(()) => match platform {
            Platform::Unix => AskpassStep::Restrict { mode: 0o700 },
            Platform::Windows => AskpassStep::Ready,
        },
        Err(reason) => AskpassStep::Discard(
            concat("Failed to create askpass script: ", reason.as_str()),
        ),
    }
}

/// Goes on when the permissions have been set or could not be.
pub fn askpass_restricted(restricted: Result<(), String>) -> (step: AskpassStep)
    ensures
        step@ == step_after_restrict(outcome_view(restricted)),
{
    match restricted {
        Ok(()) => AskpassStep::Ready,
        Err(reason) => AskpassStep::Discard(
            concat("Failed to set script permissions: ", reason.as_str()),
        ),
    }
}

/// Goes on when what was written of a script has been removed, or could not be.
pub fn askpass_discarded(reason: String) -> (step: AskpassStep)
    ensures
        step@ == AskpassStepView::Failed(reason@),
{
    AskpassStep::Failed(reason)
}

/// What a script is made for and from.
#[verifier::ext_equal]
pub struct ScriptJob {
    pub password: Seq<char>,
    pub pid: u32,
    pub nonce: u32,
    pub platform: Platform,
}

/// The step behind another one, which succeeded or failed. There is none behind the end.
pub open spec fn step_after(
    job: ScriptJob,
    step: AskpassStepView,
    outcome: Result<(), Seq<char>>,
) -> AskpassStepView {
    match step {
        AskpassStepView::CreateDir(_) => step_after_dir(
            outcome,
            job.password,
            job.pid,
            job.nonce,
            job.platform,
        ),
        AskpassStepView::Write { .. } => step_after_write(outcome, job.platform),
        AskpassStepView::Restrict { .. } => step_after_restrict(outcome),
        AskpassStepView::Discard(reason) => AskpassStepView::Failed(reason),
        _ => step,
    }
}

/// The steps in which a script is made, given what came of each of them.
pub open spec fn script_steps(
    home: Option<PathBuf>,
    job: ScriptJob,
    outcomes: Seq<Result<(), Seq<char>>>,
) -> Seq<AskpassStepView>
    decreases outcomes.len(),
{
    if outcomes.len() == 0 {
        seq![first_step(home)]
    } else {
        let before = script_steps(home, job, outcomes.drop_last());
        before.push(step_after(job, before.last(), outcomes.last()))
    }
}

/// Whether the script has been written, at least in part, and not been removed again.
pub open spec fn script_on_disk(steps: Seq<AskpassStepView>) -> bool
    decreases steps.len(),
{
    steps.len() > 0 && match steps.last() {
        AskpassStepView::Write { .. } => true,
        AskpassStepView::Discard(_) => false,
        _ => script_on_disk(steps.drop_last()),
    }
}

/// Making a script never leaves one behind that nobody knows of. A run that ends with `Failed` has
/// asked for the removal of whatever it wrote, after it wrote it; nothing is removed that was not
/// written. A run that ends with `Ready` has its script on disk. Every run ends after four outcomes
/// at most.
pub proof fn law_no_script_is_abandoned(
    home: Option<PathBuf>,
    job: ScriptJob,
    outcomes: Seq<Result<(), Seq<char>>>,
)
    ensures
        ({
            let steps = script_steps(home, job, outcomes);
            &&& steps.last() is Failed ==> !script_on_disk(steps)
            &&& steps.last() is Ready ==> script_on_disk(steps)
            &&& forall|i: int|
                0 <= i < steps.len() && #[trigger] steps[i] is Write && steps.last() is Failed
                    ==> exists|j: int| i < j < steps.len() && #[trigger] steps[j] is Discard
            &&& forall|j: int|
                0 <= j < steps.len() && #[trigger] steps[j] is Discard ==> exists|i: int|
                    0 <= i < j && #[trigger] steps[i] is Write
            &&& outcomes.len() >= 4 ==> steps.last() is Ready || steps.last() is Failed
        }),
{
    lemma_script_steps(home, job, outcomes);
    let steps = script_steps(home, job, outcomes);
    assert forall|j: int| 0 <= j < steps.len() && #[trigger] steps[j] is Discard implies exists|
        i: int,
    |
        0 <= i < j && #[trigger] steps[i] is Write by {
        assert(steps[1] is Write);
    }
}

/// The script is written in the second step or not at all, and removed only after that.
proof fn lemma_script_steps(
    home: Option<PathBuf>,
    job: ScriptJob,
    outcomes: Seq<Result<(), Seq<char>>>,
)
    ensures
        ({
            let steps = script_steps(home, job, outcomes);
            let last = steps.last();
            let written = steps.len() > 1 && steps[1] is Write;
            &&& steps.len() == outcomes.len() + 1
            &&& forall|i: int| 0 <= i < steps.len() && #[trigger] steps[i] is Write ==> i == 1
            &&& forall|j: int|
                0 <= j < steps.len() && #[trigger] steps[j] is Discard ==> j >= 2 && written && (
                last is Discard || last is Failed)
            &&& written && (last is Discard || last is Failed) ==> !script_on_disk(steps) && (
            (steps.len() > 2 && steps[2] is Discard) || (steps.len() > 3 && steps[3] is Discard))
            &&& written && !(last is Discard || last is Failed) ==> script_on_disk(steps)
            &&& !written ==> !script_on_disk(steps)
            &&& match last {
                AskpassStepView::CreateDir(_) => steps.len() == 1,
                AskpassStepView::Write { .. } => steps.len() == 2,
                AskpassStepView::Restrict { .. } => steps.len() == 3 && written,
                AskpassStepView::Ready => written,
                AskpassStepView::Discard(_) => steps.len() <= 4 && written,
                AskpassStepView::Failed(_) => true,
            }
        }),
    decreases outcomes.len(),
{
    reveal_with_fuel(script_on_disk, 2);
    if outcomes.len() > 0 {
        let before = script_steps(home, job, outcomes.drop_last());
        let steps = script_steps(home, job, outcomes);
        lemma_script_steps(home, job, outcomes.drop_last());
        assert(steps.drop_last() == before);
        assert forall|i: int| 0 <= i < before.len() implies #[trigger] steps[i] == before[i] by {}
    }
}

/// On Unix the script is one `echo` command, and a shell reads the password in it as one word,
/// whatever characters the password holds.
pub proof fn law_unix_script_echoes_the_password(password: Seq<char>)
    ensures
        script_content(password, Platform::Unix) == Ok::<Seq<char>, Seq<char>>(
            "#!/bin/sh\n"@ + ("echo "@ + quoted(password)) + "\n"@,
        ),
        shell_words("echo "@ + quoted(password)) == Some(seq!["echo"@, password]),
{
    reveal_strlit("#!/bin/sh\necho ");
    reveal_strlit("#!/bin/sh\n");
    reveal_strlit("echo ");
    reveal_strlit("echo");
    reveal_with_fuel(all_plain, 5);
    assert("#!/bin/sh\necho "@ == "#!/bin/sh\n"@ + "echo "@);
    assert("#!/bin/sh\necho "@ + quoted(password) == "#!/bin/sh\n"@ + ("echo "@ + quoted(
        password,
    )));
    assert("echo "@ == "echo"@ + seq![' ']);
    let start = nothing_read();
    lemma_read_plain(start, "echo"@);
    lemma_read_concat(start, "echo"@, seq![' ']);
    lemma_read_blank(read_text(start, "echo"@));
    let head = read_text(start, "echo "@);
    lemma_read_concat(start, "echo "@, quoted(password));
    lemma_read_quoted(head, password);
    assert(head.words.push(password) == seq!["echo"@, password]);
}

/// Scripts of different processes, or with different random numbers, have different names.
pub proof fn law_script_names_differ(
    pid: u32,
    nonce: u32,
    other_pid: u32,
    other_nonce: u32,
    platform: Platform,
)
    requires
        pid != other_pid || nonce != other_nonce,
    ensures
        script_name(pid, nonce, platform) != script_name(other_pid, other_nonce, platform),
{
    if script_name(pid, nonce, platform) == script_name(other_pid, other_nonce, platform) {
        let end = match platform {
            Platform::Unix => Seq::empty(),
            Platform::Windows => ".bat"@,
        };
        let (head, tail) = (decimal(pid as nat), hex(nonce as nat, 8));
        let (other_head, other_tail) = (decimal(other_pid as nat), hex(other_nonce as nat, 8));
        let name = "askpass_"@ + head + "_"@ + tail + end;
        let other_name = "askpass_"@ + other_head + "_"@ + other_tail + end;
        assert(name == other_name);
        lemma_hex_length(nonce as nat, 8);
        lemma_hex_length(other_nonce as nat, 8);
        let split = "askpass_"@.len() as int;
        let size = head.len() as int;
        assert(size == other_head.len());
        assert(head == name.subrange(split, split + size));
        assert(other_head == other_name.subrange(split, split + size));
        law_decimal_stands_for_the_number(pid as nat);
        law_decimal_stands_for_the_number(other_pid as nat);
        let from = split + size + "_"@.len();
        assert(tail == name.subrange(from, from + 8));
        assert(other_tail == other_name.subrange(from, from + 8));
        reveal_with_fuel(hex_bound, 9);
        lemma_hex_tells_apart(nonce as nat, other_nonce as nat, 8);
    }
}

/// Where the command interpreter of Windows stands inside a text.
pub enum BatchReading {
    /// At a character that stands for itself, after this text.
    Text(Seq<char>),
    /// Behind a caret.
    Caret(Seq<char>),
    /// Behind a percent sign.
    Percent(Seq<char>),
    /// At a character that means something else.
    Other,
}

/// The reading after one more character.
pub open spec fn read_batch_char(r: BatchReading, c: char) -> BatchReading {
    match r {
        BatchReading::Text(text) => if c == '^' {
            BatchReading::Caret(text)
        } else if c == '%' {
            BatchReading::Percent(text)
        } else if c == '&' || c == '|' || c == '<' || c == '>' || c == '"' || c == '\n' || c == '\r' {
            BatchReading::Other
        } else {
            BatchReading::Text(text.push(c))
        },
        BatchReading::Caret(text) => if c == '\n' || c == '\r' || c == '%' {
            BatchReading::Other
        } else {
            BatchReading::Text(text.push(c))
        },
        BatchReading::Percent(text) => if c == '%' {
            BatchReading::Text(text.push('%'))
        } else {
            BatchReading::Other
        },
        BatchReading::Other => BatchReading::Other,
    }
}

/// The reading of a text.
pub open spec fn read_batch(s: Seq<char>) -> BatchReading
    decreases s.len(),
{
    if s.len() == 0 {
        BatchReading::Text(Seq::empty())
    } else {
        read_batch_char(read_batch(s.drop_last()), s.last())
    }
}

/// On Windows the escaped password is read as the password itself, wherever one is let into a
/// script.
pub proof fn law_batch_escape_keeps_the_password(password: Seq<char>)
    requires
        batch_safe(password),
    ensures
        read_batch(batch_escaped(password)) == BatchReading::Text(password),
    decreases password.len(),
{
    if password.len() == 0 {
        assert(password == Seq::<char>::empty());
    } else {
        reveal_with_fuel(read_batch, 3);
        let front = password.drop_last();
        let c = password.last();
        assert(batch_safe(front)) by {
            assert forall|x: char| front.contains(x) implies password.contains(x) by {
                let i = choose|i: int| 0 <= i < front.len() && front[i] == x;
                assert(password[i] == x);
            }
        }
        assert(password.contains(c));
        law_batch_escape_keeps_the_password(front);
        assert(front.push(c) == password);
        let whole = batch_escaped(password);
        if batch_escaped_char(c).len() == 2 {
            assert(whole.drop_last().drop_last() == batch_escaped(front));
            assert(whole.drop_last().last() == batch_escaped_char(c)[0]);
        } else {
            assert(whole.drop_last() == batch_escaped(front));
        }
    }
}

/// Whether a text is a script that prints a password: on Unix a shell reads its one command as
/// `echo` and the password; on Windows the command interpreter reads the password behind `echo`.
pub open spec fn prints(content: Seq<char>, password: Seq<char>, platform: Platform) -> bool {
    let head = match platform {
        Platform::Unix => "#!/bin/sh\n"@,
        Platform::Windows => "@echo off\necho "@,
    };
    let size = head.len() as int;
    let body = content.subrange(size, content.len() - 1);
    &&& content.len() > size
    &&& content.take(size) == head
    &&& content.last() == '\n'
    &&& match platform {
        Platform::Unix => shell_words(body) == Some(seq!["echo"@, password]),
        Platform::Windows => read_batch(body) == BatchReading::Text(password),
    }
}

/// A script prints its password. There is one for every password on Unix, and on Windows for every
/// password without a line feed, a carriage return and a double quote.
pub proof fn law_scripts_print_the_password(password: Seq<char>, platform: Platform)
    ensures
        match script_content(password, platform) {
            Ok(content) => {
                &&& prints(content, password, platform)
                &&& platform is Unix || (forall|i: int|
                    0 <= i < password.len() ==> #[trigger] password[i] != '\n' && password[i] != '\r'
                        && password[i] != '"')
            },
            Err(reason) => {
                &&& platform is Windows
                &&& password.contains('\n') || password.contains('\r') || password.contains('"')
                &&& reason
                    == "Password contains characters (newline or double quote) that cannot be safely embedded in a Windows askpass script."@
            },
        },
{
    reveal_strlit("\n");
    match platform {
        Platform::Unix => {
            law_unix_script_echoes_the_password(password);
            let head = "#!/bin/sh\n"@;
            let body = "echo "@ + quoted(password);
            let content = script_content(password, platform)->Ok_0;
            assert(content =~= head + body + "\n"@);
            assert(content.take(head.len() as int) =~= head);
            assert(content.subrange(head.len() as int, content.len() - 1) =~= body);
        },
        Platform::Windows => {
            if batch_safe(password) {
                law_batch_escape_keeps_the_password(password);
                let head = "@echo off\necho "@;
                let body = batch_escaped(password);
                let content = script_content(password, platform)->Ok_0;
                assert(content.take(head.len() as int) =~= head);
                assert(content.subrange(head.len() as int, content.len() - 1) =~= body);
                assert forall|i: int| 0 <= i < password.len() implies #[trigger] password[i] != '\n'
                    && password[i] != '\r' && password[i] != '"' by {
                    assert(password.contains(password[i]));
                }
            }
        },
    }
}

/// What a script is called: by the process in digits and by the random number in eight hexadecimal
/// digits, and on Windows as a batch file.
pub proof fn law_scripts_are_named_by_process_and_number(
    pid: u32,
    nonce: u32,
    platform: Platform,
)
    ensures
        script_name(pid, nonce, platform) == "askpass_"@ + decimal(pid as nat) + "_"@ + hex(
            nonce as nat,
            8,
        ) + (match platform {
            Platform::Unix => Seq::empty(),
            Platform::Windows => ".bat"@,
        }),
{
}

/// Whether a step is the right one behind another one that succeeded: the script is written into the
/// directory, and on Unix it is then given to its owner alone.
pub open spec fn is_next_step(
    job: ScriptJob,
    before: AskpassStepView,
    next: AskpassStepView,
) -> bool {
    match before {
        AskpassStepView::CreateDir(_) => match next {
            AskpassStepView::Write { name, content } => {
                &&& name == script_name(job.pid, job.nonce, job.platform)
                &&& prints(content, job.password, job.platform)
            },
            AskpassStepView::Failed(_) => job.platform is Windows && script_content(
                job.password,
                job.platform,
            ) == Err::<Seq<char>, Seq<char>>(next->Failed_0),
            _ => false,
        },
        AskpassStepView::Write { .. } => match job.platform {
            Platform::Unix => next matches AskpassStepView::Restrict { mode } && mode == 7 * 64,
            Platform::Windows => next is Ready,
        },
        AskpassStepView::Restrict { .. } => next is Ready,
        AskpassStepView::Discard(reason) => next == AskpassStepView::Failed(reason),
        _ => next == before,
    }
}

/// Whether a step is the right one behind another one that failed for a reason: a failure, or the
/// removal of what was written.
pub open spec fn is_way_out(
    before: AskpassStepView,
    reason: Seq<char>,
    next: AskpassStepView,
) -> bool {
    match before {
        AskpassStepView::CreateDir(_) => next == AskpassStepView::Failed(
            "Failed to create tmp dir: "@ + reason,
        ),
        AskpassStepView::Write { .. } => next == AskpassStepView::Discard(
            "Failed to create askpass script: "@ + reason,
        ),
        AskpassStepView::Restrict { .. } => next == AskpassStepView::Discard(
            "Failed to set script permissions: "@ + reason,
        ),
        AskpassStepView::Discard(why) => next == AskpassStepView::Failed(why),
        _ => next == before,
    }
}

/// A script is made in the directory for temporary files below the home directory, holds what
/// prints the password, and is on Unix readable, writable and executable by its owner and by nobody
/// else. Each step that fails leads to its own reason, and without a home directory there is none.
pub proof fn law_scripts_are_made_for_their_owner(
    home: Option<PathBuf>,
    job: ScriptJob,
    outcomes: Seq<Result<(), Seq<char>>>,
)
    ensures
        ({
            let steps = script_steps(home, job, outcomes);
            &&& steps.len() == outcomes.len() + 1
            &&& match home {
                Some(home) => steps[0] matches AskpassStepView::CreateDir(tmp) && tmp.home == home
                    && tmp.parts == seq![".cokacdir"@, "tmp"@],
                None => steps[0] == AskpassStepView::Failed("Failed to get home directory"@),
            }
            &&& forall|i: int|
                0 <= i < outcomes.len() ==> match #[trigger] outcomes[i] {
                    Ok(_) => is_next_step(job, steps[i], steps[i + 1]),
                    Err(reason) => is_way_out(steps[i], reason, steps[i + 1]),
                }
        }),
    decreases outcomes.len(),
{
    law_scripts_print_the_password(job.password, job.platform);
    if outcomes.len() > 0 {
        let front = outcomes.drop_last();
        let before = script_steps(home, job, front);
        let steps = script_steps(home, job, outcomes);
        law_scripts_are_made_for_their_owner(home, job, front);
        assert(steps[0] == before[0]);
        assert forall|i: int| 0 <= i < outcomes.len() implies match #[trigger] outcomes[i] {
            Ok(_) => is_next_step(job, steps[i], steps[i + 1]),
            Err(reason) => is_way_out(steps[i], reason, steps[i + 1]),
        } by {
            assert(steps[i] == before[i]);
            if i < front.len() {
                assert(outcomes[i] == front[i]);
                assert(steps[i + 1] == before[i + 1]);
            } else {
                assert(outcomes[i] == outcomes.last());
                assert(before[i] == before.last());
            }
        }
    }
}

} // verus!
