//! The commands that a transfer runs: rsync on this machine, and `mv`, `cp` and `rm` on a server.

use crate::profile::{build_remote_spec, remote_spec, AuthView, ProfileView, RemoteAuth,
    RemoteProfile,
};
use crate::shell::{
    lemma_read_blank, lemma_read_concat, lemma_read_plain, lemma_read_quoted, nothing_read,
    push_quoted, quoted, read_text, shell_words, all_plain, Lexing, Reading,
};
use crate::text::{drop_trailing, trim_end_matches};
use vstd::prelude::*;

verus! {

/// Transfer direction.
#[derive(Debug, Clone, Copy, PartialEq, Eq, Structural)]
pub enum TransferDirection {
    LocalToRemote,
    RemoteToLocal,
}

/// Transfer configuration: the files below `source_base`, by their paths relative to it, and the
/// directory that they go to.
#[derive(Debug, PartialEq, Eq)]
pub struct TransferConfig {
    pub direction: TransferDirection,
    pub profile: RemoteProfile,
    pub source_files: Vec<String>,
    pub source_base: String,
    pub target_path: String,
}

/// A configuration, by the text that it holds.
#[verifier::ext_equal]
pub struct ConfigView {
    pub direction: TransferDirection,
    pub profile: ProfileView,
    pub files: Seq<Seq<char>>,
    pub base: Seq<char>,
    pub target: Seq<char>,
}

impl View for TransferConfig {
    type V = ConfigView;

    open spec fn view(&self) -> ConfigView {
        ConfigView {
            direction: self.direction,
            profile: self.profile@,
            files: self.source_files.deep_view(),
            base: self.source_base@,
            target: self.target_path@,
        }
    }
}

/// A copy of a list of texts.
pub(crate) fn copy_texts(texts: &Vec<String>) -> (copy: Vec<String>)
    ensures
        copy.deep_view() == texts.deep_view(),
{
    let mut copy: Vec<String> = Vec::new();
    let mut i: usize = 0;
    while i < texts.len()
        invariant
            i <= texts.len(),
            copy.len() == i,
            forall|k: int| 0 <= k < i ==> copy@[k] == texts@[k],
        decreases texts.len() - i,
    {
        copy.push(texts[i].clone());
        i += 1;
    }
    assert(copy@ =~= texts@);
    copy
}

impl Clone for TransferConfig {
    fn clone(&self) -> (copy: TransferConfig)
        ensures
            copy@ == self@,
    {
        TransferConfig {
            direction: self.direction,
            profile: self.profile.clone(),
            source_files: copy_texts(&self.source_files),
            source_base: self.source_base.clone(),
            target_path: self.target_path.clone(),
        }
    }
}

/// How rsync's `ssh` gets the password, if it needs one.
#[derive(Debug, Clone, Copy, PartialEq, Eq, Structural)]
pub enum Login {
    /// No password is needed.
    Key,
    /// The command runs under `sshpass`.
    Sshpass,
    /// `ssh` asks a script for it.
    Askpass,
}

/// The value of an environment variable.
#[derive(Debug, PartialEq, Eq)]
pub enum EnvValue {
    Text(String),
    /// The path of the script that prints the password.
    AskpassScript,
}

/// A program to start, with its output and its errors piped back.
#[derive(Debug, PartialEq, Eq)]
pub struct CommandSpec {
    pub program: String,
    pub args: Vec<String>,
    pub env: Vec<(String, EnvValue)>,
    /// Whether the program's input is empty instead of inherited.
    pub null_stdin: bool,
}

/// The value of an environment variable, by the text that it holds.
#[verifier::ext_equal]
pub enum EnvValueView {
    Text(Seq<char>),
    AskpassScript,
}

impl DeepView for EnvValue {
    type V = EnvValueView;

    open spec fn deep_view(&self) -> EnvValueView {
        match self {
            EnvValue::Text(text) => EnvValueView::Text(text@),
            EnvValue::AskpassScript => EnvValueView::AskpassScript,
        }
    }
}

/// A command, by the text that it holds.
#[verifier::ext_equal]
pub struct CommandView {
    pub program: Seq<char>,
    pub args: Seq<Seq<char>>,
    pub env: Seq<(Seq<char>, EnvValueView)>,
    pub null_stdin: bool,
}

impl View for CommandSpec {
    type V = CommandView;

    open spec fn view(&self) -> CommandView {
        CommandView {
            program: self.program@,
            args: self.args.deep_view(),
            env: self.env.deep_view(),
            null_stdin: self.null_stdin,
        }
    }
}

/// The path of a file below a base directory. Slashes at the end of the base do not count.
pub open spec fn path_below(base: Seq<char>, file: Seq<char>) -> Seq<char> {
    drop_trailing(base, '/') + "/"@ + file
}

/// Joins a base directory and the path of a file below it.
pub fn join_path(base: &str, file: &str) -> (path: String)
    ensures
        path@ == path_below(base@, file@),
{
    let mut path = trim_end_matches(base, '/');
    path.append("/");
    path.append(file);
    path
}

/// Where rsync takes a file from.
pub open spec fn rsync_source(config: ConfigView, file: Seq<char>) -> Seq<char> {
    match config.direction {
        TransferDirection::LocalToRemote => path_below(config.base, file),
        TransferDirection::RemoteToLocal => remote_spec(
            config.profile,
            path_below(config.base, file),
        ),
    }
}

/// Where rsync puts the files.
pub open spec fn rsync_target(config: ConfigView) -> Seq<char> {
    match config.direction {
        TransferDirection::LocalToRemote => remote_spec(config.profile, config.target),
        TransferDirection::RemoteToLocal => config.target,
    }
}

/// rsync's arguments for one file.
pub open spec fn rsync_args(config: ConfigView, ssh_option: Seq<char>, file: Seq<char>) -> Seq<
    Seq<char>,
> {
    seq![
        "-a"@,
        "--progress"@,
        "-e"@,
        ssh_option,
        rsync_source(config, file),
        rsync_target(config),
    ]
}

/// The password of an account, if it is used.
pub open spec fn password_of(auth: AuthView) -> Option<Seq<char>> {
    match auth {
        AuthView::Password { password } => Some(password),
        AuthView::KeyFile { .. } => None,
    }
}

/// The command that transfers one file.
pub open spec fn rsync_command(
    config: ConfigView,
    ssh_option: Seq<char>,
    login: Login,
    file: Seq<char>,
) -> CommandView {
    let args = rsync_args(config, ssh_option, file);
    match (login, password_of(config.profile.auth)) {
        (Login::Sshpass, Some(password)) => CommandView {
            program: "sshpass"@,
            args: seq!["-p"@, password, "rsync"@] + args,
            env: Seq::empty(),
            null_stdin: false,
        },
        (Login::Askpass, _) => CommandView {
            program: "rsync"@,
            args,
            env: seq![
                ("SSH_ASKPASS"@, EnvValueView::AskpassScript),
                ("SSH_ASKPASS_REQUIRE"@, EnvValueView::Text("force"@)),
                ("DISPLAY"@, EnvValueView::Text(":0"@)),
            ],
            null_stdin: true,
        },
        _ => CommandView { program: "rsync"@, args, env: Seq::empty(), null_stdin: false },
    }
}

/// Builds the command that transfers one file.
pub fn build_rsync_command(config: &TransferConfig, ssh_option: &str, login: Login, file: &str) -> (
    command: CommandSpec)
    ensures
        command@ == rsync_command(config@, ssh_option@, login, file@),
{
    let full = join_path(config.source_base.as_str(), file);
    let (source, target) = match config.direction {
        TransferDirection::LocalToRemote => (
            full,
            build_remote_spec(&config.profile, config.target_path.as_str()),
        ),
        TransferDirection::RemoteToLocal => (
            build_remote_spec(&config.profile, full.as_str()),
            config.target_path.clone(),
        ),
    };
    let mut args: Vec<String> = Vec::new();
    let mut env: Vec<(String, EnvValue)> = Vec::new();
    let mut program = "rsync".to_string();
    let mut null_stdin = false;
    match (login, &config.profile.auth) {
        (Login::Sshpass, RemoteAuth::Password { password }) => {
            program = "sshpass".to_string();
            args.push("-p".to_string());
            args.push(password.clone());
            args.push("rsync".to_string());
        },
        (Login::Askpass, _) => {
            env.push(("SSH_ASKPASS".to_string(), EnvValue::AskpassScript));
            env.push(("SSH_ASKPASS_REQUIRE".to_string(), EnvValue::Text("force".to_string())));
            env.push(("DISPLAY".to_string(), EnvValue::Text(":0".to_string())));
            null_stdin = true;
        },
        _ => {},
    }
    args.push("-a".to_string());
    args.push("--progress".to_string());
    args.push("-e".to_string());
    args.push(ssh_option.to_string());
    args.push(source);
    args.push(target);
    let command = CommandSpec { program, args, env, null_stdin };
    assert(command@ =~~= rsync_command(config@, ssh_option@, login, file@));
    command
}

/// The command that moves or copies one file on a server.
pub open spec fn same_server_command(is_cut: bool, source: Seq<char>, target: Seq<char>) -> Seq<
    char,
> {
    let verb = if is_cut {
        "mv "@
    } else {
        "cp -a "@
    };
    verb + quoted(source) + " "@ + quoted(target)
}

/// Builds the command that moves or copies one file on a server.
pub fn build_same_server_command(is_cut: bool, source: &str, target: &str) -> (command: String)
    ensures
        command@ == same_server_command(is_cut, source@, target@),
{
    let mut command = if is_cut {
        "mv ".to_string()
    } else {
        "cp -a ".to_string()
    };
    push_quoted(&mut command, source);
    command.append(" ");
    push_quoted(&mut command, target);
    command
}

/// Paths in quotes, with a blank between two of them.
pub open spec fn quoted_list(paths: Seq<Seq<char>>) -> Seq<char>
    decreases paths.len(),
{
    if paths.len() == 0 {
        Seq::empty()
    } else if paths.len() == 1 {
        quoted(paths[0])
    } else {
        quoted_list(paths.drop_last()) + " "@ + quoted(paths.last())
    }
}

/// The paths of some files below a base directory.
pub open spec fn paths_below(base: Seq<char>, files: Seq<Seq<char>>) -> Seq<Seq<char>> {
    Seq::new(files.len(), |i: int| path_below(base, files[i]))
}

/// The command that deletes some files on a server.
pub open spec fn remove_command(base: Seq<char>, files: Seq<Seq<char>>) -> Seq<char> {
    "rm -rf "@ + quoted_list(paths_below(base, files))
}

/// Builds the command that deletes some files on a server.
pub fn build_remove_command(base: &str, files: &Vec<String>) -> (command: String)
    ensures
        command@ == remove_command(base@, files.deep_view()),
{
    let ghost paths = paths_below(base@, files.deep_view());
    let mut command = "rm -rf ".to_string();
    let mut i: usize = 0;
    assert("rm -rf "@ + Seq::<char>::empty() == "rm -rf "@);
    while i < files.len()
        invariant
            i <= files.len(),
            paths == paths_below(base@, files.deep_view()),
            command@ == "rm -rf "@ + quoted_list(paths.take(i as int)),
        decreases files.len() - i,
    {
        let ghost listed = quoted_list(paths.take(i as int));
        if i > 0 {
            command.append(" ");
        }
        let path = join_path(base, files[i].as_str());
        push_quoted(&mut command, path.as_str());
        proof {
            let next = paths.take(i + 1);
            assert(next.drop_last() == paths.take(i as int));
            assert(next.last() == path@);
            assert("rm -rf "@ + Seq::<char>::empty() + quoted(path@) == "rm -rf "@ + quoted(path@));
            assert("rm -rf "@ + listed + " "@ + quoted(path@) == "rm -rf "@ + (listed + " "@
                + quoted(path@)));
        }
        i += 1;
    }
    assert(paths.take(files.len() as int) == paths);
    command
}

/// A plain word and the blank behind it are read as that word.
proof fn lemma_read_word(r: Reading, word: Seq<char>)
    requires
        r.at is Between,
        all_plain(word),
        word.len() > 0,
    ensures
        read_text(r, word + " "@) == (Reading {
            at: Lexing::Between,
            words: r.words.push(word),
            word: Seq::empty(),
        }),
{
    reveal_strlit(" ");
    assert(" "@ == seq![' ']);
    lemma_read_plain(r, word);
    lemma_read_concat(r, word, " "@);
    lemma_read_blank(read_text(r, word));
}

/// Quoted paths are read as the paths themselves.
proof fn lemma_read_quoted_list(r: Reading, paths: Seq<Seq<char>>)
    requires
        r.at is Between,
        paths.len() > 0,
    ensures
        read_text(r, quoted_list(paths)) == (Reading {
            at: Lexing::Word,
            words: r.words + paths.drop_last(),
            word: paths.last(),
        }),
    decreases paths.len(),
{
    if paths.len() == 1 {
        lemma_read_quoted(r, paths[0]);
        assert(r.words + paths.drop_last() == r.words);
    } else {
        let front = paths.drop_last();
        reveal_strlit(" ");
        assert(" "@ == seq![' ']);
        lemma_read_quoted_list(r, front);
        let listed = read_text(r, quoted_list(front));
        lemma_read_concat(r, quoted_list(front), " "@);
        lemma_read_blank(listed);
        let apart = read_text(listed, " "@);
        lemma_read_concat(r, quoted_list(front) + " "@, quoted(paths.last()));
        lemma_read_quoted(apart, paths.last());
        assert((r.words + front.drop_last()).push(front.last()) == r.words + front);
    }
}

/// The deletion on a server names exactly the files below the base, each as one word, whatever
/// characters their paths hold.
pub proof fn law_remove_command_names_the_files(base: Seq<char>, files: Seq<Seq<char>>)
    ensures
        shell_words(remove_command(base, files)) == Some(
            seq!["rm"@, "-rf"@] + paths_below(base, files),
        ),
{
    let paths = paths_below(base, files);
    reveal_strlit("rm");
    reveal_strlit("-rf");
    reveal_strlit(" ");
    reveal_strlit("rm -rf ");
    reveal_with_fuel(all_plain, 4);
    assert("rm -rf "@ == ("rm"@ + " "@) + ("-rf"@ + " "@));
    let start = nothing_read();
    lemma_read_word(start, "rm"@);
    let verb = read_text(start, "rm"@ + " "@);
    lemma_read_word(verb, "-rf"@);
    lemma_read_concat(start, "rm"@ + " "@, "-rf"@ + " "@);
    let head = read_text(start, "rm -rf "@);
    assert(head.words == seq!["rm"@, "-rf"@]);
    lemma_read_concat(start, "rm -rf "@, quoted_list(paths));
    if paths.len() > 0 {
        lemma_read_quoted_list(head, paths);
        assert((head.words + paths.drop_last()).push(paths.last()) == head.words + paths);
    } else {
        assert(head.words + paths == head.words);
    }
}

/// The command for a file that stays on its server moves or copies exactly that file to exactly
/// that target, whatever characters the two paths hold.
pub proof fn law_same_server_command_names_the_paths(
    is_cut: bool,
    source: Seq<char>,
    target: Seq<char>,
)
    ensures
        shell_words(same_server_command(is_cut, source, target)) == Some(
            if is_cut {
                seq!["mv"@, source, target]
            } else {
                seq!["cp"@, "-a"@, source, target]
            },
        ),
{
    reveal_strlit("mv");
    reveal_strlit("cp");
    reveal_strlit("-a");
    reveal_strlit(" ");
    reveal_strlit("mv ");
    reveal_strlit("cp -a ");
    reveal_with_fuel(all_plain, 3);
    assert("mv "@ == "mv"@ + " "@);
    assert("cp -a "@ == ("cp"@ + " "@) + ("-a"@ + " "@));
    assert(" "@ == seq![' ']);
    let start = nothing_read();
    let verb = if is_cut {
        "mv "@
    } else {
        "cp -a "@
    };
    lemma_read_word(start, "mv"@);
    lemma_read_word(start, "cp"@);
    lemma_read_word(read_text(start, "cp"@ + " "@), "-a"@);
    lemma_read_concat(start, "cp"@ + " "@, "-a"@ + " "@);
    let head = read_text(start, verb);
    lemma_read_concat(start, verb, quoted(source));
    lemma_read_quoted(head, source);
    let from = read_text(head, quoted(source));
    lemma_read_concat(start, verb + quoted(source), " "@);
    lemma_read_blank(from);
    let apart = read_text(from, " "@);
    lemma_read_concat(start, verb + quoted(source) + " "@, quoted(target));
    lemma_read_quoted(apart, target);
    assert(apart.words.push(target) == (if is_cut {
        seq!["mv"@, source, target]
    } else {
        seq!["cp"@, "-a"@, source, target]
    }));
}

} // verus!
