//! Which account a command logs in to, and which paths it names, by the words that it is made of.

use crate::command::{
    law_remove_command_names_the_files, path_below, paths_below, remove_command, rsync_command,
    CommandView, ConfigView, EnvValueView, Login, TransferDirection,
};
use crate::grammar::{law_decimals_are_read_back, law_trailing_characters_are_dropped, run_of};
use crate::profile::{
    host_key_options, law_remote_spec_names_the_path, remote_spec, ssh_option, AuthView, Platform,
    ProfileView,
};
use crate::shell::{
    all_plain, is_plain, lemma_read_concat, lemma_read_one, lemma_read_plain, lemma_read_quoted,
    nothing_read, quoted, read_text, shell_words, Lexing, Reading,
};
use crate::text::{decimal, drop_trailing};
use vstd::prelude::*;

verus! {

/// Whether a path is that of a file below a base directory: the base without the slashes at its
/// end, one slash, and the file.
pub open spec fn is_below(path: Seq<char>, base: Seq<char>, file: Seq<char>) -> bool {
    let size = path.len() - file.len() - 1;
    &&& 0 <= size <= base.len()
    &&& path == base.take(size) + seq!['/'] + file
    &&& size > 0 ==> base[size - 1] != '/'
    &&& forall|i: int| size <= i < base.len() ==> #[trigger] base[i] == '/'
}

/// Whether an argument of rsync names a path on the server of an account: the user, the host, and
/// then a text that the shell there reads as the path.
pub open spec fn is_remote(arg: Seq<char>, account: ProfileView, path: Seq<char>) -> bool {
    let server = account.user + seq!['@'] + account.host + seq![':'];
    &&& arg.len() >= server.len()
    &&& arg.take(server.len() as int) == server
    &&& shell_words(arg.skip(server.len() as int)) == Some(seq![path])
}

/// The words of the `ssh` command that reaches an account: its port where that is not the usual
/// one, the path of its key where it has one, and no questions on host keys.
pub open spec fn ssh_words(account: ProfileView, key: Seq<char>, platform: Platform) -> Seq<
    Seq<char>,
> {
    let port = if account.port == 22 {
        Seq::empty()
    } else {
        seq!["-p"@, decimal(account.port as nat)]
    };
    let key_file = match account.auth {
        AuthView::KeyFile { .. } => seq!["-i"@, key],
        AuthView::Password { .. } => Seq::empty(),
    };
    let known_hosts = match platform {
        Platform::Unix => "UserKnownHostsFile=/dev/null"@,
        Platform::Windows => "UserKnownHostsFile=NUL"@,
    };
    seq!["ssh"@] + port + key_file + seq![
        "-o"@,
        "StrictHostKeyChecking=no"@,
        "-o"@,
        known_hosts,
        "-o"@,
        "LogLevel=ERROR"@,
    ]
}

proof fn lemma_plain(s: Seq<char>)
    requires
        forall|i: int| 0 <= i < s.len() ==> is_plain(#[trigger] s[i]),
    ensures
        all_plain(s),
    decreases s.len(),
{
    if s.len() > 0 {
        let front = s.drop_last();
        assert forall|i: int| 0 <= i < front.len() implies is_plain(#[trigger] front[i]) by {
            assert(front[i] == s[i]);
        }
        assert(s[s.len() - 1] == s.last());
        lemma_plain(front);
    }
}

/// The reading of one more plain word.
proof fn lemma_next_word(r: Reading, word: Seq<char>)
    requires
        r.at is Word,
        word.len() > 0,
        forall|i: int| 0 <= i < word.len() ==> is_plain(#[trigger] word[i]),
    ensures
        read_text(r, seq![' '] + word) == (Reading {
            at: Lexing::Word,
            words: r.words.push(r.word),
            word,
        }),
{
    lemma_plain(word);
    lemma_read_concat(r, seq![' '], word);
    lemma_read_one(r, ' ');
    lemma_read_plain(read_text(r, seq![' ']), word);
}

/// The reading of one more quoted word.
proof fn lemma_next_quoted(r: Reading, word: Seq<char>)
    requires
        r.at is Word,
    ensures
        read_text(r, seq![' '] + quoted(word)) == (Reading {
            at: Lexing::Word,
            words: r.words.push(r.word),
            word,
        }),
{
    lemma_read_concat(r, seq![' '], quoted(word));
    lemma_read_one(r, ' ');
    lemma_read_quoted(read_text(r, seq![' ']), word);
}

/// The reading of an option: a flag and its value.
proof fn lemma_next_option(r: Reading, flag: Seq<char>, value: Seq<char>)
    requires
        r.at is Word,
        flag.len() > 0,
        value.len() > 0,
        forall|i: int| 0 <= i < flag.len() ==> is_plain(#[trigger] flag[i]),
        forall|i: int| 0 <= i < value.len() ==> is_plain(#[trigger] value[i]),
    ensures
        read_text(r, seq![' '] + flag + (seq![' '] + value)) == (Reading {
            at: Lexing::Word,
            words: r.words.push(r.word).push(flag),
            word: value,
        }),
{
    lemma_next_word(r, flag);
    lemma_read_concat(r, seq![' '] + flag, seq![' '] + value);
    lemma_next_word(read_text(r, seq![' '] + flag), value);
}

proof fn lemma_host_key_options(r: Reading, platform: Platform)
    requires
        r.at is Word,
    ensures
        ({
            let after = read_text(r, host_key_options(platform));
            let known_hosts = match platform {
                Platform::Unix => "UserKnownHostsFile=/dev/null"@,
                Platform::Windows => "UserKnownHostsFile=NUL"@,
            };
            &&& after.at is Word
            &&& after.words.push(after.word) == r.words.push(r.word) + seq![
                "-o"@,
                "StrictHostKeyChecking=no"@,
                "-o"@,
                known_hosts,
                "-o"@,
                "LogLevel=ERROR"@,
            ]
        }),
{
    reveal_strlit("-o");
    reveal_strlit("StrictHostKeyChecking=no");
    reveal_strlit("UserKnownHostsFile=/dev/null");
    reveal_strlit("UserKnownHostsFile=NUL");
    reveal_strlit("LogLevel=ERROR");
    reveal_strlit(" -o StrictHostKeyChecking=no -o UserKnownHostsFile=/dev/null -o LogLevel=ERROR");
    reveal_strlit(" -o StrictHostKeyChecking=no -o UserKnownHostsFile=NUL -o LogLevel=ERROR");
    let known_hosts = match platform {
        Platform::Unix => "UserKnownHostsFile=/dev/null"@,
        Platform::Windows => "UserKnownHostsFile=NUL"@,
    };
    let first = seq![' '] + "-o"@ + (seq![' '] + "StrictHostKeyChecking=no"@);
    let second = seq![' '] + "-o"@ + (seq![' '] + known_hosts);
    let third = seq![' '] + "-o"@ + (seq![' '] + "LogLevel=ERROR"@);
    assert(host_key_options(platform) =~= first + second + third);
    lemma_next_option(r, "-o"@, "StrictHostKeyChecking=no"@);
    let one = read_text(r, first);
    lemma_next_option(one, "-o"@, known_hosts);
    lemma_read_concat(r, first, second);
    let two = read_text(one, second);
    lemma_next_option(two, "-o"@, "LogLevel=ERROR"@);
    lemma_read_concat(r, first + second, third);
    let after = read_text(r, host_key_options(platform));
    assert(after.words.push(after.word) =~= r.words.push(r.word) + seq![
        "-o"@,
        "StrictHostKeyChecking=no"@,
        "-o"@,
        known_hosts,
        "-o"@,
        "LogLevel=ERROR"@,
    ]);
}

/// A shell reads the `ssh` command for rsync as the words that reach the account: with the port of
/// the account, whatever its way to authenticate, and with its key file, whatever characters the
/// path holds. The port stands there in digits.
pub proof fn law_ssh_option_reaches_the_account(
    account: ProfileView,
    key: Seq<char>,
    platform: Platform,
)
    ensures
        shell_words(ssh_option(account, key, platform)) == Some(ssh_words(account, key, platform)),
{
    reveal_strlit("ssh");
    reveal_strlit("-p");
    reveal_strlit("-i");
    reveal_strlit(" -p ");
    reveal_strlit(" -i ");
    let start = nothing_read();
    lemma_plain("ssh"@);
    lemma_read_plain(start, "ssh"@);
    let first = read_text(start, "ssh"@);
    assert(first.words.push(first.word) =~= seq!["ssh"@]);
    let digits = decimal(account.port as nat);
    law_decimals_are_read_back(account.port as nat);
    let port = if account.port == 22 {
        Seq::empty()
    } else {
        seq![' '] + "-p"@ + (seq![' '] + digits)
    };
    let key_file = match account.auth {
        AuthView::KeyFile { .. } => seq![' '] + "-i"@ + (seq![' '] + quoted(key)),
        AuthView::Password { .. } => Seq::empty(),
    };
    assert(ssh_option(account, key, platform) =~= "ssh"@ + port + key_file + host_key_options(
        platform,
    ));
    lemma_read_concat(start, "ssh"@, port);
    let second = read_text(first, port);
    if account.port != 22 {
        assert forall|i: int| 0 <= i < digits.len() implies is_plain(#[trigger] digits[i]) by {
            assert(48 <= digits[i] as int <= 57);
        }
        lemma_next_option(first, "-p"@, digits);
        assert(second.words.push(second.word) =~= seq!["ssh"@] + seq!["-p"@, digits]);
    } else {
        assert("ssh"@ + port =~= "ssh"@);
        assert(second.words.push(second.word) =~= seq!["ssh"@] + Seq::empty());
    }
    lemma_read_concat(start, "ssh"@ + port, key_file);
    let third = read_text(second, key_file);
    match account.auth {
        AuthView::KeyFile { .. } => {
            lemma_next_word(second, "-i"@);
            lemma_read_concat(second, seq![' '] + "-i"@, seq![' '] + quoted(key));
            lemma_next_quoted(read_text(second, seq![' '] + "-i"@), key);
            assert(third.words.push(third.word) =~= second.words.push(second.word) + seq![
                "-i"@,
                key,
            ]);
        },
        AuthView::Password { .. } => {
            assert("ssh"@ + port + key_file =~= "ssh"@ + port);
            assert(third.words.push(third.word) =~= second.words.push(second.word) + Seq::empty());
        },
    }
    lemma_read_concat(start, "ssh"@ + port + key_file, host_key_options(platform));
    lemma_host_key_options(third, platform);
}

/// The path of a file below a base is the base without the slashes at its end, one slash, and the
/// file.
pub proof fn law_paths_are_below_their_base(base: Seq<char>, file: Seq<char>)
    ensures
        is_below(path_below(base, file), base, file),
{
    reveal_strlit("/");
    lemma_stem(base);
    let stem = drop_trailing(base, '/');
    assert(path_below(base, file) =~= base.take(stem.len() as int) + seq!['/'] + file);
}

/// There is no other path of a file below a base.
pub proof fn law_only_one_path_is_below(path: Seq<char>, base: Seq<char>, file: Seq<char>)
    requires
        is_below(path, base, file),
    ensures
        path == path_below(base, file),
{
    reveal_strlit("/");
    let size = path.len() - file.len() - 1;
    let stem = base.take(size);
    if size > 0 {
        assert(stem.last() == base[size - 1]);
    }
    let count = (base.len() - size) as nat;
    assert(base =~= stem + run_of('/', count));
    law_trailing_characters_are_dropped(stem, '/', count);
    assert(path =~= path_below(base, file));
}

proof fn lemma_stem(base: Seq<char>)
    ensures
        ({
            let size = drop_trailing(base, '/').len();
            &&& size <= base.len()
            &&& drop_trailing(base, '/') == base.take(size as int)
            &&& size > 0 ==> base[size - 1] != '/'
            &&& forall|i: int| size <= i < base.len() ==> #[trigger] base[i] == '/'
        }),
    decreases base.len(),
{
    if base.len() > 0 && base.last() == '/' {
        let front = base.drop_last();
        lemma_stem(front);
        let size = drop_trailing(base, '/').len() as int;
        assert(front.take(size) =~= base.take(size));
        assert forall|i: int| size <= i < base.len() implies #[trigger] base[i] == '/' by {
            if i < front.len() {
                assert(front[i] == base[i]);
            }
        }
        if size > 0 {
            assert(front[size - 1] == base[size - 1]);
        }
    } else {
        assert(base.take(base.len() as int) =~= base);
    }
}

proof fn lemma_remote(account: ProfileView, path: Seq<char>)
    ensures
        is_remote(remote_spec(account, path), account, path),
{
    reveal_strlit("@");
    reveal_strlit(":");
    law_remote_spec_names_the_path(account, path);
    let server = account.user + seq!['@'] + account.host + seq![':'];
    assert(server =~= account.user + "@"@ + account.host + ":"@);
}

/// Whether two arguments of rsync take a file from where a configuration has it to where it wants
/// it: up from a path of this machine to the account's server, or down from there.
pub open spec fn carries(
    from: Seq<char>,
    to: Seq<char>,
    config: ConfigView,
    file: Seq<char>,
) -> bool {
    match config.direction {
        TransferDirection::LocalToRemote => {
            &&& is_below(from, config.base, file)
            &&& is_remote(to, config.profile, config.target)
        },
        TransferDirection::RemoteToLocal => {
            &&& exists|path: Seq<char>|
                is_below(path, config.base, file) && #[trigger] is_remote(
                    from,
                    config.profile,
                    path,
                )
            &&& to == config.target
        },
    }
}

/// rsync is run with the archive and progress options, the given `ssh` command, and then the place
/// that the file comes from and the place that it goes to, whatever the way to log in: one of the
/// two is on the server of the account, the other one on this machine.
pub proof fn law_rsync_command_names_both_ends(
    config: ConfigView,
    ssh_command: Seq<char>,
    login: Login,
    file: Seq<char>,
)
    ensures
        ({
            let command = rsync_command(config, ssh_command, login, file);
            let rest = command.args.skip(command.args.len() - 6);
            &&& command.args.len() >= 6
            &&& rest.take(4) == seq!["-a"@, "--progress"@, "-e"@, ssh_command]
            &&& carries(rest[4], rest[5], config, file)
        }),
{
    let command = rsync_command(config, ssh_command, login, file);
    let rest = command.args.skip(command.args.len() - 6);
    let path = path_below(config.base, file);
    law_paths_are_below_their_base(config.base, file);
    lemma_remote(config.profile, path);
    lemma_remote(config.profile, config.target);
    assert(rest.take(4) =~= seq!["-a"@, "--progress"@, "-e"@, ssh_command]);
}

/// How a command hands a password on: as an argument of sshpass, by the script that `ssh` asks, or
/// not at all.
pub open spec fn hands_on(command: CommandView, login: Login, password: Seq<char>) -> bool {
    match login {
        Login::Sshpass => {
            &&& command.program == "sshpass"@
            &&& command.args.len() == 9
            &&& command.args.take(3) == seq!["-p"@, password, "rsync"@]
            &&& command.env.len() == 0
            &&& !command.null_stdin
        },
        Login::Askpass => {
            &&& command.program == "rsync"@
            &&& command.args.len() == 6
            &&& command.env == seq![
                ("SSH_ASKPASS"@, EnvValueView::AskpassScript),
                ("SSH_ASKPASS_REQUIRE"@, EnvValueView::Text("force"@)),
                ("DISPLAY"@, EnvValueView::Text(":0"@)),
            ]
            &&& command.null_stdin
        },
        Login::Key => {
            &&& command.program == "rsync"@
            &&& command.args.len() == 6
            &&& command.env.len() == 0
            &&& !command.null_stdin
        },
    }
}

/// A command that logs in with a password hands on the password of its account, in the way that was
/// chosen. One that logs in with a key hands on none.
pub proof fn law_rsync_command_hands_on_the_password(
    config: ConfigView,
    ssh_command: Seq<char>,
    login: Login,
    file: Seq<char>,
    password: Seq<char>,
)
    requires
        config.profile.auth == (AuthView::Password { password }) || login is Key,
    ensures
        hands_on(rsync_command(config, ssh_command, login, file), login, password),
{
    let command = rsync_command(config, ssh_command, login, file);
    if login is Sshpass {
        assert(command.args.take(3) =~= seq!["-p"@, password, "rsync"@]);
    }
}

/// Whether a shell reads a command as `rm -rf` and the path of each file below a base, in order, and
/// nothing else.
pub open spec fn removes_files(
    command: Seq<char>,
    base: Seq<char>,
    files: Seq<Seq<char>>,
) -> bool {
    let words = shell_words(command);
    &&& words is Some
    &&& words->0.len() == files.len() + 2
    &&& words->0[0] == "rm"@
    &&& words->0[1] == "-rf"@
    &&& forall|i: int|
        0 <= i < files.len() ==> is_below(#[trigger] words->0[i + 2], base, files[i])
}

/// The command that removes files takes each file below the base, and nothing else.
pub proof fn law_remove_command_takes_each_file(base: Seq<char>, files: Seq<Seq<char>>)
    ensures
        removes_files(remove_command(base, files), base, files),
{
    law_remove_command_names_the_files(base, files);
    let words = shell_words(remove_command(base, files))->0;
    assert forall|i: int| 0 <= i < files.len() implies is_below(
        #[trigger] words[i + 2],
        base,
        files[i],
    ) by {
        law_paths_are_below_their_base(base, files[i]);
        assert(words[i + 2] == paths_below(base, files)[i]);
    }
}

} // verus!
