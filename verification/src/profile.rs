//! Remote servers, and how `ssh` and `rsync` are told to reach them.

use crate::shell::{law_quoting_keeps_the_text, push_quoted, quoted, shell_words};
use crate::text::{decimal, push_decimal};
use vstd::prelude::*;

verus! {

/// The kind of system that a transfer is started from.
#[derive(Debug, Clone, Copy, PartialEq, Eq, Structural)]
pub enum Platform {
    Unix,
    Windows,
}

/// How a user proves who they are.
#[derive(Debug, PartialEq, Eq)]
pub enum RemoteAuth {
    Password { password: String },
    KeyFile { path: String, passphrase: Option<String> },
}

/// An account on a server.
#[derive(Debug, PartialEq, Eq)]
pub struct RemoteProfile {
    pub host: String,
    pub port: u16,
    pub user: String,
    pub auth: RemoteAuth,
}

/// A way to authenticate, by the text that it holds.
#[verifier::ext_equal]
pub enum AuthView {
    Password { password: Seq<char> },
    KeyFile { path: Seq<char>, passphrase: Option<Seq<char>> },
}

/// An account, by the text that it holds.
#[verifier::ext_equal]
pub struct ProfileView {
    pub host: Seq<char>,
    pub port: u16,
    pub user: Seq<char>,
    pub auth: AuthView,
}

impl View for RemoteAuth {
    type V = AuthView;

    open spec fn view(&self) -> AuthView {
        match self {
            RemoteAuth::Password { password } => AuthView::Password { password: password@ },
            RemoteAuth::KeyFile { path, passphrase } => AuthView::KeyFile {
                path: path@,
                passphrase: passphrase.deep_view(),
            },
        }
    }
}

impl View for RemoteProfile {
    type V = ProfileView;

    open spec fn view(&self) -> ProfileView {
        ProfileView { host: self.host@, port: self.port, user: self.user@, auth: self.auth@ }
    }
}

impl DeepView for RemoteProfile {
    type V = ProfileView;

    open spec fn deep_view(&self) -> ProfileView {
        self@
    }
}

impl Clone for RemoteAuth {
    fn clone(&self) -> (copy: RemoteAuth)
        ensures
            copy == *self,
    {
        match self {
            RemoteAuth::Password { password } => RemoteAuth::Password { password: password.clone() },
            RemoteAuth::KeyFile { path, passphrase } => RemoteAuth::KeyFile {
                path: path.clone(),
                passphrase: match passphrase {
                    Some(secret) => Some(secret.clone()),
                    None => None,
                },
            },
        }
    }
}

impl Clone for RemoteProfile {
    fn clone(&self) -> (copy: RemoteProfile)
        ensures
            copy == *self,
    {
        RemoteProfile {
            host: self.host.clone(),
            port: self.port,
            user: self.user.clone(),
            auth: self.auth.clone(),
        }
    }
}

/// Whether two profiles refer to the same server: the same user at the same host and port.
pub open spec fn same_server(a: ProfileView, b: ProfileView) -> bool {
    a.host == b.host && a.port == b.port && a.user == b.user
}

/// Checks if two remote profiles refer to the same server.
pub fn is_same_server(a: &RemoteProfile, b: &RemoteProfile) -> (same: bool)
    ensures
        same == same_server(a@, b@),
{
    a.host == b.host && a.port == b.port && a.user == b.user
}

/// The `ssh` options against host key questions and warnings.
pub open spec fn host_key_options(platform: Platform) -> Seq<char> {
    match platform {
        Platform::Unix =>
            " -o StrictHostKeyChecking=no -o UserKnownHostsFile=/dev/null -o LogLevel=ERROR"@,
        Platform::Windows =>
            " -o StrictHostKeyChecking=no -o UserKnownHostsFile=NUL -o LogLevel=ERROR"@,
    }
}

/// The `ssh` command for rsync: the port if it is not the usual one, the key file in quotes if
/// there is one, and the host key options. `key_path` is the path of the key file with the home
/// directory filled in.
pub open spec fn ssh_option(profile: ProfileView, key_path: Seq<char>, platform: Platform) -> Seq<
    char,
> {
    let port = if profile.port != 22 {
        " -p "@ + decimal(profile.port as nat)
    } else {
        Seq::empty()
    };
    let key = if profile.auth is KeyFile {
        " -i "@ + quoted(key_path)
    } else {
        Seq::empty()
    };
    "ssh"@ + port + key + host_key_options(platform)
}

/// Builds the `ssh` command for rsync. `key_path` is the path of the key file with the home
/// directory filled in; it does not matter where a password is used.
pub fn build_ssh_option(profile: &RemoteProfile, key_path: &str, platform: Platform) -> (option:
    String)
    ensures
        option@ == ssh_option(profile@, key_path@, platform),
{
    let mut option = "ssh".to_string();
    if profile.port != 22 {
        option.append(" -p ");
        push_decimal(&mut option, profile.port as u128);
    }
    proof {
        assert("ssh"@ + (" -p "@ + decimal(profile.port as nat)) == "ssh"@ + " -p "@ + decimal(
            profile.port as nat,
        ));
        assert("ssh"@ + Seq::<char>::empty() == "ssh"@);
    }
    let ghost so_far = option@;
    if let RemoteAuth::KeyFile { .. } = &profile.auth {
        option.append(" -i ");
        push_quoted(&mut option, key_path);
    }
    proof {
        assert(so_far + (" -i "@ + quoted(key_path@)) == so_far + " -i "@ + quoted(key_path@));
        assert(so_far + Seq::<char>::empty() == so_far);
    }
    match platform {
        Platform::Unix => option.append(
            " -o StrictHostKeyChecking=no -o UserKnownHostsFile=/dev/null -o LogLevel=ERROR",
        ),
        Platform::Windows => option.append(
            " -o StrictHostKeyChecking=no -o UserKnownHostsFile=NUL -o LogLevel=ERROR",
        ),
    }
    option
}

/// A remote path for rsync: `user@host:'path'`.
pub open spec fn remote_spec(profile: ProfileView, path: Seq<char>) -> Seq<char> {
    profile.user + "@"@ + profile.host + ":"@ + quoted(path)
}

/// Builds a remote path for rsync. The path stands in single quotes, so that the remote shell
/// takes it as it is.
pub fn build_remote_spec(profile: &RemoteProfile, path: &str) -> (spec: String)
    ensures
        spec@ == remote_spec(profile@, path@),
{
    let mut spec = profile.user.clone();
    spec.append("@");
    spec.append(profile.host.as_str());
    spec.append(":");
    push_quoted(&mut spec, path);
    spec
}

/// Behind the user and the host, a remote path for rsync is one word for the remote shell: the
/// path, whatever characters it holds.
pub proof fn law_remote_spec_names_the_path(profile: ProfileView, path: Seq<char>)
    ensures
        ({
            let server = profile.user + "@"@ + profile.host + ":"@;
            let spec = remote_spec(profile, path);
            &&& spec.take(server.len() as int) == server
            &&& shell_words(spec.skip(server.len() as int)) == Some(seq![path])
        }),
{
    let server = profile.user + "@"@ + profile.host + ":"@;
    let spec = remote_spec(profile, path);
    assert(spec.take(server.len() as int) == server);
    assert(spec.skip(server.len() as int) == quoted(path));
    law_quoting_keeps_the_text(path);
}

} // verus!
