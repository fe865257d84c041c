//! The machine that runs the deployment, as a host: which commands each of
//! a host's operations comes to on it. Running them is the caller's part.

use crate::error::NixError;
use crate::goal::Goal;
use crate::key::Key;
use crate::options::{CopyDirection, CopyOptions};
use crate::store::{Profile, StorePath, SYSTEM_PROFILE};
use crate::text::{clone_strings, join_path, join_path_spec, strings_view};
use vstd::prelude::*;
use vstd::string::*;

verus! {

/// A program and its arguments.
#[derive(Debug)]
pub struct CommandLine {
    /// The program.
    pub program: String,
    /// Its arguments, in order.
    pub args: Vec<String>,
}

/// A program and its arguments, as a plain value.
pub struct CommandLineView {
    /// The program.
    pub program: Seq<char>,
    /// Its arguments, in order.
    pub args: Seq<Seq<char>>,
}

impl View for CommandLine {
    type V = CommandLineView;

    open spec fn view(&self) -> CommandLineView {
        CommandLineView { program: self.program@, args: strings_view(self.args@) }
    }
}

/// The plain values of a sequence of commands.
pub open spec fn commands_view(v: Seq<CommandLine>) -> Seq<CommandLineView> {
    Seq::new(v.len(), |i: int| v[i]@)
}

/// The upload of one key: what to tell the user, and the command that
/// takes the key's material on its standard input.
#[derive(Debug)]
pub struct KeyUpload {
    /// The line that announces the upload.
    pub message: String,
    /// The command that installs the key.
    pub command: CommandLine,
}

/// The upload of one key, as a plain value.
pub struct KeyUploadView {
    /// The line that announces the upload.
    pub message: Seq<char>,
    /// The command that installs the key.
    pub command: CommandLineView,
}

impl View for KeyUpload {
    type V = KeyUploadView;

    open spec fn view(&self) -> KeyUploadView {
        KeyUploadView { message: self.message@, command: self.command@ }
    }
}

/// The command that realizes `derivation` under the options `nix_options`.
pub open spec fn realize_command_spec(
    nix_options: Seq<Seq<char>>,
    derivation: Seq<char>,
) -> CommandLineView {
    CommandLineView {
        program: "nix-store"@,
        args: nix_options + seq!["--no-gc-warning"@, "--realise"@, derivation],
    }
}

/// The command that points the system profile at `profile`.
pub open spec fn set_profile_command_spec(profile: Seq<char>) -> CommandLineView {
    CommandLineView {
        program: "nix-env"@,
        args: seq!["--profile"@, SYSTEM_PROFILE@, "--set"@, profile],
    }
}

/// The commands that activate `profile` for `goal`, in the order in which
/// they run: for a goal that switches the profile, first the command that
/// points the system profile at it; then the profile's activation command.
/// A goal that is no activation mode is not supported.
pub open spec fn activation_spec(profile: Seq<char>, goal: Goal) -> Result<
    Seq<CommandLineView>,
    NixError,
> {
    match Profile::activation_command_spec(profile, goal) {
        None => Err(NixError::Unsupported),
        Some(command) => {
            let activate = CommandLineView { program: command[0], args: command.skip(1) };
            if goal.should_switch_profile() {
                Ok(seq![set_profile_command_spec(profile), activate])
            } else {
                Ok(seq![activate])
            }
        },
    }
}

/// The upload of the key called `name` with the installation script `script`:
/// the shell runs the script, quoted as one word.
pub open spec fn key_upload_spec(name: Seq<char>, script: Seq<char>) -> KeyUploadView {
    KeyUploadView {
        message: "Deploying key "@ + name,
        command: CommandLineView { program: "sh"@, args: seq!["-c"@, "'"@ + script + "'"@] },
    }
}

/// The plain values of a sequence of uploads.
pub open spec fn uploads_view(v: Seq<KeyUpload>) -> Seq<KeyUploadView> {
    Seq::new(v.len(), |i: int| v[i]@)
}

/// The uploads of a list of keys, each given by its name and script.
pub open spec fn key_uploads_spec(keys: Seq<(String, String)>) -> Seq<KeyUploadView> {
    Seq::new(keys.len(), |i: int| key_upload_spec(keys[i].0@, keys[i].1@))
}

/// The local machine as a plain value.
pub struct LocalView {
    /// The job that the host's output is reported under.
    pub job: Option<usize>,
    /// The options that every store command is given.
    pub nix_options: Seq<Seq<char>>,
}

/// The machine that runs the deployment.
///
/// It may not be able to realize every derivation: one for another kind of
/// machine, say.
#[derive(Debug)]
pub struct Local {
    job: Option<usize>,
    nix_options: Vec<String>,
}

impl View for Local {
    type V = LocalView;

    closed spec fn view(&self) -> LocalView {
        LocalView { job: self.job, nix_options: strings_view(self.nix_options@) }
    }
}

impl Local {
    /// The local machine, with the options that every store command is
    /// given and no job attached.
    pub fn new(nix_options: Vec<String>) -> (r: Local)
        ensures
            r@ == (LocalView { job: None, nix_options: strings_view(nix_options@) }),
    {
        Local { job: None, nix_options }
    }

    /// Attaches the job that the host's output is reported under, or detaches it.
    pub fn set_job(&mut self, job: Option<usize>)
        ensures
            final(self)@ == (LocalView { job, ..old(self)@ }),
    {
        self.job = job;
    }

    /// The job that the host's output is reported under.
    pub fn job(&self) -> (r: Option<usize>)
        ensures
            r == self@.job,
    {
        self.job
    }

    /// The commands that copy a closure between this machine and the host.
    /// The host is this machine, so there is nothing to copy and no command.
    pub fn copy_closure(
        &self,
        closure: &StorePath,
        direction: CopyDirection,
        options: CopyOptions,
    ) -> (r: Vec<CommandLine>)
        ensures
            r@.len() == 0,
    {
        Vec::new()
    }

    /// The command that realizes a derivation on the host. Its standard
    /// output lists the paths that came out, one per line.
    pub fn realize_remote(&self, derivation: &StorePath) -> (r: CommandLine)
        ensures
            r@ == realize_command_spec(self@.nix_options, derivation@),
    {
        let mut args = clone_strings(&self.nix_options, 0);
        let ghost options = strings_view(args@);
        assert(options =~= self@.nix_options);
        args.push(String::from_str("--no-gc-warning"));
        args.push(String::from_str("--realise"));
        args.push(String::from_str(derivation.as_str()));
        assert(strings_view(args@) =~= options + seq![
            "--no-gc-warning"@,
            "--realise"@,
            derivation@,
        ]);
        CommandLine { program: String::from_str("nix-store"), args }
    }

    /// Where the key called `name` is installed: below the key's destination directory.
    pub fn key_dest_path(key: &Key, name: &str) -> (r: String)
        ensures
            r@ == join_path_spec(key@.dest_dir, name@),
    {
        join_path(key.dest_dir(), name)
    }

    /// The upload of the key called `name`, given the script that installs it.
    pub fn upload_key(&self, name: &str, script: &str) -> (r: KeyUpload)
        ensures
            r@ == key_upload_spec(name@, script@),
    {
        let message = String::from_str("Deploying key ").concat(name);
        let quoted = String::from_str("'").concat(script).concat("'");
        let mut args: Vec<String> = Vec::new();
        args.push(String::from_str("-c"));
        args.push(quoted);
        assert(strings_view(args@) =~= seq!["-c"@, "'"@ + script@ + "'"@]);
        KeyUpload { message, command: CommandLine { program: String::from_str("sh"), args } }
    }

    /// The uploads of the keys, each given by its name and the script that
    /// installs it, in the order in which they are given. They are meant to
    /// run one after the other, up to the first that fails.
    pub fn upload_keys(&self, keys: &Vec<(String, String)>) -> (r: Vec<KeyUpload>)
        ensures
            uploads_view(r@) == key_uploads_spec(keys@),
    {
        let mut uploads: Vec<KeyUpload> = Vec::new();
        let mut i: usize = 0;
        while i < keys.len()
            invariant
                i <= keys.len(),
                uploads.len() == i,
                forall|j: int|
                    0 <= j < i ==> (#[trigger] uploads@[j])@ == key_upload_spec(
                        keys@[j].0@,
                        keys@[j].1@,
                    ),
            decreases keys.len() - i,
        {
            let upload = self.upload_key(keys[i].0.as_str(), keys[i].1.as_str());
            uploads.push(upload);
            i = i + 1;
        }
        assert(uploads_view(uploads@) =~= key_uploads_spec(keys@));
        uploads
    }

    /// The commands that activate a profile on the host for a goal, in the
    /// order in which they run; each runs only if the one before it succeeded.
    pub fn activate(&self, profile: &Profile, goal: Goal) -> (r: Result<Vec<CommandLine>, NixError>)
        ensures
            match activation_spec(profile@, goal) {
                Ok(commands) => r is Ok && commands_view(r->Ok_0@) == commands,
                Err(e) => r == Err::<Vec<CommandLine>, NixError>(e),
            },
    {
        if !goal.is_real_goal() {
            return Err(NixError::Unsupported);
        }
        let mut commands: Vec<CommandLine> = Vec::new();
        if goal.should_switch_profile() {
            let mut args: Vec<String> = Vec::new();
            args.push(String::from_str("--profile"));
            args.push(String::from_str(SYSTEM_PROFILE));
            args.push(String::from_str("--set"));
            args.push(String::from_str(profile.as_str()));
            assert(strings_view(args@) =~= seq!["--profile"@, SYSTEM_PROFILE@, "--set"@, profile@]);
            commands.push(CommandLine { program: String::from_str("nix-env"), args });
        }
        let ghost first = commands@;
        let activation_command = match profile.activation_command(goal) {
            Some(command) => command,
            None => {
                return Err(NixError::Unsupported);
            },
        };
        let ghost words = Profile::activation_command_spec(profile@, goal)->0;
        let program = activation_command[0].clone();
        let args = clone_strings(&activation_command, 1);
        commands.push(CommandLine { program, args });
        proof {
            let activate = CommandLineView { program: words[0], args: words.skip(1) };
            assert(commands@.last()@ == activate);
            if goal.should_switch_profile() {
                assert(commands_view(commands@) =~= seq![
                    set_profile_command_spec(profile@),
                    activate,
                ]);
            } else {
                assert(commands_view(commands@) =~= seq![activate]);
            }
        }
        Ok(commands)
    }

    /// Whether the host knows the derivation of the profile that is live on
    /// it. This machine always does.
    pub fn active_derivation_known(&self) -> (r: bool)
        ensures
            r,
    {
        true
    }
}

} // verus!
