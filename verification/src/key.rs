//! Secret keys: where their material comes from, where it goes, and the
//! rules that a key's description has to keep.

use crate::error::NixError;
use crate::text::{chars_of, clone_strings, strings_view};
use regex::Regex;
use vstd::prelude::*;
use vstd::string::*;

verus! {

/// The pattern that the name of a user or group has to match.
pub const UNIX_NAME_PATTERN: &'static str = "^[a-z][-a-z0-9]*$";

/// What compiling `pattern` with `regex::Regex::new` and searching `text`
/// with `Regex::is_match` comes to: `None` where the pattern is refused,
/// otherwise whether it matches somewhere in the text.
pub uninterp spec fn regex_search(pattern: Seq<char>, text: Seq<char>) -> Option<bool>;

/// How `std` prints three optional key sources with `{:?}`, as a tuple of
/// the text, the command and the file.
pub uninterp spec fn sources_debug_text(
    text: Option<Seq<char>>,
    command: Option<Seq<Seq<char>>>,
    file: Option<Seq<char>>,
) -> Seq<char>;

/// Compiles `pattern` with `regex::Regex::new` and searches `text` with
/// `Regex::is_match`. The result is a function of the two texts alone; the
/// contract gives it its name and claims nothing else of it.
#[verifier::external_body]
fn regex_is_match(pattern: &str, text: &str) -> (r: Option<bool>)
    ensures
        r == regex_search(pattern@, text@),
{
    match Regex::new(pattern) {
        Ok(re) => Some(re.is_match(text)),
        Err(_) => None,
    }
}

/// Prints the three fields with `format!` and `{:?}`, as a tuple. The
/// contract gives the text its name and claims nothing else of it.
#[verifier::external_body]
fn debug_sources(sources: &KeySources) -> (r: String)
    ensures
        r@ == sources_debug_text(sources.text_view(), sources.command_view(), sources.file_view()),
{
    format!("{:?}", (&sources.text, &sources.command, &sources.file))
}

/// A rule that a key's description broke.
#[derive(Clone, Copy, Debug, PartialEq, Eq, Structural)]
pub enum ValidationError {
    /// The name of the user or group does not match the pattern.
    InvalidUnixName,
    /// The destination directory is not absolute.
    RelativeDestDir,
}

impl ValidationError {
    /// The sentence that states the broken rule.
    pub open spec fn code_spec(&self) -> Seq<char> {
        match *self {
            ValidationError::InvalidUnixName => "Invalid user/group name"@,
            ValidationError::RelativeDestDir => "Secret key destination directory must be absolute"@,
        }
    }

    /// The sentence that states the broken rule.
    pub fn code(&self) -> (r: &'static str)
        ensures
            r@ == self.code_spec(),
    {
        match self {
            ValidationError::InvalidUnixName => "Invalid user/group name",
            ValidationError::RelativeDestDir => "Secret key destination directory must be absolute",
        }
    }
}

/// The rules that a key's description broke, field by field.
#[derive(Clone, Copy, Debug, PartialEq, Eq, Structural)]
pub struct ValidationErrors {
    /// What is wrong with the destination directory.
    pub dest_dir: Option<ValidationError>,
    /// What is wrong with the user.
    pub user: Option<ValidationError>,
    /// What is wrong with the group.
    pub group: Option<ValidationError>,
}

/// The verdict on a name, given what the search for the pattern came to:
/// the name is in order only where the pattern was accepted and matched.
pub open spec fn unix_name_verdict_spec(matched: Option<bool>) -> Result<(), ValidationError> {
    if matched == Some(true) {
        Ok(())
    } else {
        Err(ValidationError::InvalidUnixName)
    }
}

/// The verdict on a name, given what the search for the pattern came to.
pub fn unix_name_verdict(matched: Option<bool>) -> (r: Result<(), ValidationError>)
    ensures
        r == unix_name_verdict_spec(matched),
{
    match matched {
        Some(true) => Ok(()),
        _ => Err(ValidationError::InvalidUnixName),
    }
}

/// Whether a name is in order as the name of a user or group: whether it
/// matches `UNIX_NAME_PATTERN`.
pub open spec fn unix_name_ok(name: Seq<char>) -> bool {
    regex_search(UNIX_NAME_PATTERN@, name) == Some(true)
}

/// Checks the name of a user or group against `UNIX_NAME_PATTERN`.
pub fn validate_unix_name(name: &str) -> (r: Result<(), ValidationError>)
    ensures
        r == unix_name_verdict_spec(regex_search(UNIX_NAME_PATTERN@, name@)),
        r is Ok <==> unix_name_ok(name@),
{
    unix_name_verdict(regex_is_match(UNIX_NAME_PATTERN, name))
}

/// Whether a path starts at the root.
pub open spec fn is_absolute(path: Seq<char>) -> bool {
    path.len() > 0 && path[0] == '/'
}

/// Checks that a key's destination directory is absolute.
pub fn validate_dest_dir(dir: &str) -> (r: Result<(), ValidationError>)
    ensures
        r == (if is_absolute(dir@) {
            Ok::<(), ValidationError>(())
        } else {
            Err::<(), ValidationError>(ValidationError::RelativeDestDir)
        }),
{
    let chars = chars_of(dir);
    if chars.len() > 0 && chars[0] == '/' {
        Ok(())
    } else {
        Err(ValidationError::RelativeDestDir)
    }
}

/// When a key's material has to be on the node.
#[derive(Clone, Copy, Debug, PartialEq, Eq, Structural)]
pub enum UploadAt {
    /// Before the new configuration is activated.
    PreActivation,
    /// After the new configuration was activated.
    PostActivation,
}

impl Default for UploadAt {
    fn default() -> (r: UploadAt)
        ensures
            r == UploadAt::PreActivation,
    {
        UploadAt::PreActivation
    }
}

/// Where a key's material comes from.
#[derive(Debug)]
pub enum KeySource {
    /// The material itself.
    Text(String),
    /// A command that prints the material.
    Command(Vec<String>),
    /// A file that holds the material.
    File(String),
}

/// Where a key's material comes from, as a plain value.
pub enum KeySourceView {
    /// The material itself.
    Text(Seq<char>),
    /// A command that prints the material.
    Command(Seq<Seq<char>>),
    /// A file that holds the material.
    File(Seq<char>),
}

impl View for KeySource {
    type V = KeySourceView;

    open spec fn view(&self) -> KeySourceView {
        match *self {
            KeySource::Text(text) => KeySourceView::Text(text@),
            KeySource::Command(command) => KeySourceView::Command(strings_view(command@)),
            KeySource::File(file) => KeySourceView::File(file@),
        }
    }
}

/// The three places that a key's description may name a source in.
#[derive(Debug)]
pub struct KeySources {
    /// The material itself.
    pub text: Option<String>,
    /// A command that prints the material.
    pub command: Option<Vec<String>>,
    /// A file that holds the material.
    pub file: Option<String>,
}

impl KeySources {
    /// The text, as a plain value.
    pub open spec fn text_view(&self) -> Option<Seq<char>> {
        match self.text {
            Some(text) => Some(text@),
            None => None,
        }
    }

    /// The command, as a plain value.
    pub open spec fn command_view(&self) -> Option<Seq<Seq<char>>> {
        match self.command {
            Some(command) => Some(strings_view(command@)),
            None => None,
        }
    }

    /// The file, as a plain value.
    pub open spec fn file_view(&self) -> Option<Seq<char>> {
        match self.file {
            Some(file) => Some(file@),
            None => None,
        }
    }

    /// The one source that is named, if exactly one is.
    pub open spec fn only_source(&self) -> Option<KeySourceView> {
        match (self.text_view(), self.command_view(), self.file_view()) {
            (Some(text), None, None) => Some(KeySourceView::Text(text)),
            (None, Some(command), None) => Some(KeySourceView::Command(command)),
            (None, None, Some(file)) => Some(KeySourceView::File(file)),
            _ => None,
        }
    }

    /// The complaint about sources of which not exactly one is named.
    pub open spec fn complaint(&self) -> Seq<char> {
        "Somehow 0 or more than 1 key source was specified: "@ + sources_debug_text(
            self.text_view(),
            self.command_view(),
            self.file_view(),
        )
    }
}

impl KeySource {
    /// Picks the one source that a description names. A description that
    /// names none, or more than one, is refused with a complaint that shows
    /// what it named.
    pub fn try_from(sources: KeySources) -> (r: Result<KeySource, String>)
        ensures
            match sources.only_source() {
                Some(source) => r is Ok && r->Ok_0@ == source,
                None => r is Err && r->Err_0@ == sources.complaint(),
            },
    {
        match (sources.text.is_some(), sources.command.is_some(), sources.file.is_some()) {
            (true, false, false) => Ok(KeySource::Text(sources.text.unwrap())),
            (false, true, false) => Ok(KeySource::Command(sources.command.unwrap())),
            (false, false, true) => Ok(KeySource::File(sources.file.unwrap())),
            _ => Err(
                String::from_str("Somehow 0 or more than 1 key source was specified: ").concat(
                    debug_sources(&sources).as_str(),
                ),
            ),
        }
    }
}

/// What has to be done to read a key's material.
#[derive(Debug)]
pub enum KeyInput {
    /// Nothing: this is the material.
    Text(String),
    /// Run the program with the arguments and read what it prints.
    Command {
        /// The program.
        program: String,
        /// Its arguments.
        args: Vec<String>,
    },
    /// Open the file and read it.
    File(String),
}

/// What has to be done to read a key's material, as a plain value.
pub enum KeyInputView {
    /// Nothing: this is the material.
    Text(Seq<char>),
    /// Run the program with the arguments and read what it prints.
    Command {
        /// The program.
        program: Seq<char>,
        /// Its arguments.
        args: Seq<Seq<char>>,
    },
    /// Open the file and read it.
    File(Seq<char>),
}

impl View for KeyInput {
    type V = KeyInputView;

    open spec fn view(&self) -> KeyInputView {
        match *self {
            KeyInput::Text(text) => KeyInputView::Text(text@),
            KeyInput::Command { program, args } => KeyInputView::Command {
                program: program@,
                args: strings_view(args@),
            },
            KeyInput::File(file) => KeyInputView::File(file@),
        }
    }
}

impl KeySourceView {
    /// How material from this source is read. A command's first word is the
    /// program and the rest are its arguments; a command without words
    /// cannot be run.
    pub open spec fn input(self) -> Result<KeyInputView, NixError> {
        match self {
            KeySourceView::Text(text) => Ok(KeyInputView::Text(text)),
            KeySourceView::Command(command) => if command.len() == 0 {
                Err(NixError::InvalidKey)
            } else {
                Ok(KeyInputView::Command { program: command[0], args: command.skip(1) })
            },
            KeySourceView::File(file) => Ok(KeyInputView::File(file)),
        }
    }
}

/// A key as a plain value.
pub struct KeyView {
    /// Where the material comes from.
    pub source: KeySourceView,
    /// The directory on the node that the key is put in.
    pub dest_dir: Seq<char>,
    /// The user that owns the key on the node.
    pub user: Seq<char>,
    /// The group that owns the key on the node.
    pub group: Seq<char>,
    /// The permissions of the key on the node, in octal.
    pub permissions: Seq<char>,
    /// When the key has to be on the node.
    pub upload_at: UploadAt,
}

impl KeyView {
    /// The rules that the key breaks, field by field.
    pub open spec fn broken_rules(self) -> ValidationErrors {
        ValidationErrors {
            dest_dir: if is_absolute(self.dest_dir) {
                None
            } else {
                Some(ValidationError::RelativeDestDir)
            },
            user: if unix_name_ok(self.user) {
                None
            } else {
                Some(ValidationError::InvalidUnixName)
            },
            group: if unix_name_ok(self.group) {
                None
            } else {
                Some(ValidationError::InvalidUnixName)
            },
        }
    }

    /// Whether the key keeps every rule: the destination directory is
    /// absolute, and user and group match the pattern for names.
    pub open spec fn valid(self) -> bool {
        is_absolute(self.dest_dir) && unix_name_ok(self.user) && unix_name_ok(self.group)
    }
}

/// A secret to be installed on a node.
#[derive(Debug)]
pub struct Key {
    source: KeySource,
    dest_dir: String,
    user: String,
    group: String,
    permissions: String,
    upload_at: UploadAt,
}

impl View for Key {
    type V = KeyView;

    closed spec fn view(&self) -> KeyView {
        KeyView {
            source: self.source@,
            dest_dir: self.dest_dir@,
            user: self.user@,
            group: self.group@,
            permissions: self.permissions@,
            upload_at: self.upload_at,
        }
    }
}

impl Key {
    /// Describes a key. Nothing is checked here: see `validate`.
    pub fn new(
        source: KeySource,
        dest_dir: String,
        user: String,
        group: String,
        permissions: String,
        upload_at: UploadAt,
    ) -> (r: Key)
        ensures
            r@ == (KeyView {
                source: source@,
                dest_dir: dest_dir@,
                user: user@,
                group: group@,
                permissions: permissions@,
                upload_at,
            }),
    {
        Key { source, dest_dir, user, group, permissions, upload_at }
    }

    /// Checks the key against the rules, and lists the ones it breaks.
    pub fn validate(&self) -> (r: Result<(), ValidationErrors>)
        ensures
            r is Ok <==> self@.valid(),
            r is Err ==> r->Err_0 == self@.broken_rules(),
    {
        let dest_dir = validate_dest_dir(self.dest_dir.as_str());
        let user = validate_unix_name(self.user.as_str());
        let group = validate_unix_name(self.group.as_str());
        if dest_dir.is_ok() && user.is_ok() && group.is_ok() {
            Ok(())
        } else {
            Err(ValidationErrors { dest_dir: dest_dir.err(), user: user.err(), group: group.err() })
        }
    }

    /// What has to be done to read the key's material.
    pub fn input(&self) -> (r: Result<KeyInput, NixError>)
        ensures
            match self@.source.input() {
                Ok(input) => r is Ok && r->Ok_0@ == input,
                Err(e) => r == Err::<KeyInput, NixError>(e),
            },
    {
        match &self.source {
            KeySource::Text(content) => Ok(KeyInput::Text(content.clone())),
            KeySource::Command(command) => {
                if command.len() == 0 {
                    Err(NixError::InvalidKey)
                } else {
                    let program = command[0].clone();
                    let args = clone_strings(command, 1);
                    Ok(KeyInput::Command { program, args })
                }
            },
            KeySource::File(path) => Ok(KeyInput::File(path.clone())),
        }
    }

    /// Where the key's material comes from.
    pub fn source(&self) -> (r: &KeySource)
        ensures
            r@ == self@.source,
    {
        &self.source
    }

    /// The directory on the node that the key is put in.
    pub fn dest_dir(&self) -> (r: &str)
        ensures
            r@ == self@.dest_dir,
    {
        self.dest_dir.as_str()
    }

    /// The user that owns the key on the node.
    pub fn user(&self) -> (r: &str)
        ensures
            r@ == self@.user,
    {
        self.user.as_str()
    }

    /// The group that owns the key on the node.
    pub fn group(&self) -> (r: &str)
        ensures
            r@ == self@.group,
    {
        self.group.as_str()
    }

    /// The permissions of the key on the node, in octal.
    pub fn permissions(&self) -> (r: &str)
        ensures
            r@ == self@.permissions,
    {
        self.permissions.as_str()
    }

    /// When the key has to be on the node.
    pub fn upload_at(&self) -> (r: UploadAt)
        ensures
            r == self@.upload_at,
    {
        self.upload_at
    }
}

} // verus!
