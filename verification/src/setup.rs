//! The command-line installer and uninstaller, which download the sources,
//! build the host, register it with Chrome through PowerShell, and undo that.
//! This module computes the scripts and files that they hand to PowerShell
//! and write to disk.
use vstd::prelude::*;
use vstd::string::StringExecFns;
use crate::text::{replace, replace_all};

verus! {

/// Where the sources are downloaded from.
pub open spec fn repo_url() -> Seq<char> {
    "https://github.com/trance-mode/primevideo-discord-presence/archive/refs/heads/main.zip"@
}

/// The registry key under which Chrome finds the unpacked extension.
pub open spec fn extension_key() -> Seq<char> {
    "HKCU\\Software\\Google\\Chrome\\Extensions\\pvdp-extension"@
}

/// The version recorded for the extension.
pub open spec fn extension_version() -> Seq<char> {
    "1.4.0"@
}

/// The placeholder in the manifest template that stands for the host's path.
pub open spec fn binary_placeholder() -> Seq<char> {
    "PRIME_BINARY_PATH"@
}

/// The download URL.
pub fn source_url() -> (u: String)
    ensures
        u@ == repo_url(),
{
    String::from_str(
        "https://github.com/trance-mode/primevideo-discord-presence/archive/refs/heads/main.zip",
    )
}

/// The PowerShell command that downloads `url` into `zip_path`.
pub fn download_command(url: &str, zip_path: &str) -> (c: String)
    ensures
        c@ == "Invoke-WebRequest '"@ + url@ + "' -OutFile '"@ + zip_path@ + "'"@,
{
    let mut c = String::from_str("Invoke-WebRequest '");
    c.append(url);
    c.append("' -OutFile '");
    c.append(zip_path);
    c.append("'");
    c
}

/// The PowerShell command that unpacks `zip_path` into `dest`.
pub fn expand_command(zip_path: &str, dest: &str) -> (c: String)
    ensures
        c@ == "Expand-Archive -Path '"@ + zip_path@ + "' -DestinationPath '"@ + dest@
            + "' -Force"@,
{
    let mut c = String::from_str("Expand-Archive -Path '");
    c.append(zip_path);
    c.append("' -DestinationPath '");
    c.append(dest);
    c.append("' -Force");
    c
}

/// The host manifest: the template with every `PRIME_BINARY_PATH` replaced by
/// the path of the built host.
pub fn fill_manifest_template(template: &str, exe_path: &str) -> (m: String)
    ensures
        m@ == replace_all(template@, binary_placeholder(), exe_path@),
{
    let placeholder = "PRIME_BINARY_PATH";
    proof {
        reveal_strlit("PRIME_BINARY_PATH");
    }
    replace(template, placeholder, exe_path)
}

/// The PowerShell script that registers the unpacked extension.
pub open spec fn registration_script_spec(extension_path: Seq<char>, manifest_path: Seq<char>) -> Seq<
    char,
> {
    "New-Item -Path '"@ + extension_key() + "' -Force | Out-Null; Set-ItemProperty -Path '"@
        + extension_key() + "' -Name 'path' -Value '"@ + extension_path
        + "'; Set-ItemProperty -Path '"@ + extension_key() + "' -Name 'version' -Value '"@
        + extension_version() + "'; Set-ItemProperty -Path '"@ + extension_key()
        + "' -Name 'manifest' -Value '"@ + manifest_path + "'"@
}

/// Builds the registering script for the extension folder and its manifest.
pub fn extension_registration_script(extension_path: &str, manifest_path: &str) -> (s: String)
    ensures
        s@ == registration_script_spec(extension_path@, manifest_path@),
{
    let key = "HKCU\\Software\\Google\\Chrome\\Extensions\\pvdp-extension";
    let mut s = String::from_str("New-Item -Path '");
    s.append(key);
    s.append("' -Force | Out-Null; Set-ItemProperty -Path '");
    s.append(key);
    s.append("' -Name 'path' -Value '");
    s.append(extension_path);
    s.append("'; Set-ItemProperty -Path '");
    s.append(key);
    s.append("' -Name 'version' -Value '");
    s.append("1.4.0");
    s.append("'; Set-ItemProperty -Path '");
    s.append(key);
    s.append("' -Name 'manifest' -Value '");
    s.append(manifest_path);
    s.append("'");
    s
}

/// The PowerShell script that removes the extension's registry key, if any.
pub fn extension_removal_script() -> (s: String)
    ensures
        s@ == "if (Test-Path '"@ + extension_key() + "') { Remove-Item -Path '"@ + extension_key()
            + "' -Recurse -Force; Write-Host '🗑️ Removed Chrome extension registry entry.' } else { Write-Host 'ℹ️ No extension registry entry found.' }"@,
{
    let key = "HKCU\\Software\\Google\\Chrome\\Extensions\\pvdp-extension";
    let mut s = String::from_str("if (Test-Path '");
    s.append(key);
    s.append("') { Remove-Item -Path '");
    s.append(key);
    s.append(
        "' -Recurse -Force; Write-Host '🗑️ Removed Chrome extension registry entry.' } else { Write-Host 'ℹ️ No extension registry entry found.' }",
    );
    s
}

/// The paths that the command-line install works with, as the program
/// around it names them.
pub struct SetupPaths {
    /// Where the downloaded archive goes.
    pub zip: String,
    /// The temporary folder the archive is unpacked into.
    pub temp: String,
    /// The host program once built.
    pub exe: String,
    /// The unpacked extension folder.
    pub extension: String,
    /// The extension's own manifest file.
    pub extension_manifest: String,
}

/// Where the command-line install stands.
#[derive(PartialEq, Eq, Structural, Clone, Copy, Debug)]
pub enum SetupStage {
    Start,
    Downloading,
    Expanding,
    Building,
    ReadingTemplate,
    WritingManifest,
    Registering,
    Over,
}

/// What the program reports back to the command-line install.
pub enum SetupEvent {
    /// The install starts.
    Begin,
    /// Whether the last command asked for exited successfully.
    Ran(bool),
    /// The text of the host manifest template.
    TemplateRead(String),
    /// The host manifest has been written.
    ManifestWritten,
}

/// What the command-line install asks of the program.
pub enum SetupAction {
    /// Run this PowerShell command and report whether it succeeded.
    PowerShell(String),
    /// Move the unpacked sources into place and build the host with
    /// `cargo build --release`; report whether the build succeeded.
    Build,
    /// Read the host manifest template of the sources.
    ReadTemplate,
    /// Write this host manifest into Chrome's native messaging folder.
    WriteManifest(String),
    /// The install is over: done, or stopped with this message.
    Finish(Result<(), String>),
}

/// The events that each stage waits for.
pub open spec fn setup_accepts(stage: SetupStage, event: SetupEvent) -> bool {
    match stage {
        SetupStage::Start => event is Begin,
        SetupStage::Downloading | SetupStage::Expanding | SetupStage::Building
            | SetupStage::Registering => event is Ran,
        SetupStage::ReadingTemplate => event is TemplateRead,
        SetupStage::WritingManifest => event is ManifestWritten,
        SetupStage::Over => false,
    }
}

/// The action stops the install with the message `m`.
pub open spec fn stops_with(a: SetupAction, m: Seq<char>) -> bool {
    a matches SetupAction::Finish(Err(e)) && e@ == m
}

/// The action runs the PowerShell command `c`.
pub open spec fn runs_powershell(a: SetupAction, c: Seq<char>) -> bool {
    a matches SetupAction::PowerShell(x) && x@ == c
}

/// One step of the command-line install: in `stage`, on `event`, the stage
/// becomes `next` and `action` is asked for. Each command that fails stops the
/// install with its message; the steps come in the order download, unpack,
/// build, manifest, extension registration.
pub open spec fn setup_step_ok(
    paths: SetupPaths,
    stage: SetupStage,
    event: SetupEvent,
    next: SetupStage,
    action: SetupAction,
) -> bool {
    match (stage, event) {
        (SetupStage::Start, SetupEvent::Begin) => {
            &&& next == SetupStage::Downloading
            &&& runs_powershell(
                action,
                "Invoke-WebRequest '"@ + repo_url() + "' -OutFile '"@ + paths.zip@ + "'"@,
            )
        },
        (SetupStage::Downloading, SetupEvent::Ran(ok)) => if ok {
            &&& next == SetupStage::Expanding
            &&& runs_powershell(
                action,
                "Expand-Archive -Path '"@ + paths.zip@ + "' -DestinationPath '"@ + paths.temp@
                    + "' -Force"@,
            )
        } else {
            next == SetupStage::Over && stops_with(action, "❌ Download failed"@)
        },
        (SetupStage::Expanding, SetupEvent::Ran(ok)) => if ok {
            next == SetupStage::Building && action is Build
        } else {
            next == SetupStage::Over && stops_with(action, "❌ Extraction failed"@)
        },
        (SetupStage::Building, SetupEvent::Ran(ok)) => if ok {
            next == SetupStage::ReadingTemplate && action is ReadTemplate
        } else {
            next == SetupStage::Over && stops_with(action, "❌ Build failed"@)
        },
        (SetupStage::ReadingTemplate, SetupEvent::TemplateRead(t)) => {
            &&& next == SetupStage::WritingManifest
            &&& action matches SetupAction::WriteManifest(m) && m@ == replace_all(
                t@,
                binary_placeholder(),
                paths.exe@,
            )
        },
        (SetupStage::WritingManifest, SetupEvent::ManifestWritten) => {
            &&& next == SetupStage::Registering
            &&& runs_powershell(
                action,
                registration_script_spec(paths.extension@, paths.extension_manifest@),
            )
        },
        (SetupStage::Registering, SetupEvent::Ran(ok)) => {
            &&& next == SetupStage::Over
            &&& if ok {
                action matches SetupAction::Finish(Ok(_))
            } else {
                stops_with(action, "❌ Failed to register Chrome extension"@)
            }
        },
        _ => false,
    }
}

/// One step of the command-line install (see `setup_step_ok`).
pub fn setup_step(paths: &SetupPaths, stage: SetupStage, event: SetupEvent) -> (r: (
    SetupStage,
    SetupAction,
))
    requires
        setup_accepts(stage, event),
    ensures
        setup_step_ok(*paths, stage, event, r.0, r.1),
{
    match event {
        SetupEvent::Begin => {
            let url = source_url();
            (
                SetupStage::Downloading,
                SetupAction::PowerShell(download_command(url.as_str(), paths.zip.as_str())),
            )
        },
        SetupEvent::Ran(ok) => match stage {
            SetupStage::Downloading => if ok {
                (
                    SetupStage::Expanding,
                    SetupAction::PowerShell(
                        expand_command(paths.zip.as_str(), paths.temp.as_str()),
                    ),
                )
            } else {
                (SetupStage::Over, SetupAction::Finish(Err(String::from_str("❌ Download failed"))))
            },
            SetupStage::Expanding => if ok {
                (SetupStage::Building, SetupAction::Build)
            } else {
                (SetupStage::Over, SetupAction::Finish(Err(String::from_str("❌ Extraction failed"))))
            },
            SetupStage::Building => if ok {
                (SetupStage::ReadingTemplate, SetupAction::ReadTemplate)
            } else {
                (SetupStage::Over, SetupAction::Finish(Err(String::from_str("❌ Build failed"))))
            },
            _ => if ok {
                (SetupStage::Over, SetupAction::Finish(Ok(())))
            } else {
                (
                    SetupStage::Over,
                    SetupAction::Finish(
                        Err(String::from_str("❌ Failed to register Chrome extension")),
                    ),
                )
            },
        },
        SetupEvent::TemplateRead(t) => (
            SetupStage::WritingManifest,
            SetupAction::WriteManifest(fill_manifest_template(t.as_str(), paths.exe.as_str())),
        ),
        SetupEvent::ManifestWritten => (
            SetupStage::Registering,
            SetupAction::PowerShell(
                extension_registration_script(
                    paths.extension.as_str(),
                    paths.extension_manifest.as_str(),
                ),
            ),
        ),
    }
}

/// The order in which the stages of the command-line install are passed.
pub open spec fn setup_rank(stage: SetupStage) -> int {
    match stage {
        SetupStage::Start => 0,
        SetupStage::Downloading => 1,
        SetupStage::Expanding => 2,
        SetupStage::Building => 3,
        SetupStage::ReadingTemplate => 4,
        SetupStage::WritingManifest => 5,
        SetupStage::Registering => 6,
        SetupStage::Over => 7,
    }
}

/// Every step moves the command-line install forward and asks for `Finish`
/// exactly when it reaches `Over`; so it ends after at most seven steps, and
/// a failed command ends it at once.
pub proof fn lemma_setup_step_progress(
    paths: SetupPaths,
    stage: SetupStage,
    event: SetupEvent,
    next: SetupStage,
    action: SetupAction,
)
    requires
        setup_step_ok(paths, stage, event, next, action),
    ensures
        setup_rank(next) > setup_rank(stage),
        (next == SetupStage::Over) <==> (action is Finish),
        event == SetupEvent::Ran(false) ==> action is Finish,
{
}

} // verus!
