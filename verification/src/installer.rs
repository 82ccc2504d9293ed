//! The graphical installer: its window state, and the install procedure as a
//! machine that names each file-system or registry operation for the window
//! to perform and is told how it went.
use vstd::prelude::*;
use vstd::string::StringExecFns;
use crate::utf8::{lossy_text, utf8_lossy};

verus! {

/// The text of a line in the progress log: a small orange diamond, a space, the message.
pub open spec fn log_entry(msg: Seq<char>) -> Seq<char> {
    "🔸 "@ + msg
}

/// The window state as plain values.
pub struct ProgressView {
    pub logs: Seq<Seq<char>>,
    pub finished: bool,
    pub failed: bool,
    pub error_message: Option<Seq<char>>,
}

/// `s` with one more log line for `msg`.
pub open spec fn logged(s: ProgressView, msg: Seq<char>) -> ProgressView {
    ProgressView { logs: s.logs.push(log_entry(msg)), ..s }
}

/// The installer's window: its log lines, whether the install ended well or
/// badly, and the message shown when it failed.
pub struct InstallerApp {
    pub logs: Vec<String>,
    pub finished: bool,
    pub failed: bool,
    pub error_message: Option<String>,
}

impl View for InstallerApp {
    type V = ProgressView;

    open spec fn view(&self) -> ProgressView {
        ProgressView {
            logs: self.logs.deep_view(),
            finished: self.finished,
            failed: self.failed,
            error_message: self.error_message.deep_view(),
        }
    }
}

/// The installer runs when nothing has been logged and it has neither finished nor failed.
pub open spec fn runs_install(s: ProgressView) -> bool {
    s.logs.len() == 0 && !s.finished && !s.failed
}

/// The message shown for a failed install.
pub open spec fn install_failure_message(e: Seq<char>) -> Seq<char> {
    "⚠️ インストール失敗: "@ + e
}

/// `s` once the install has ended with `outcome`.
pub open spec fn install_ended(s: ProgressView, outcome: Result<(), Seq<char>>) -> ProgressView {
    match outcome {
        Ok(_) => ProgressView { finished: true, ..s },
        Err(e) => ProgressView {
            failed: true,
            error_message: Some(install_failure_message(e)),
            ..s
        },
    }
}

/// The window offers its close button once the work has ended either way.
pub open spec fn offers_close(s: ProgressView) -> bool {
    s.finished || s.failed
}

impl Default for InstallerApp {
    fn default() -> (app: Self)
        ensures
            app@.logs.len() == 0,
            !app@.finished,
            !app@.failed,
            app@.error_message is None,
    {
        let app = InstallerApp { logs: Vec::new(), finished: false, failed: false, error_message: None };
        assert(app@.logs =~= Seq::<Seq<char>>::empty());
        app
    }
}

impl InstallerApp {
    /// Appends a line for `msg` to the log.
    pub fn log(&mut self, msg: &str)
        ensures
            final(self)@ == logged(old(self)@, msg@),
    {
        let mut line = String::from_str("🔸 ");
        line.append(msg);
        let ghost before = self.logs.deep_view();
        self.logs.push(line);
        assert(self.logs.deep_view() =~= before.push(log_entry(msg@)));
    }

    /// Whether this frame of the window starts the install.
    pub fn should_run_install(&self) -> (b: bool)
        ensures
            b == runs_install(self@),
    {
        self.logs.len() == 0 && !self.finished && !self.failed
    }

    /// Records how the install ended.
    pub fn finish_install(&mut self, outcome: &Result<(), String>)
        ensures
            final(self)@ == install_ended(
                old(self)@,
                match outcome {
                    Ok(_) => Ok(()),
                    Err(e) => Err(e@),
                },
            ),
    {
        match outcome {
            Ok(_) => {
                self.finished = true;
            },
            Err(e) => {
                self.failed = true;
                let mut m = String::from_str("⚠️ インストール失敗: ");
                m.append(e.as_str());
                self.error_message = Some(m);
            },
        }
    }

    /// Whether the window shows the buttons that open Chrome's extension
    /// page and the installed extension folder: once the install has finished well.
    pub fn shows_open_buttons(&self) -> (b: bool)
        ensures
            b == self@.finished,
    {
        self.finished
    }

    /// Whether the window shows its close button.
    pub fn shows_close(&self) -> (b: bool)
        ensures
            b == offers_close(self@),
    {
        self.finished || self.failed
    }
}

/// Once a line has been logged the install is never started again.
pub proof fn lemma_no_rerun_after_log(s: ProgressView, msg: Seq<char>)
    ensures
        !runs_install(logged(s, msg)),
{
}

/// Once the install has ended it is never started again, and the window
/// offers its close button.
pub proof fn lemma_no_rerun_after_end(s: ProgressView, outcome: Result<(), Seq<char>>)
    ensures
        !runs_install(install_ended(s, outcome)),
        offers_close(install_ended(s, outcome)),
        install_ended(s, outcome).logs == s.logs,
{
}

/// Where the host is installed.
pub open spec fn install_dir_path() -> Seq<char> {
    "C:\\Program Files\\primevideo-discord-presence"@
}

/// The path of the file `name` in the install folder (Windows separator).
pub open spec fn in_install_dir(name: Seq<char>) -> Seq<char> {
    install_dir_path() + "\\"@ + name
}

/// The browser extension's id.
pub open spec fn extension_id() -> Seq<char> {
    "hjngoljbakohoejlcikpfgfmcdjhgppe"@
}

/// The name under which Chrome knows the native host.
pub open spec fn host_name() -> Seq<char> {
    "com.pvdp.discord.presence"@
}

/// The install folder.
pub fn install_dir() -> (d: String)
    ensures
        d@ == install_dir_path(),
{
    String::from_str("C:\\Program Files\\primevideo-discord-presence")
}

/// The path of the file `name` in the install folder.
pub fn install_file(name: &str) -> (p: String)
    ensures
        p@ == in_install_dir(name@),
{
    let mut p = install_dir();
    p.append("\\");
    p.append(name);
    p
}

/// The native messaging host manifest that Chrome reads: the host's name, a
/// description, the program to start, how to talk to it, and the extension
/// allowed to start it.
pub struct NativeHostManifest {
    pub name: String,
    pub description: String,
    pub path: String,
    pub kind: String,
    pub allowed_origins: Vec<String>,
}

/// The manifest written into the install folder.
pub open spec fn is_host_manifest(m: NativeHostManifest) -> bool {
    &&& m.name@ == host_name()
    &&& m.description@ == "PVDP Native Host"@
    &&& m.path@ == in_install_dir("pvdp.exe"@)
    &&& m.kind@ == "stdio"@
    &&& m.allowed_origins.deep_view() == seq!["chrome-extension://"@ + extension_id() + "/"@]
}

/// Builds the host manifest.
pub fn host_manifest() -> (m: NativeHostManifest)
    ensures
        is_host_manifest(m),
{
    let mut origin = String::from_str("chrome-extension://");
    origin.append("hjngoljbakohoejlcikpfgfmcdjhgppe");
    origin.append("/");
    let mut origins: Vec<String> = Vec::new();
    origins.push(origin);
    let m = NativeHostManifest {
        name: String::from_str("com.pvdp.discord.presence"),
        description: String::from_str("PVDP Native Host"),
        path: install_file("pvdp.exe"),
        kind: String::from_str("stdio"),
        allowed_origins: origins,
    };
    assert(m.allowed_origins.deep_view() =~= seq![
        "chrome-extension://"@ + extension_id() + "/"@,
    ]);
    m
}

/// The arguments of the `reg` call that registers the manifest for Chrome.
pub open spec fn registration_args_spec(manifest_path: Seq<char>) -> Seq<Seq<char>> {
    seq![
        "add"@,
        "HKCU\\Software\\Google\\Chrome\\NativeMessagingHosts\\com.pvdp.discord.presence"@,
        "/t"@,
        "REG_SZ"@,
        "/d"@,
        manifest_path,
        "/f"@,
    ]
}

/// Builds the arguments of the registering `reg` call.
pub fn registration_args(manifest_path: &str) -> (args: Vec<String>)
    ensures
        args.deep_view() == registration_args_spec(manifest_path@),
{
    let mut args: Vec<String> = Vec::new();
    args.push(String::from_str("add"));
    args.push(
        String::from_str(
            "HKCU\\Software\\Google\\Chrome\\NativeMessagingHosts\\com.pvdp.discord.presence",
        ),
    );
    args.push(String::from_str("/t"));
    args.push(String::from_str("REG_SZ"));
    args.push(String::from_str("/d"));
    args.push(String::from_str(manifest_path));
    args.push(String::from_str("/f"));
    assert(args.deep_view() =~= registration_args_spec(manifest_path@));
    args
}

/// The call that opens Chrome's extension page: `cmd /C start chrome chrome://extensions`.
pub fn extensions_page_command() -> (c: (String, Vec<String>))
    ensures
        c.0@ == "cmd"@,
        c.1.deep_view() == seq!["/C"@, "start chrome chrome://extensions"@],
{
    let mut args: Vec<String> = Vec::new();
    args.push(String::from_str("/C"));
    args.push(String::from_str("start chrome chrome://extensions"));
    assert(args.deep_view() =~= seq!["/C"@, "start chrome chrome://extensions"@]);
    (String::from_str("cmd"), args)
}

/// The call that opens the installed extension folder:
/// `explorer <install folder>\extension`.
pub fn extension_folder_command() -> (c: (String, Vec<String>))
    ensures
        c.0@ == "explorer"@,
        c.1.deep_view() == seq![in_install_dir("extension"@)],
{
    let mut args: Vec<String> = Vec::new();
    args.push(install_file("extension"));
    assert(args.deep_view() =~= seq![in_install_dir("extension"@)]);
    (String::from_str("explorer"), args)
}

/// What a finished child process reported: whether it exited successfully,
/// and what it wrote to its error stream.
pub struct CommandOutput {
    pub success: bool,
    pub stderr: Vec<u8>,
}

/// Where the install procedure stands.
#[derive(PartialEq, Eq, Structural, Clone, Copy, Debug)]
pub enum InstallStage {
    Start,
    CheckingOldDir,
    RemovingOldDir,
    CreatingDir,
    PlacingProgram,
    PlacingExtension,
    WritingManifest,
    Registering,
    Over,
}

/// What the window reports back to the install procedure.
pub enum InstallEvent {
    /// The window starts the install.
    Begin,
    /// Whether the install folder exists.
    OldDirExists(bool),
    /// How removing the old install folder went (the error's text).
    OldDirRemoved(Result<(), String>),
    /// How creating the install folder went.
    DirCreated(Result<(), String>),
    /// How placing the last payload item asked for went.
    PayloadPlaced(Result<(), String>),
    /// How writing the manifest went.
    ManifestWritten(Result<(), String>),
    /// What the `reg` call reported, or why it could not run.
    RegistryRan(Result<CommandOutput, String>),
}

/// What the install procedure asks of the window.
pub enum InstallAction {
    /// Tell whether this folder exists.
    CheckOldDir(String),
    /// Remove this folder and everything in it.
    RemoveOldDir(String),
    /// Create this folder and its parents.
    CreateDir(String),
    /// Copy the payload item of this name (a file, or a folder with all it
    /// holds), shipped with the installer, to this path.
    PlacePayload(String, String),
    /// Write this manifest, as pretty-printed JSON, to this path.
    WriteManifest(String, NativeHostManifest),
    /// Run this program with these arguments and collect its output.
    RunCommand(String, Vec<String>),
    /// The install is over, with this outcome.
    Finish(Result<(), String>),
}

/// The events that each stage waits for.
pub open spec fn install_accepts(stage: InstallStage, event: InstallEvent) -> bool {
    match stage {
        InstallStage::Start => event is Begin,
        InstallStage::CheckingOldDir => event is OldDirExists,
        InstallStage::RemovingOldDir => event is OldDirRemoved,
        InstallStage::CreatingDir => event is DirCreated,
        InstallStage::PlacingProgram => event is PayloadPlaced,
        InstallStage::PlacingExtension => event is PayloadPlaced,
        InstallStage::WritingManifest => event is ManifestWritten,
        InstallStage::Registering => event is RegistryRan,
        InstallStage::Over => false,
    }
}

/// The action asks for the install folder to be created.
pub open spec fn creates_install_dir(a: InstallAction) -> bool {
    a matches InstallAction::CreateDir(d) && d@ == install_dir_path()
}

/// The action copies the payload item `item` to the same name in the install folder.
pub open spec fn places(a: InstallAction, item: Seq<char>) -> bool {
    a matches InstallAction::PlacePayload(i, d) && i@ == item && d@ == in_install_dir(item)
}

/// The action ends the install with the error text `e`.
pub open spec fn fails_with(a: InstallAction, e: Seq<char>) -> bool {
    a matches InstallAction::Finish(Err(m)) && m@ == e
}

/// One step of the install procedure: from `before` in `stage`, on `event`,
/// the window state becomes `after`, the stage `next`, and `action` is asked for.
pub open spec fn install_step_ok(
    before: ProgressView,
    stage: InstallStage,
    event: InstallEvent,
    after: ProgressView,
    next: InstallStage,
    action: InstallAction,
) -> bool {
    match (stage, event) {
        (InstallStage::Start, InstallEvent::Begin) => {
            &&& after == logged(before, "🧹 旧インストール内容の削除を試みます..."@)
            &&& next == InstallStage::CheckingOldDir
            &&& action matches InstallAction::CheckOldDir(d) && d@ == install_dir_path()
        },
        (InstallStage::CheckingOldDir, InstallEvent::OldDirExists(exists)) => {
            &&& after == before
            &&& if exists {
                &&& next == InstallStage::RemovingOldDir
                &&& action matches InstallAction::RemoveOldDir(d) && d@ == install_dir_path()
            } else {
                next == InstallStage::CreatingDir && creates_install_dir(action)
            }
        },
        (InstallStage::RemovingOldDir, InstallEvent::OldDirRemoved(r)) => {
            &&& after == match r {
                Ok(_) => logged(before, "✔️ 旧フォルダ削除成功"@),
                Err(e) => logged(before, "⚠️ 削除失敗: "@ + e@),
            }
            &&& next == InstallStage::CreatingDir
            &&& creates_install_dir(action)
        },
        (InstallStage::CreatingDir, InstallEvent::DirCreated(r)) => match r {
            Ok(_) => {
                &&& after == logged(before, "📁 インストールディレクトリを作成"@)
                &&& next == InstallStage::PlacingProgram
                &&& places(action, "pvdp.exe"@)
            },
            Err(e) => after == before && next == InstallStage::Over && fails_with(action, e@),
        },
        (InstallStage::PlacingProgram, InstallEvent::PayloadPlaced(r)) => match r {
            Ok(_) => {
                &&& after == logged(before, "📦 本体ファイルを展開しました"@)
                &&& next == InstallStage::PlacingExtension
                &&& places(action, "extension"@)
            },
            Err(e) => after == before && next == InstallStage::Over && fails_with(action, e@),
        },
        (InstallStage::PlacingExtension, InstallEvent::PayloadPlaced(r)) => match r {
            Ok(_) => {
                &&& after == logged(
                    logged(before, "🧩 extension フォルダを追加しました"@),
                    "📝 NativeMessaging マニフェストを作成中..."@,
                )
                &&& next == InstallStage::WritingManifest
                &&& action matches InstallAction::WriteManifest(p, m) && p@ == in_install_dir(
                    "com.pvdp.discord.presence.json"@,
                ) && is_host_manifest(m)
            },
            Err(e) => after == before && next == InstallStage::Over && fails_with(action, e@),
        },
        (InstallStage::WritingManifest, InstallEvent::ManifestWritten(r)) => match r {
            Ok(_) => {
                &&& after == logged(
                    logged(before, "✅ NativeMessaging マニフェスト生成完了"@),
                    "🪟 レジストリへ登録中..."@,
                )
                &&& next == InstallStage::Registering
                &&& action matches InstallAction::RunCommand(prog, args) && prog@ == "reg"@
                    && args.deep_view() == registration_args_spec(
                    in_install_dir("com.pvdp.discord.presence.json"@),
                )
            },
            Err(e) => after == before && next == InstallStage::Over && fails_with(action, e@),
        },
        (InstallStage::Registering, InstallEvent::RegistryRan(r)) => {
            &&& next == InstallStage::Over
            &&& match r {
                Err(e) => after == before && fails_with(action, e@),
                Ok(out) => if out.success {
                    after == logged(before, "✅ レジストリ登録完了"@) && action matches InstallAction::Finish(
                        Ok(_),
                    )
                } else {
                    after == before && fails_with(
                        action,
                        "レジストリ登録失敗: "@ + utf8_lossy(out.stderr@),
                    )
                },
            }
        },
        _ => false,
    }
}

/// The request to copy the payload item `item` into the install folder.
fn place(item: &str) -> (a: InstallAction)
    ensures
        places(a, item@),
{
    InstallAction::PlacePayload(String::from_str(item), install_file(item))
}

impl InstallerApp {
    /// One step of the install procedure (see `install_step_ok`).
    pub fn install_step(&mut self, stage: InstallStage, event: InstallEvent) -> (r: (
        InstallStage,
        InstallAction,
    ))
        requires
            install_accepts(stage, event),
        ensures
            install_step_ok(old(self)@, stage, event, final(self)@, r.0, r.1),
    {
        match event {
            InstallEvent::Begin => {
                self.log("🧹 旧インストール内容の削除を試みます...");
                (InstallStage::CheckingOldDir, InstallAction::CheckOldDir(install_dir()))
            },
            InstallEvent::OldDirExists(exists) => {
                if exists {
                    (InstallStage::RemovingOldDir, InstallAction::RemoveOldDir(install_dir()))
                } else {
                    (InstallStage::CreatingDir, InstallAction::CreateDir(install_dir()))
                }
            },
            InstallEvent::OldDirRemoved(r) => {
                match r {
                    Ok(_) => self.log("✔️ 旧フォルダ削除成功"),
                    Err(e) => {
                        let mut m = String::from_str("⚠️ 削除失敗: ");
                        m.append(e.as_str());
                        self.log(m.as_str());
                    },
                }
                (InstallStage::CreatingDir, InstallAction::CreateDir(install_dir()))
            },
            InstallEvent::DirCreated(r) => match r {
                Ok(_) => {
                    self.log("📁 インストールディレクトリを作成");
                    (InstallStage::PlacingProgram, place("pvdp.exe"))
                },
                Err(e) => (InstallStage::Over, InstallAction::Finish(Err(e))),
            },
            InstallEvent::PayloadPlaced(r) => match r {
                Err(e) => (InstallStage::Over, InstallAction::Finish(Err(e))),
                Ok(_) => {
                    if stage == InstallStage::PlacingProgram {
                        self.log("📦 本体ファイルを展開しました");
                        (InstallStage::PlacingExtension, place("extension"))
                    } else {
                        self.log("🧩 extension フォルダを追加しました");
                        self.log("📝 NativeMessaging マニフェストを作成中...");
                        (
                            InstallStage::WritingManifest,
                            InstallAction::WriteManifest(
                                install_file("com.pvdp.discord.presence.json"),
                                host_manifest(),
                            ),
                        )
                    }
                },
            },
            InstallEvent::ManifestWritten(r) => match r {
                Ok(_) => {
                    self.log("✅ NativeMessaging マニフェスト生成完了");
                    self.log("🪟 レジストリへ登録中...");
                    let path = install_file("com.pvdp.discord.presence.json");
                    (
                        InstallStage::Registering,
                        InstallAction::RunCommand(
                            String::from_str("reg"),
                            registration_args(path.as_str()),
                        ),
                    )
                },
                Err(e) => (InstallStage::Over, InstallAction::Finish(Err(e))),
            },
            InstallEvent::RegistryRan(r) => match r {
                Err(e) => (InstallStage::Over, InstallAction::Finish(Err(e))),
                Ok(out) => {
                    if out.success {
                        self.log("✅ レジストリ登録完了");
                        (InstallStage::Over, InstallAction::Finish(Ok(())))
                    } else {
                        let mut m = String::from_str("レジストリ登録失敗: ");
                        let stderr = lossy_text(out.stderr.as_slice());
                        m.append(stderr.as_str());
                        (InstallStage::Over, InstallAction::Finish(Err(m)))
                    }
                },
            },
        }
    }
}

/// The order in which the install stages are passed.
pub open spec fn install_rank(stage: InstallStage) -> int {
    match stage {
        InstallStage::Start => 0,
        InstallStage::CheckingOldDir => 1,
        InstallStage::RemovingOldDir => 2,
        InstallStage::CreatingDir => 3,
        InstallStage::PlacingProgram => 4,
        InstallStage::PlacingExtension => 5,
        InstallStage::WritingManifest => 6,
        InstallStage::Registering => 7,
        InstallStage::Over => 8,
    }
}

/// Every step moves the install forward, only ever adds log lines, and asks
/// for `Finish` exactly when it reaches `Over`; so the procedure ends after at
/// most eight steps, with one outcome.
pub proof fn lemma_install_step_progress(
    before: ProgressView,
    stage: InstallStage,
    event: InstallEvent,
    after: ProgressView,
    next: InstallStage,
    action: InstallAction,
)
    requires
        install_step_ok(before, stage, event, after, next, action),
    ensures
        install_rank(next) > install_rank(stage),
        (next == InstallStage::Over) <==> (action is Finish),
        after.logs.len() >= before.logs.len(),
        after.logs.subrange(0, before.logs.len() as int) == before.logs,
        after.finished == before.finished && after.failed == before.failed,
{
    assert(after.logs.subrange(0, before.logs.len() as int) =~= before.logs);
}

/// A line of the progress log: the diamond marker followed by a message.
pub open spec fn is_entry(l: Seq<char>) -> bool {
    exists|m: Seq<char>| l == #[trigger] log_entry(m)
}

/// `after` keeps the log of `before` as its beginning, adds only progress-log
/// lines, and leaves the outcome (finished, failed, message) as it was.
pub open spec fn extends_log(before: ProgressView, after: ProgressView) -> bool {
    &&& before.logs.len() <= after.logs.len()
    &&& after.logs.subrange(0, before.logs.len() as int) == before.logs
    &&& forall|k: int| before.logs.len() <= k < after.logs.len() ==> is_entry(#[trigger] after.logs[k])
    &&& after.finished == before.finished
    &&& after.failed == before.failed
    &&& after.error_message == before.error_message
}

pub proof fn lemma_extends_refl(s: ProgressView)
    ensures
        extends_log(s, s),
{
    assert(s.logs.subrange(0, s.logs.len() as int) =~= s.logs);
}

pub proof fn lemma_logged_extends(s: ProgressView, m: Seq<char>)
    ensures
        extends_log(s, logged(s, m)),
{
    let t = logged(s, m);
    assert(t.logs.subrange(0, s.logs.len() as int) =~= s.logs);
    assert(is_entry(log_entry(m)));
    assert(t.logs[s.logs.len() as int] == log_entry(m));
}

pub proof fn lemma_extends_trans(a: ProgressView, b: ProgressView, c: ProgressView)
    requires
        extends_log(a, b),
        extends_log(b, c),
    ensures
        extends_log(a, c),
{
    assert(c.logs.subrange(0, a.logs.len() as int) =~= b.logs.subrange(0, a.logs.len() as int));
    assert forall|k: int| a.logs.len() <= k < c.logs.len() implies is_entry(#[trigger] c.logs[k]) by {
        if k < b.logs.len() {
            assert(c.logs.subrange(0, b.logs.len() as int)[k] == b.logs[k]);
        }
    }
}

/// A state reached from `before` by logging nothing, one line or two lines.
pub proof fn lemma_extends_by_lines(before: ProgressView, after: ProgressView)
    requires
        after == before || (exists|x: Seq<char>| #[trigger] logged(before, x) == after) || (exists|
            x: Seq<char>,
            y: Seq<char>,
        | #[trigger] logged(logged(before, x), y) == after),
    ensures
        extends_log(before, after),
{
    if after == before {
        lemma_extends_refl(before);
    } else if exists|x: Seq<char>| #[trigger] logged(before, x) == after {
        let x = choose|x: Seq<char>| #[trigger] logged(before, x) == after;
        lemma_logged_extends(before, x);
    } else {
        let (x, y) = choose|x: Seq<char>, y: Seq<char>| #[trigger] logged(logged(before, x), y) == after;
        lemma_logged_extends(before, x);
        lemma_logged_extends(logged(before, x), y);
        lemma_extends_trans(before, logged(before, x), after);
    }
}

/// One install step only appends progress-log lines and keeps the outcome fields.
pub proof fn lemma_install_step_extends(
    before: ProgressView,
    stage: InstallStage,
    event: InstallEvent,
    after: ProgressView,
    next: InstallStage,
    action: InstallAction,
)
    requires
        install_step_ok(before, stage, event, after, next, action),
    ensures
        extends_log(before, after),
{
    assert(after == before || (exists|x: Seq<char>| #[trigger] logged(before, x) == after) || (exists|
        x: Seq<char>,
        y: Seq<char>,
    | #[trigger] logged(logged(before, x), y) == after));
    lemma_extends_by_lines(before, after);
}

/// A run of the install procedure: `states[i]`, `stages[i]` become
/// `states[i + 1]`, `stages[i + 1]` on `events[i]`, asking for `actions[i]`.
pub open spec fn install_run(
    states: Seq<ProgressView>,
    stages: Seq<InstallStage>,
    events: Seq<InstallEvent>,
    actions: Seq<InstallAction>,
) -> bool {
    &&& states.len() == events.len() + 1
    &&& stages.len() == events.len() + 1
    &&& actions.len() == events.len()
    &&& forall|i: int|
        0 <= i < events.len() ==> install_step_ok(
            #[trigger] states[i],
            stages[i],
            events[i],
            states[i + 1],
            stages[i + 1],
            actions[i],
        )
}

proof fn lemma_install_run_prefix(
    states: Seq<ProgressView>,
    stages: Seq<InstallStage>,
    events: Seq<InstallEvent>,
    actions: Seq<InstallAction>,
    k: int,
)
    requires
        install_run(states, stages, events, actions),
        0 <= k <= events.len(),
    ensures
        install_rank(stages[k]) >= install_rank(stages[0]) + k,
        extends_log(states[0], states[k]),
        forall|i: int| 0 <= i < k ==> ((#[trigger] actions[i] is Finish) <==> stages[i + 1] == InstallStage::Over),
    decreases k,
{
    if k == 0 {
        lemma_extends_refl(states[0]);
    } else {
        lemma_install_run_prefix(states, stages, events, actions, k - 1);
        assert(install_step_ok(states[k - 1], stages[k - 1], events[k - 1], states[k], stages[k], actions[k - 1]));
        lemma_install_step_progress(states[k - 1], stages[k - 1], events[k - 1], states[k], stages[k], actions[k - 1]);
        lemma_install_step_extends(states[k - 1], stages[k - 1], events[k - 1], states[k], stages[k], actions[k - 1]);
        lemma_extends_trans(states[0], states[k - 1], states[k]);
    }
}

/// A whole install run from the start: it takes at most eight steps, only
/// appends progress-log lines and keeps the outcome fields, and asks for
/// `Finish` once, as its last action, exactly when it has reached `Over`.
pub proof fn lemma_install_run(
    states: Seq<ProgressView>,
    stages: Seq<InstallStage>,
    events: Seq<InstallEvent>,
    actions: Seq<InstallAction>,
)
    requires
        install_run(states, stages, events, actions),
        stages[0] == InstallStage::Start,
    ensures
        events.len() <= 8,
        extends_log(states[0], states.last()),
        forall|i: int| 0 <= i < actions.len() - 1 ==> !(#[trigger] actions[i] is Finish),
        (stages.last() == InstallStage::Over) <==> (actions.len() > 0 && actions.last() is Finish),
{
    let n = events.len() as int;
    lemma_install_run_prefix(states, stages, events, actions, n);
    assert forall|i: int| 0 <= i < actions.len() - 1 implies !(#[trigger] actions[i] is Finish) by {
        if actions[i] is Finish {
            assert(stages[i + 1] == InstallStage::Over);
            assert(install_step_ok(states[i + 1], stages[i + 1], events[i + 1], states[i + 2], stages[i + 2], actions[i + 1]));
        }
    }
}

/// An install that ends well has, in this order, created the install folder,
/// placed `pvdp.exe` there, placed the `extension` folder there, written the
/// manifest that points at the placed program, and registered that manifest:
/// the program and the extension are in place before the manifest is written.
pub proof fn lemma_install_success_order(
    states: Seq<ProgressView>,
    stages: Seq<InstallStage>,
    events: Seq<InstallEvent>,
    actions: Seq<InstallAction>,
)
    requires
        install_run(states, stages, events, actions),
        stages[0] == InstallStage::Start,
        actions.len() > 0,
        actions.last() matches InstallAction::Finish(Ok(_)),
    ensures
        actions.len() >= 6,
        creates_install_dir(actions[actions.len() - 6]),
        places(actions[actions.len() - 5], "pvdp.exe"@),
        events[actions.len() - 4] matches InstallEvent::PayloadPlaced(Ok(_)),
        places(actions[actions.len() - 4], "extension"@),
        events[actions.len() - 3] matches InstallEvent::PayloadPlaced(Ok(_)),
        actions[actions.len() - 3] matches InstallAction::WriteManifest(p, m) && p@ == in_install_dir(
            "com.pvdp.discord.presence.json"@,
        ) && is_host_manifest(m),
        actions[actions.len() - 2] matches InstallAction::RunCommand(prog, args) && prog@ == "reg"@
            && args.deep_view() == registration_args_spec(
            in_install_dir("com.pvdp.discord.presence.json"@),
        ),
        stages.last() == InstallStage::Over,
{
    let n = actions.len() as int;
    assert(install_step_ok(states[n - 1], stages[n - 1], events[n - 1], states[n], stages[n], actions[n - 1]));
    assert(stages[n - 1] == InstallStage::Registering);
    assert(n - 1 >= 1);
    assert(install_step_ok(states[n - 2], stages[n - 2], events[n - 2], states[n - 1], stages[n - 1], actions[n - 2]));
    assert(stages[n - 2] == InstallStage::WritingManifest);
    assert(n - 2 >= 1);
    assert(install_step_ok(states[n - 3], stages[n - 3], events[n - 3], states[n - 2], stages[n - 2], actions[n - 3]));
    assert(stages[n - 3] == InstallStage::PlacingExtension);
    assert(n - 3 >= 1);
    assert(install_step_ok(states[n - 4], stages[n - 4], events[n - 4], states[n - 3], stages[n - 3], actions[n - 4]));
    assert(stages[n - 4] == InstallStage::PlacingProgram);
    assert(n - 4 >= 1);
    assert(install_step_ok(states[n - 5], stages[n - 5], events[n - 5], states[n - 4], stages[n - 4], actions[n - 5]));
    assert(stages[n - 5] == InstallStage::CreatingDir);
    assert(n - 5 >= 1);
    assert(install_step_ok(states[n - 6], stages[n - 6], events[n - 6], states[n - 5], stages[n - 5], actions[n - 6]));
}

/// The window state between frames: never both finished and failed, a message
/// exactly when failed, and an empty log until the install has ended.
pub open spec fn install_window_ok(s: ProgressView) -> bool {
    &&& !(s.finished && s.failed)
    &&& s.failed == (s.error_message is Some)
    &&& (s.finished || s.failed || s.logs.len() == 0)
}

/// One frame of the window: when the install is due it runs, taking the state
/// to `mid`, and ends with `outcome`; otherwise nothing changes.
pub open spec fn install_frame(s: ProgressView, mid: ProgressView, outcome: Result<(), Seq<char>>) -> ProgressView {
    if runs_install(s) {
        install_ended(mid, outcome)
    } else {
        s
    }
}

/// The window starts in a good state.
pub proof fn lemma_install_window_start(s: ProgressView)
    requires
        s.logs.len() == 0,
        !s.finished,
        !s.failed,
        s.error_message is None,
    ensures
        install_window_ok(s),
        runs_install(s),
{
}

/// A frame keeps the window state good; a frame that runs the install ends
/// finished exactly on `Ok` and failed with its message exactly on `Err`; and
/// after any frame the install is not due again.
pub proof fn lemma_install_frame(s: ProgressView, mid: ProgressView, outcome: Result<(), Seq<char>>)
    requires
        install_window_ok(s),
        runs_install(s) ==> extends_log(s, mid),
    ensures
        install_window_ok(install_frame(s, mid, outcome)),
        !runs_install(install_frame(s, mid, outcome)),
        !runs_install(s) ==> install_frame(s, mid, outcome) == s,
        runs_install(s) ==> {
            &&& install_frame(s, mid, outcome).finished == (outcome is Ok)
            &&& install_frame(s, mid, outcome).failed == (outcome is Err)
            &&& outcome matches Err(e) ==> install_frame(s, mid, outcome).error_message == Some(
                install_failure_message(e),
            )
        },
{
}

/// Over any number of frames from the initial state, the install runs in
/// the first frame only, every later frame leaves the state as it was, and
/// every state between frames is good.
pub proof fn lemma_install_frames(
    states: Seq<ProgressView>,
    mids: Seq<ProgressView>,
    outcomes: Seq<Result<(), Seq<char>>>,
)
    requires
        states.len() == mids.len() + 1,
        outcomes.len() == mids.len(),
        states[0].logs.len() == 0,
        !states[0].finished,
        !states[0].failed,
        states[0].error_message is None,
        forall|i: int|
            0 <= i < mids.len() ==> (runs_install(states[i]) ==> extends_log(states[i], #[trigger] mids[i])),
        forall|i: int|
            0 <= i < mids.len() ==> #[trigger] states[i + 1] == install_frame(states[i], mids[i], outcomes[i]),
    ensures
        forall|i: int| 0 <= i < states.len() ==> install_window_ok(#[trigger] states[i]),
        forall|i: int| 1 <= i < states.len() ==> !runs_install(#[trigger] states[i]),
        forall|i: int| 1 <= i < mids.len() ==> #[trigger] states[i + 1] == states[i],
    decreases mids.len(),
{
    if mids.len() > 0 {
        let n = mids.len() - 1;
        lemma_install_frames(states.drop_last(), mids.drop_last(), outcomes.drop_last());
        assert(states.drop_last()[n] == states[n]);
        assert(install_window_ok(states[n]));
        assert(mids[n] == mids[n]);
        lemma_install_frame(states[n], mids[n], outcomes[n]);
        assert(states[n + 1] == install_frame(states[n], mids[n], outcomes[n]));
        assert forall|i: int| 0 <= i < states.len() implies install_window_ok(#[trigger] states[i]) by {
            if i < n + 1 {
                assert(states.drop_last()[i] == states[i]);
            }
        }
        assert forall|i: int| 1 <= i < states.len() implies !runs_install(#[trigger] states[i]) by {
            if i < n + 1 {
                assert(states.drop_last()[i] == states[i]);
            }
        }
        assert forall|i: int| 1 <= i < mids.len() implies #[trigger] states[i + 1] == states[i] by {
            if i < n {
                assert(states.drop_last()[i + 1] == states[i + 1]);
                assert(states.drop_last()[i] == states[i]);
            }
        }
    }
}

/// The view of an install outcome.
pub open spec fn outcome_view(r: Result<(), String>) -> Result<(), Seq<char>> {
    match r {
        Ok(_) => Ok(()),
        Err(e) => Err(e@),
    }
}

/// One frame of the installer's window in progress: the window, the state it
/// had when the frame began, where the install stands, and how it ended.
/// The window only changes through the install's steps while the frame lasts.
pub struct InstallFrame {
    app: InstallerApp,
    stage: InstallStage,
    start: Ghost<ProgressView>,
    outcome: Option<Result<(), String>>,
}

impl InstallFrame {
    /// Where the install stands; `Over` once it has ended or when it was not due.
    pub closed spec fn frame_stage(self) -> InstallStage {
        self.stage
    }

    /// The window state when the frame began.
    pub closed spec fn start_view(self) -> ProgressView {
        self.start@
    }

    /// The window state now.
    pub closed spec fn app_view(self) -> ProgressView {
        self.app@
    }

    /// How the install ended, once it has.
    pub closed spec fn ended_with(self) -> Option<Result<(), Seq<char>>> {
        match self.outcome {
            Some(r) => Some(outcome_view(r)),
            None => None,
        }
    }

    #[verifier::type_invariant]
    closed spec fn frame_ok(self) -> bool {
        &&& extends_log(self.start@, self.app@)
        &&& self.outcome is Some ==> runs_install(self.start@) && self.stage == InstallStage::Over
        &&& self.stage != InstallStage::Over ==> runs_install(self.start@) && self.outcome is None
        &&& (self.stage == InstallStage::Over && self.outcome is None) ==> !runs_install(self.start@)
            && self.app@ == self.start@
    }

    /// Begins a frame: the install is due when the window has not started it yet.
    pub fn begin(app: InstallerApp) -> (f: InstallFrame)
        ensures
            f.start_view() == app@,
            f.app_view() == app@,
            f.frame_stage() == (if runs_install(app@) {
                InstallStage::Start
            } else {
                InstallStage::Over
            }),
            f.ended_with() is None,
    {
        let ghost s = app@;
        let due = app.should_run_install();
        proof {
            lemma_extends_refl(s);
        }
        InstallFrame {
            app,
            stage: if due {
                InstallStage::Start
            } else {
                InstallStage::Over
            },
            start: Ghost(s),
            outcome: None,
        }
    }

    /// Whether the install still waits for an event.
    pub fn due(&self) -> (b: bool)
        ensures
            b == (self.frame_stage() != InstallStage::Over),
    {
        self.stage != InstallStage::Over
    }

    /// Whether `event` is the one the install waits for.
    pub fn accepts(&self, event: &InstallEvent) -> (b: bool)
        ensures
            b == install_accepts(self.frame_stage(), *event),
    {
        match (self.stage, event) {
            (InstallStage::Start, InstallEvent::Begin) => true,
            (InstallStage::CheckingOldDir, InstallEvent::OldDirExists(_)) => true,
            (InstallStage::RemovingOldDir, InstallEvent::OldDirRemoved(_)) => true,
            (InstallStage::CreatingDir, InstallEvent::DirCreated(_)) => true,
            (InstallStage::PlacingProgram, InstallEvent::PayloadPlaced(_)) => true,
            (InstallStage::PlacingExtension, InstallEvent::PayloadPlaced(_)) => true,
            (InstallStage::WritingManifest, InstallEvent::ManifestWritten(_)) => true,
            (InstallStage::Registering, InstallEvent::RegistryRan(_)) => true,
            _ => false,
        }
    }

    /// One step of the install (see `install_step_ok`); the step that ends it
    /// records its outcome.
    pub fn step(self, event: InstallEvent) -> (r: (InstallFrame, InstallAction))
        requires
            install_accepts(self.frame_stage(), event),
        ensures
            install_step_ok(
                self.app_view(),
                self.frame_stage(),
                event,
                r.0.app_view(),
                r.0.frame_stage(),
                r.1,
            ),
            r.0.start_view() == self.start_view(),
            r.0.ended_with() == (match r.1 {
                InstallAction::Finish(o) => Some(outcome_view(o)),
                _ => None,
            }),
    {
        proof {
            use_type_invariant(&self);
        }
        let InstallFrame { mut app, stage, start, outcome } = self;
        let ghost before = app@;
        let (next, action) = app.install_step(stage, event);
        proof {
            lemma_install_step_extends(before, stage, event, app@, next, action);
            lemma_extends_trans(start@, before, app@);
            lemma_install_step_progress(before, stage, event, app@, next, action);
        }
        let ended = match &action {
            InstallAction::Finish(o) => Some(
                match o {
                    Ok(_) => Ok(()),
                    Err(e) => Err(e.clone()),
                },
            ),
            _ => None,
        };
        (InstallFrame { app, stage: next, start, outcome: ended }, action)
    }

    /// Ends the frame: records the install's outcome, if it ran, and gives the
    /// window back. The result is `install_frame` of the state at the start,
    /// over the steps' state that only added log lines to it.
    pub fn end(self) -> (app: InstallerApp)
        requires
            self.frame_stage() == InstallStage::Over,
        ensures
            extends_log(self.start_view(), self.app_view()),
            app@ == install_frame(
                self.start_view(),
                self.app_view(),
                match self.ended_with() {
                    Some(o) => o,
                    None => Ok(()),
                },
            ),
            install_window_ok(self.start_view()) ==> install_window_ok(app@),
            !runs_install(app@),
    {
        proof {
            use_type_invariant(&self);
        }
        let InstallFrame { mut app, stage, start, outcome } = self;
        match outcome {
            Some(o) => {
                app.finish_install(&o);
            },
            None => {},
        }
        proof {
            let o = match self.ended_with() {
                Some(o) => o,
                None => Ok(()),
            };
            if install_window_ok(start@) {
                lemma_install_frame(start@, self.app_view(), o);
            }
        }
        app
    }
}


/// Every folder or file that an install step names lies at the install
/// folder `C:\Program Files\primevideo-discord-presence`: the folder checked,
/// removed and created is that folder itself, a payload item goes to its own
/// name inside it, and the manifest written there points at `pvdp.exe`
/// inside it. An old folder that exists is removed; one that does not is
/// skipped straight to creating the folder.
pub proof fn lemma_install_step_paths(
    before: ProgressView,
    stage: InstallStage,
    event: InstallEvent,
    after: ProgressView,
    next: InstallStage,
    action: InstallAction,
)
    requires
        install_step_ok(before, stage, event, after, next, action),
    ensures
        action matches InstallAction::CheckOldDir(d) ==> d@
            == "C:\\Program Files\\primevideo-discord-presence"@,
        action matches InstallAction::RemoveOldDir(d) ==> d@
            == "C:\\Program Files\\primevideo-discord-presence"@,
        action matches InstallAction::CreateDir(d) ==> d@
            == "C:\\Program Files\\primevideo-discord-presence"@,
        action matches InstallAction::PlacePayload(i, d) ==> d@
            == "C:\\Program Files\\primevideo-discord-presence"@ + "\\"@ + i@,
        action matches InstallAction::WriteManifest(p, m) ==> p@
            == "C:\\Program Files\\primevideo-discord-presence"@ + "\\"@
            + "com.pvdp.discord.presence.json"@ && m.path@
            == "C:\\Program Files\\primevideo-discord-presence"@ + "\\"@ + "pvdp.exe"@,
        action matches InstallAction::WriteManifest(p, m) ==> m.name@ == "com.pvdp.discord.presence"@
            && m.kind@ == "stdio"@ && m.allowed_origins.deep_view() == seq![
            "chrome-extension://"@ + "hjngoljbakohoejlcikpfgfmcdjhgppe"@ + "/"@,
        ],
        action matches InstallAction::RunCommand(prog, args) ==> prog@ == "reg"@ && args.deep_view()
            == seq![
            "add"@,
            "HKCU\\Software\\Google\\Chrome\\NativeMessagingHosts\\com.pvdp.discord.presence"@,
            "/t"@,
            "REG_SZ"@,
            "/d"@,
            "C:\\Program Files\\primevideo-discord-presence"@ + "\\"@ + "com.pvdp.discord.presence.json"@,
            "/f"@,
        ],
        event == InstallEvent::OldDirExists(true) ==> action is RemoveOldDir,
        event == InstallEvent::OldDirExists(false) ==> action is CreateDir,
{
}

/// In every install run, each answer that an old install folder exists is
/// followed by the removal of exactly that folder.
pub proof fn lemma_install_run_removes_old_folder(
    states: Seq<ProgressView>,
    stages: Seq<InstallStage>,
    events: Seq<InstallEvent>,
    actions: Seq<InstallAction>,
)
    requires
        install_run(states, stages, events, actions),
    ensures
        forall|i: int|
            0 <= i < events.len() && #[trigger] events[i] == InstallEvent::OldDirExists(true)
                ==> (actions[i] matches InstallAction::RemoveOldDir(d) && d@
                == "C:\\Program Files\\primevideo-discord-presence"@),
{
    assert forall|i: int|
        0 <= i < events.len() && #[trigger] events[i] == InstallEvent::OldDirExists(true) implies (actions[i] matches InstallAction::RemoveOldDir(
            d,
        ) && d@ == "C:\\Program Files\\primevideo-discord-presence"@) by {
        assert(install_step_ok(states[i], stages[i], events[i], states[i + 1], stages[i + 1], actions[i]));
        lemma_install_step_paths(states[i], stages[i], events[i], states[i + 1], stages[i + 1], actions[i]);
    }
}

} // verus!
