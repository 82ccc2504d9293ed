//! The graphical uninstaller: its window state, the administrator check, and
//! the uninstall procedure as a machine that names each process, file-system
//! or registry operation for the window to perform and is told how it went.
use vstd::prelude::*;
use vstd::string::StringExecFns;
use crate::installer::{
    extends_log, is_entry, lemma_extends_by_lines, outcome_view, lemma_extends_refl, lemma_extends_trans,
    extension_id, in_install_dir, install_dir, install_dir_path, install_file, logged, log_entry,
    CommandOutput, ProgressView,
};
use crate::text::{
    chars_of, find, lemma_split_pieces_nonempty, line_at, line_count, lines_of, lowercase,
    lowercase_text, occurs_in, split_bounds, split_pieces,
};
use crate::utf8::{lossy_text, utf8_lossy};

verus! {

/// The uninstaller's window: its log lines, whether the uninstall ended well
/// or badly, the message shown when it failed, and whether the administrator
/// check has been made.
pub struct UninstallerApp {
    pub logs: Vec<String>,
    pub finished: bool,
    pub failed: bool,
    pub error_message: Option<String>,
    pub checked_admin: bool,
}

impl View for UninstallerApp {
    type V = ProgressView;

    open spec fn view(&self) -> ProgressView {
        ProgressView {
            logs: self.logs.deep_view(),
            finished: self.finished,
            failed: self.failed,
            error_message: self.error_message.deep_view(),
        }
    }
}

/// The message shown when the uninstaller does not run as administrator.
pub open spec fn admin_message() -> Seq<char> {
    "❌ 管理者として実行してください。\n\n▶ 方法：\n - アンインストーラーを右クリック →『管理者として実行』\n - または、Shift + 右クリック →『管理者として実行』"@
}

/// The uninstaller runs when nothing has been logged and it has neither finished nor failed.
pub open spec fn runs_uninstall(s: ProgressView) -> bool {
    s.logs.len() == 0 && !s.finished && !s.failed
}

/// `s` once the uninstall has ended with `outcome`.
pub open spec fn uninstall_ended(s: ProgressView, outcome: Result<(), Seq<char>>) -> ProgressView {
    match outcome {
        Ok(_) => ProgressView { finished: true, ..s },
        Err(e) => ProgressView { failed: true, error_message: Some("⚠️ エラー: "@ + e), ..s },
    }
}

impl Default for UninstallerApp {
    fn default() -> (app: Self)
        ensures
            app@.logs.len() == 0,
            !app@.finished,
            !app@.failed,
            app@.error_message is None,
            !app.checked_admin,
    {
        let app = UninstallerApp {
            logs: Vec::new(),
            finished: false,
            failed: false,
            error_message: None,
            checked_admin: false,
        };
        assert(app@.logs =~= Seq::<Seq<char>>::empty());
        app
    }
}

impl UninstallerApp {
    /// Appends a line for `msg` to the log.
    pub fn log(&mut self, msg: &str)
        ensures
            final(self)@ == logged(old(self)@, msg@),
            final(self).checked_admin == old(self).checked_admin,
    {
        let mut line = String::from_str("🔸 ");
        line.append(msg);
        let ghost before = self.logs.deep_view();
        self.logs.push(line);
        assert(self.logs.deep_view() =~= before.push(log_entry(msg@)));
    }

    /// Records the administrator check, made once: without administrator
    /// rights the uninstall fails at once with `admin_message`.
    pub fn check_admin(&mut self, is_admin: bool)
        ensures
            final(self).checked_admin,
            final(self)@ == (if old(self).checked_admin || is_admin {
                old(self)@
            } else {
                ProgressView { failed: true, error_message: Some(admin_message()), ..old(self)@ }
            }),
    {
        if !self.checked_admin {
            if !is_admin {
                self.failed = true;
                self.error_message = Some(
                    String::from_str(
                        "❌ 管理者として実行してください。\n\n▶ 方法：\n - アンインストーラーを右クリック →『管理者として実行』\n - または、Shift + 右クリック →『管理者として実行』",
                    ),
                );
            }
            self.checked_admin = true;
        }
    }

    /// Whether this frame of the window starts the uninstall.
    pub fn should_run_uninstall(&self) -> (b: bool)
        ensures
            b == runs_uninstall(self@),
    {
        self.logs.len() == 0 && !self.finished && !self.failed
    }

    /// Records how the uninstall ended.
    pub fn finish_uninstall(&mut self, outcome: &Result<(), String>)
        ensures
            final(self)@ == uninstall_ended(
                old(self)@,
                match outcome {
                    Ok(_) => Ok(()),
                    Err(e) => Err(e@),
                },
            ),
            final(self).checked_admin == old(self).checked_admin,
    {
        match outcome {
            Ok(_) => {
                self.finished = true;
            },
            Err(e) => {
                self.failed = true;
                let mut m = String::from_str("⚠️ エラー: ");
                m.append(e.as_str());
                self.error_message = Some(m);
            },
        }
    }

    /// Whether the window shows its close button.
    pub fn shows_close(&self) -> (b: bool)
        ensures
            b == (self@.finished || self@.failed),
    {
        self.finished || self.failed
    }
}

/// Without administrator rights the uninstall never starts.
pub proof fn lemma_no_uninstall_without_admin(s: ProgressView)
    ensures
        !runs_uninstall(ProgressView { failed: true, error_message: Some(admin_message()), ..s }),
{
}

/// Once a line has been logged, or the uninstall has ended, it is never
/// started again.
pub proof fn lemma_no_rerun_uninstall(
    s: ProgressView,
    msg: Seq<char>,
    outcome: Result<(), Seq<char>>,
)
    ensures
        !runs_uninstall(logged(s, msg)),
        !runs_uninstall(uninstall_ended(s, outcome)),
        uninstall_ended(s, outcome).finished || uninstall_ended(s, outcome).failed,
{
}

/// The name of the host's program.
pub open spec fn image_name() -> Seq<char> {
    "pvdp.exe"@
}

/// The process list mentions the host: some line of it, lowercased, holds `pvdp.exe`.
pub open spec fn mentions_host(listing: Seq<char>) -> bool {
    exists|k: int|
        0 <= k < lines_of(listing).len() && occurs_in(
            lowercase(#[trigger] lines_of(listing)[k]),
            image_name(),
        )
}

/// Whether the output of `tasklist` shows the host running: the output,
/// decoded lossily, has a line whose lowercase form holds `pvdp.exe`.
pub fn is_pvdp_running(stdout: &[u8]) -> (b: bool)
    ensures
        b == mentions_host(utf8_lossy(stdout@)),
{
    let text = lossy_text(stdout);
    let chars = chars_of(text.as_str());
    let pat = chars_of("pvdp.exe");
    let bounds = split_bounds(&chars, '\n');
    let ghost p = split_pieces(text@, '\n');
    proof {
        lemma_split_pieces_nonempty(text@, '\n');
    }
    let n = bounds.len();
    let (last_start, last_end) = bounds[n - 1];
    let count: usize = if last_start < last_end { n } else { n - 1 };
    assert(count == line_count(text@));
    let mut k: usize = 0;
    while k < count
        invariant
            chars@ == text@,
            text@ == utf8_lossy(stdout@),
            pat@ == image_name(),
            p == split_pieces(text@, '\n'),
            n == bounds.len() == p.len(),
            count == line_count(text@),
            count <= n,
            forall|j: int|
                #![trigger bounds[j]]
                0 <= j < bounds.len() ==> {
                    &&& bounds[j].0 <= bounds[j].1 <= chars.len()
                    &&& chars@.subrange(bounds[j].0 as int, bounds[j].1 as int) == p[j]
                },
            forall|j: int| 0 <= j < k ==> !occurs_in(lowercase(#[trigger] lines_of(text@)[j]), image_name()),
        decreases count - k,
    {
        let (a, b0) = bounds[k];
        let ghost piece = p[k as int];
        let b = if k + 1 < n && a < b0 && chars[b0 - 1] == '\r' { b0 - 1 } else { b0 };
        assert(chars@.subrange(a as int, b as int) == line_at(p, k as int)) by {
            if b < b0 {
                assert(chars@.subrange(a as int, b as int) =~= piece.drop_last());
            }
        }
        assert(lines_of(text@)[k as int] == line_at(p, k as int));
        let line = text.as_str().substring_char(a, b);
        let lower = lowercase_text(line);
        let lower_chars = chars_of(lower.as_str());
        if find(&lower_chars, &pat) {
            assert(occurs_in(lowercase(lines_of(text@)[k as int]), image_name()));
            assert(0 <= k < lines_of(text@).len());
            assert(mentions_host(text@));
            return true;
        }
        k = k + 1;
    }
    false
}

/// Where the uninstall procedure stands.
#[derive(PartialEq, Eq, Structural, Clone, Copy, Debug)]
pub enum UninstallStage {
    Start,
    ListingProcesses,
    Killing,
    CheckingDir,
    CheckingLock,
    RemovingDir,
    DeletingKeys,
    Over,
}

/// What the window reports back to the uninstall procedure.
pub enum UninstallEvent {
    /// The window starts the uninstall.
    Begin,
    /// What `tasklist` wrote to its output, or why it could not run.
    Listed(Result<Vec<u8>, String>),
    /// What `taskkill` reported, or why it could not run.
    Killed(Result<CommandOutput, String>),
    /// Whether the install folder exists.
    DirExists(bool),
    /// Whether the host's program is still locked (it exists and cannot be opened for writing).
    LockChecked(bool),
    /// How removing the install folder went.
    DirRemoved(Result<(), String>),
    /// The registry keys have been deleted (failures are ignored).
    KeysDeleted,
}

/// What the uninstall procedure asks of the window.
pub enum UninstallAction {
    /// Run this program with these arguments and collect its output.
    RunCommand(String, Vec<String>),
    /// Tell whether this folder exists.
    CheckDir(String),
    /// Tell whether this file is locked.
    CheckLock(String),
    /// Remove this folder and everything in it.
    RemoveDir(String),
    /// Delete these keys under HKEY_CURRENT_USER, ignoring failures.
    DeleteKeys(Vec<String>),
    /// The uninstall is over, with this outcome.
    Finish(Result<(), String>),
}

/// The keys under HKEY_CURRENT_USER that the uninstall deletes.
pub open spec fn registry_keys_spec() -> Seq<Seq<char>> {
    seq![
        "Software\\Google\\Chrome\\NativeMessagingHosts\\com.pvdp.discord.presence"@,
        "Software\\Google\\Chrome\\Extensions\\"@ + extension_id(),
    ]
}

/// The action runs `cmd /C <line>`.
pub open spec fn runs_cmd(a: UninstallAction, line: Seq<char>) -> bool {
    a matches UninstallAction::RunCommand(p, args) && p@ == "cmd"@ && args.deep_view() == seq![
        "/C"@,
        line,
    ]
}

/// The action asks whether the install folder exists.
pub open spec fn checks_install_dir(a: UninstallAction) -> bool {
    a matches UninstallAction::CheckDir(d) && d@ == install_dir_path()
}

/// The action asks for the registry keys to be deleted.
pub open spec fn deletes_keys(a: UninstallAction) -> bool {
    a matches UninstallAction::DeleteKeys(keys) && keys.deep_view() == registry_keys_spec()
}

/// The action ends the uninstall with the error text `e`.
pub open spec fn uninstall_fails_with(a: UninstallAction, e: Seq<char>) -> bool {
    a matches UninstallAction::Finish(Err(m)) && m@ == e
}

/// The events that each stage waits for.
pub open spec fn uninstall_accepts(stage: UninstallStage, event: UninstallEvent) -> bool {
    match stage {
        UninstallStage::Start => event is Begin,
        UninstallStage::ListingProcesses => event is Listed,
        UninstallStage::Killing => event is Killed,
        UninstallStage::CheckingDir => event is DirExists,
        UninstallStage::CheckingLock => event is LockChecked,
        UninstallStage::RemovingDir => event is DirRemoved,
        UninstallStage::DeletingKeys => event is KeysDeleted,
        UninstallStage::Over => false,
    }
}

/// One step of the uninstall procedure: from `before` in `stage`, on `event`,
/// the window state becomes `after`, the stage `next`, and `action` is asked for.
pub open spec fn uninstall_step_ok(
    before: ProgressView,
    stage: UninstallStage,
    event: UninstallEvent,
    after: ProgressView,
    next: UninstallStage,
    action: UninstallAction,
) -> bool {
    match (stage, event) {
        (UninstallStage::Start, UninstallEvent::Begin) => {
            &&& after == logged(before, "🔎 pvdp.exe の実行状態を確認中..."@)
            &&& next == UninstallStage::ListingProcesses
            &&& runs_cmd(action, "tasklist /FI \"IMAGENAME eq pvdp.exe\""@)
        },
        (UninstallStage::ListingProcesses, UninstallEvent::Listed(r)) => match r {
            Err(e) => after == before && next == UninstallStage::Over && uninstall_fails_with(
                action,
                e@,
            ),
            Ok(out) => if mentions_host(utf8_lossy(out@)) {
                &&& after == logged(before, "⚠️ pvdp.exe が起動中です。終了処理を試みます..."@)
                &&& next == UninstallStage::Killing
                &&& runs_cmd(action, "taskkill /F /IM pvdp.exe"@)
            } else {
                &&& after == logged(
                    logged(before, "✅ pvdp.exe は起動していません。"@),
                    "🧹 インストールフォルダを削除中..."@,
                )
                &&& next == UninstallStage::CheckingDir
                &&& checks_install_dir(action)
            },
        },
        (UninstallStage::Killing, UninstallEvent::Killed(r)) => match r {
            Err(e) => after == before && next == UninstallStage::Over && uninstall_fails_with(
                action,
                e@,
            ),
            Ok(out) => if out.success {
                &&& after == logged(
                    logged(before, "🛑 pvdp.exe を正常に終了しました"@),
                    "🧹 インストールフォルダを削除中..."@,
                )
                &&& next == UninstallStage::CheckingDir
                &&& checks_install_dir(action)
            } else {
                &&& after == before
                &&& next == UninstallStage::Over
                &&& uninstall_fails_with(
                    action,
                    "❌ pvdp.exe の終了に失敗しました。\n"@ + utf8_lossy(out.stderr@)
                        + "\n手動で終了してから再実行してください。"@,
                )
            },
        },
        (UninstallStage::CheckingDir, UninstallEvent::DirExists(exists)) => if exists {
            &&& after == before
            &&& next == UninstallStage::CheckingLock
            &&& action matches UninstallAction::CheckLock(f) && f@ == in_install_dir(image_name())
        } else {
            &&& after == logged(
                logged(before, "ℹ️ インストール済みフォルダが見つかりません"@),
                "🪟 レジストリキーを削除中..."@,
            )
            &&& next == UninstallStage::DeletingKeys
            &&& deletes_keys(action)
        },
        (UninstallStage::CheckingLock, UninstallEvent::LockChecked(locked)) => {
            &&& after == before
            &&& if locked {
                next == UninstallStage::Over && uninstall_fails_with(
                    action,
                    "❌ pvdp.exeがまだ使用中です。手動で終了してから再実行してください。"@,
                )
            } else {
                &&& next == UninstallStage::RemovingDir
                &&& action matches UninstallAction::RemoveDir(d) && d@ == install_dir_path()
            }
        },
        (UninstallStage::RemovingDir, UninstallEvent::DirRemoved(r)) => match r {
            Ok(_) => {
                &&& after == logged(
                    logged(before, "✔️ フォルダ削除成功"@),
                    "🪟 レジストリキーを削除中..."@,
                )
                &&& next == UninstallStage::DeletingKeys
                &&& deletes_keys(action)
            },
            Err(e) => after == before && next == UninstallStage::Over && uninstall_fails_with(
                action,
                "❌ フォルダ削除失敗: "@ + e@,
            ),
        },
        (UninstallStage::DeletingKeys, UninstallEvent::KeysDeleted) => {
            &&& after == logged(logged(before, "✔️ レジストリ削除完了"@), "🎉 アンインストール完了！"@)
            &&& next == UninstallStage::Over
            &&& action matches UninstallAction::Finish(Ok(_))
        },
        _ => false,
    }
}

/// The `cmd /C <line>` call as a program and its arguments.
fn cmd_call(line: &str) -> (a: UninstallAction)
    ensures
        runs_cmd(a, line@),
{
    let mut args: Vec<String> = Vec::new();
    args.push(String::from_str("/C"));
    args.push(String::from_str(line));
    assert(args.deep_view() =~= seq!["/C"@, line@]);
    UninstallAction::RunCommand(String::from_str("cmd"), args)
}

/// The request to delete the registry keys.
fn delete_keys() -> (a: UninstallAction)
    ensures
        deletes_keys(a),
{
    let mut keys: Vec<String> = Vec::new();
    keys.push(
        String::from_str("Software\\Google\\Chrome\\NativeMessagingHosts\\com.pvdp.discord.presence"),
    );
    let mut ext = String::from_str("Software\\Google\\Chrome\\Extensions\\");
    ext.append("hjngoljbakohoejlcikpfgfmcdjhgppe");
    keys.push(ext);
    assert(keys.deep_view() =~= registry_keys_spec());
    UninstallAction::DeleteKeys(keys)
}

impl UninstallerApp {
    /// One step of the uninstall procedure (see `uninstall_step_ok`).
    pub fn uninstall_step(&mut self, stage: UninstallStage, event: UninstallEvent) -> (r: (
        UninstallStage,
        UninstallAction,
    ))
        requires
            uninstall_accepts(stage, event),
        ensures
            uninstall_step_ok(old(self)@, stage, event, final(self)@, r.0, r.1),
            final(self).checked_admin == old(self).checked_admin,
    {
        match event {
            UninstallEvent::Begin => {
                self.log("🔎 pvdp.exe の実行状態を確認中...");
                (
                    UninstallStage::ListingProcesses,
                    cmd_call("tasklist /FI \"IMAGENAME eq pvdp.exe\""),
                )
            },
            UninstallEvent::Listed(r) => match r {
                Err(e) => (UninstallStage::Over, UninstallAction::Finish(Err(e))),
                Ok(out) => {
                    if is_pvdp_running(out.as_slice()) {
                        self.log("⚠️ pvdp.exe が起動中です。終了処理を試みます...");
                        (UninstallStage::Killing, cmd_call("taskkill /F /IM pvdp.exe"))
                    } else {
                        self.log("✅ pvdp.exe は起動していません。");
                        self.log("🧹 インストールフォルダを削除中...");
                        (UninstallStage::CheckingDir, UninstallAction::CheckDir(install_dir()))
                    }
                },
            },
            UninstallEvent::Killed(r) => match r {
                Err(e) => (UninstallStage::Over, UninstallAction::Finish(Err(e))),
                Ok(out) => {
                    if out.success {
                        self.log("🛑 pvdp.exe を正常に終了しました");
                        self.log("🧹 インストールフォルダを削除中...");
                        (UninstallStage::CheckingDir, UninstallAction::CheckDir(install_dir()))
                    } else {
                        let mut m = String::from_str("❌ pvdp.exe の終了に失敗しました。\n");
                        let stderr = lossy_text(out.stderr.as_slice());
                        m.append(stderr.as_str());
                        m.append("\n手動で終了してから再実行してください。");
                        (UninstallStage::Over, UninstallAction::Finish(Err(m)))
                    }
                },
            },
            UninstallEvent::DirExists(exists) => {
                if exists {
                    (UninstallStage::CheckingLock, UninstallAction::CheckLock(install_file("pvdp.exe")))
                } else {
                    self.log("ℹ️ インストール済みフォルダが見つかりません");
                    self.log("🪟 レジストリキーを削除中...");
                    (UninstallStage::DeletingKeys, delete_keys())
                }
            },
            UninstallEvent::LockChecked(locked) => {
                if locked {
                    (
                        UninstallStage::Over,
                        UninstallAction::Finish(
                            Err(
                                String::from_str(
                                    "❌ pvdp.exeがまだ使用中です。手動で終了してから再実行してください。",
                                ),
                            ),
                        ),
                    )
                } else {
                    (UninstallStage::RemovingDir, UninstallAction::RemoveDir(install_dir()))
                }
            },
            UninstallEvent::DirRemoved(r) => match r {
                Ok(_) => {
                    self.log("✔️ フォルダ削除成功");
                    self.log("🪟 レジストリキーを削除中...");
                    (UninstallStage::DeletingKeys, delete_keys())
                },
                Err(e) => {
                    let mut m = String::from_str("❌ フォルダ削除失敗: ");
                    m.append(e.as_str());
                    (UninstallStage::Over, UninstallAction::Finish(Err(m)))
                },
            },
            UninstallEvent::KeysDeleted => {
                self.log("✔️ レジストリ削除完了");
                self.log("🎉 アンインストール完了！");
                (UninstallStage::Over, UninstallAction::Finish(Ok(())))
            },
        }
    }
}

/// The order in which the uninstall stages are passed.
pub open spec fn uninstall_rank(stage: UninstallStage) -> int {
    match stage {
        UninstallStage::Start => 0,
        UninstallStage::ListingProcesses => 1,
        UninstallStage::Killing => 2,
        UninstallStage::CheckingDir => 3,
        UninstallStage::CheckingLock => 4,
        UninstallStage::RemovingDir => 5,
        UninstallStage::DeletingKeys => 6,
        UninstallStage::Over => 7,
    }
}

/// Every step moves the uninstall forward, only ever adds log lines, and
/// asks for `Finish` exactly when it reaches `Over`; so the procedure ends
/// after at most seven steps, with one outcome.
pub proof fn lemma_uninstall_step_progress(
    before: ProgressView,
    stage: UninstallStage,
    event: UninstallEvent,
    after: ProgressView,
    next: UninstallStage,
    action: UninstallAction,
)
    requires
        uninstall_step_ok(before, stage, event, after, next, action),
    ensures
        uninstall_rank(next) > uninstall_rank(stage),
        (next == UninstallStage::Over) <==> (action is Finish),
        after.logs.len() >= before.logs.len(),
        after.logs.subrange(0, before.logs.len() as int) == before.logs,
        after.finished == before.finished && after.failed == before.failed,
{
    assert(after.logs.subrange(0, before.logs.len() as int) =~= before.logs);
}

/// One uninstall step only appends progress-log lines and keeps the outcome fields.
pub proof fn lemma_uninstall_step_extends(
    before: ProgressView,
    stage: UninstallStage,
    event: UninstallEvent,
    after: ProgressView,
    next: UninstallStage,
    action: UninstallAction,
)
    requires
        uninstall_step_ok(before, stage, event, after, next, action),
    ensures
        extends_log(before, after),
{
    assert(after == before || (exists|x: Seq<char>| #[trigger] logged(before, x) == after) || (exists|
        x: Seq<char>,
        y: Seq<char>,
    | #[trigger] logged(logged(before, x), y) == after));
    lemma_extends_by_lines(before, after);
}

/// A run of the uninstall procedure: `states[i]`, `stages[i]` become
/// `states[i + 1]`, `stages[i + 1]` on `events[i]`, asking for `actions[i]`.
pub open spec fn uninstall_run(
    states: Seq<ProgressView>,
    stages: Seq<UninstallStage>,
    events: Seq<UninstallEvent>,
    actions: Seq<UninstallAction>,
) -> bool {
    &&& states.len() == events.len() + 1
    &&& stages.len() == events.len() + 1
    &&& actions.len() == events.len()
    &&& forall|i: int|
        0 <= i < events.len() ==> uninstall_step_ok(
            #[trigger] states[i],
            stages[i],
            events[i],
            states[i + 1],
            stages[i + 1],
            actions[i],
        )
}

proof fn lemma_uninstall_run_prefix(
    states: Seq<ProgressView>,
    stages: Seq<UninstallStage>,
    events: Seq<UninstallEvent>,
    actions: Seq<UninstallAction>,
    k: int,
)
    requires
        uninstall_run(states, stages, events, actions),
        0 <= k <= events.len(),
    ensures
        uninstall_rank(stages[k]) >= uninstall_rank(stages[0]) + k,
        extends_log(states[0], states[k]),
        forall|i: int| 0 <= i < k ==> ((#[trigger] actions[i] is Finish) <==> stages[i + 1] == UninstallStage::Over),
    decreases k,
{
    if k == 0 {
        lemma_extends_refl(states[0]);
    } else {
        lemma_uninstall_run_prefix(states, stages, events, actions, k - 1);
        assert(uninstall_step_ok(states[k - 1], stages[k - 1], events[k - 1], states[k], stages[k], actions[k - 1]));
        lemma_uninstall_step_progress(states[k - 1], stages[k - 1], events[k - 1], states[k], stages[k], actions[k - 1]);
        lemma_uninstall_step_extends(states[k - 1], stages[k - 1], events[k - 1], states[k], stages[k], actions[k - 1]);
        lemma_extends_trans(states[0], states[k - 1], states[k]);
    }
}

/// A whole uninstall run from the start: it takes at most seven steps, only
/// appends progress-log lines and keeps the outcome fields, and asks for
/// `Finish` once, as its last action, exactly when it has reached `Over`.
pub proof fn lemma_uninstall_run(
    states: Seq<ProgressView>,
    stages: Seq<UninstallStage>,
    events: Seq<UninstallEvent>,
    actions: Seq<UninstallAction>,
)
    requires
        uninstall_run(states, stages, events, actions),
        stages[0] == UninstallStage::Start,
    ensures
        events.len() <= 7,
        extends_log(states[0], states.last()),
        forall|i: int| 0 <= i < actions.len() - 1 ==> !(#[trigger] actions[i] is Finish),
        (stages.last() == UninstallStage::Over) <==> (actions.len() > 0 && actions.last() is Finish),
{
    let n = events.len() as int;
    lemma_uninstall_run_prefix(states, stages, events, actions, n);
    assert forall|i: int| 0 <= i < actions.len() - 1 implies !(#[trigger] actions[i] is Finish) by {
        if actions[i] is Finish {
            assert(stages[i + 1] == UninstallStage::Over);
            assert(uninstall_step_ok(states[i + 1], stages[i + 1], events[i + 1], states[i + 2], stages[i + 2], actions[i + 1]));
        }
    }
}

/// A repeated uninstall, with the host no longer running and the folder
/// gone, takes the short path: four steps, the same seven log lines, success.
pub proof fn lemma_uninstall_again(
    states: Seq<ProgressView>,
    stages: Seq<UninstallStage>,
    events: Seq<UninstallEvent>,
    actions: Seq<UninstallAction>,
)
    requires
        uninstall_run(states, stages, events, actions),
        stages[0] == UninstallStage::Start,
        events.len() == 4,
        events[0] is Begin,
        events[1] matches UninstallEvent::Listed(Ok(out)) && !mentions_host(utf8_lossy(out@)),
        events[2] == UninstallEvent::DirExists(false),
        events[3] is KeysDeleted,
    ensures
        stages[4] == UninstallStage::Over,
        actions[3] matches UninstallAction::Finish(Ok(_)),
        states[4].logs == states[0].logs + seq![
            log_entry("🔎 pvdp.exe の実行状態を確認中..."@),
            log_entry("✅ pvdp.exe は起動していません。"@),
            log_entry("🧹 インストールフォルダを削除中..."@),
            log_entry("ℹ️ インストール済みフォルダが見つかりません"@),
            log_entry("🪟 レジストリキーを削除中..."@),
            log_entry("✔️ レジストリ削除完了"@),
            log_entry("🎉 アンインストール完了！"@),
        ],
{
    assert(uninstall_step_ok(states[0], stages[0], events[0], states[1], stages[1], actions[0]));
    assert(uninstall_step_ok(states[1], stages[1], events[1], states[2], stages[2], actions[1]));
    assert(uninstall_step_ok(states[2], stages[2], events[2], states[3], stages[3], actions[2]));
    assert(uninstall_step_ok(states[3], stages[3], events[3], states[4], stages[4], actions[3]));
    assert(states[4].logs =~= states[0].logs + seq![
        log_entry("🔎 pvdp.exe の実行状態を確認中..."@),
        log_entry("✅ pvdp.exe は起動していません。"@),
        log_entry("🧹 インストールフォルダを削除中..."@),
        log_entry("ℹ️ インストール済みフォルダが見つかりません"@),
        log_entry("🪟 レジストリキーを削除中..."@),
        log_entry("✔️ レジストリ削除完了"@),
        log_entry("🎉 アンインストール完了！"@),
    ]);
}

/// The window state after the administrator check (made when not yet made).
pub open spec fn admin_checked(s: ProgressView, checked: bool, is_admin: bool) -> ProgressView {
    if checked || is_admin {
        s
    } else {
        ProgressView { failed: true, error_message: Some(admin_message()), ..s }
    }
}

/// One frame of the window: the administrator check, then, when due, the
/// uninstall, taking the state to `mid` and ending with `outcome`.
pub open spec fn uninstall_frame(
    s: ProgressView,
    checked: bool,
    is_admin: bool,
    mid: ProgressView,
    outcome: Result<(), Seq<char>>,
) -> ProgressView {
    let s1 = admin_checked(s, checked, is_admin);
    if runs_uninstall(s1) {
        uninstall_ended(mid, outcome)
    } else {
        s1
    }
}

/// The window state between frames: never both finished and failed, a message
/// exactly when failed, and the administrator check made exactly when the
/// work has ended one way or the other.
pub open spec fn uninstall_window_ok(s: ProgressView, checked: bool) -> bool {
    &&& !(s.finished && s.failed)
    &&& s.failed == (s.error_message is Some)
    &&& checked == (s.finished || s.failed)
    &&& (s.finished || s.failed || s.logs.len() == 0)
}

/// A frame keeps the window state good and leaves the check made; a frame
/// whose uninstall runs ends finished exactly on `Ok` and failed with its
/// message exactly on `Err`; after a frame neither the check nor the
/// uninstall is due again.
pub proof fn lemma_uninstall_frame(
    s: ProgressView,
    checked: bool,
    is_admin: bool,
    mid: ProgressView,
    outcome: Result<(), Seq<char>>,
)
    requires
        uninstall_window_ok(s, checked),
        runs_uninstall(admin_checked(s, checked, is_admin)) ==> extends_log(
            admin_checked(s, checked, is_admin),
            mid,
        ),
    ensures
        uninstall_window_ok(uninstall_frame(s, checked, is_admin, mid, outcome), true),
        !runs_uninstall(uninstall_frame(s, checked, is_admin, mid, outcome)),
        checked ==> uninstall_frame(s, checked, is_admin, mid, outcome) == s,
        !checked && is_admin ==> {
            &&& uninstall_frame(s, checked, is_admin, mid, outcome).finished == (outcome is Ok)
            &&& outcome matches Err(e) ==> uninstall_frame(s, checked, is_admin, mid, outcome).error_message
                == Some("⚠️ エラー: "@ + e)
        },
        !checked && !is_admin ==> uninstall_frame(s, checked, is_admin, mid, outcome).error_message
            == Some(admin_message()),
{
}

/// Over any number of frames from the initial window: the administrator
/// check is made in the first frame and never again, the uninstall runs in
/// that first frame only (when the check passed), every later frame leaves the
/// state as it was, and every state between frames is good.
pub proof fn lemma_uninstall_frames(
    states: Seq<ProgressView>,
    checked: Seq<bool>,
    is_admin: Seq<bool>,
    mids: Seq<ProgressView>,
    outcomes: Seq<Result<(), Seq<char>>>,
)
    requires
        states.len() == mids.len() + 1,
        checked.len() == states.len(),
        is_admin.len() == mids.len(),
        outcomes.len() == mids.len(),
        states[0].logs.len() == 0,
        !states[0].finished,
        !states[0].failed,
        states[0].error_message is None,
        !checked[0],
        forall|i: int| 0 <= i < mids.len() ==> #[trigger] checked[i + 1],
        forall|i: int|
            0 <= i < mids.len() ==> (runs_uninstall(admin_checked(states[i], checked[i], is_admin[i]))
                ==> extends_log(admin_checked(states[i], checked[i], is_admin[i]), #[trigger] mids[i])),
        forall|i: int|
            0 <= i < mids.len() ==> #[trigger] states[i + 1] == uninstall_frame(
                states[i],
                checked[i],
                is_admin[i],
                mids[i],
                outcomes[i],
            ),
    ensures
        forall|i: int| 0 <= i < states.len() ==> uninstall_window_ok(#[trigger] states[i], checked[i]),
        forall|i: int| 1 <= i < states.len() ==> !runs_uninstall(#[trigger] states[i]),
        forall|i: int| 1 <= i < mids.len() ==> #[trigger] states[i + 1] == states[i],
    decreases mids.len(),
{
    if mids.len() > 0 {
        let n = mids.len() - 1;
        lemma_uninstall_frames(
            states.drop_last(),
            checked.drop_last(),
            is_admin.drop_last(),
            mids.drop_last(),
            outcomes.drop_last(),
        );
        assert(states.drop_last()[n] == states[n]);
        assert(checked.drop_last()[n] == checked[n]);
        assert(uninstall_window_ok(states[n], checked[n]));
        assert(mids[n] == mids[n]);
        lemma_uninstall_frame(states[n], checked[n], is_admin[n], mids[n], outcomes[n]);
        assert(states[n + 1] == uninstall_frame(states[n], checked[n], is_admin[n], mids[n], outcomes[n]));
        assert(checked[n + 1]);
        if n >= 1 {
            assert(checked[n]);
        }
        assert forall|i: int| 0 <= i < states.len() implies uninstall_window_ok(#[trigger] states[i], checked[i]) by {
            if i < n + 1 {
                assert(states.drop_last()[i] == states[i]);
                assert(checked.drop_last()[i] == checked[i]);
            }
        }
        assert forall|i: int| 1 <= i < states.len() implies !runs_uninstall(#[trigger] states[i]) by {
            if i < n + 1 {
                assert(states.drop_last()[i] == states[i]);
            }
        }
        assert forall|i: int| 1 <= i < mids.len() implies #[trigger] states[i + 1] == states[i] by {
            if i < n {
                assert(states.drop_last()[i + 1] == states[i + 1]);
                assert(states.drop_last()[i] == states[i]);
            }
        }
    }
}

/// One frame of the uninstaller's window in progress: the window, the state
/// it had when the frame began, whether the administrator check had been made
/// then and what it found, where the uninstall stands, and how it ended.
/// Past the check, the window only changes through the uninstall's steps
/// while the frame lasts.
pub struct UninstallFrame {
    app: UninstallerApp,
    stage: UninstallStage,
    start: Ghost<ProgressView>,
    checked: Ghost<bool>,
    is_admin: Ghost<bool>,
    outcome: Option<Result<(), String>>,
}

impl UninstallFrame {
    /// Where the uninstall stands; `Over` once it has ended or when it was not due.
    pub closed spec fn frame_stage(self) -> UninstallStage {
        self.stage
    }

    /// The window state when the frame began.
    pub closed spec fn start_view(self) -> ProgressView {
        self.start@
    }

    /// Whether the administrator check had been made when the frame began.
    pub closed spec fn was_checked(self) -> bool {
        self.checked@
    }

    /// The administrator answer the frame was given.
    pub closed spec fn admin_answer(self) -> bool {
        self.is_admin@
    }

    /// The window state now.
    pub closed spec fn app_view(self) -> ProgressView {
        self.app@
    }

    /// How the uninstall ended, once it has.
    pub closed spec fn ended_with(self) -> Option<Result<(), Seq<char>>> {
        match self.outcome {
            Some(r) => Some(outcome_view(r)),
            None => None,
        }
    }

    #[verifier::type_invariant]
    closed spec fn frame_ok(self) -> bool {
        let s1 = admin_checked(self.start@, self.checked@, self.is_admin@);
        &&& self.app.checked_admin
        &&& extends_log(s1, self.app@)
        &&& self.outcome is Some ==> runs_uninstall(s1) && self.stage == UninstallStage::Over
        &&& self.stage != UninstallStage::Over ==> runs_uninstall(s1) && self.outcome is None
        &&& (self.stage == UninstallStage::Over && self.outcome is None) ==> !runs_uninstall(s1)
            && self.app@ == s1
    }

    /// Begins a frame: makes the administrator check if it has not been made
    /// (`is_admin` is read only then), and the uninstall is due when the
    /// window has not started it, finished or failed.
    pub fn begin(app: UninstallerApp, is_admin: bool) -> (f: UninstallFrame)
        ensures
            f.start_view() == app@,
            f.was_checked() == app.checked_admin,
            f.admin_answer() == is_admin,
            f.app_view() == admin_checked(app@, app.checked_admin, is_admin),
            f.frame_stage() == (if runs_uninstall(admin_checked(app@, app.checked_admin, is_admin)) {
                UninstallStage::Start
            } else {
                UninstallStage::Over
            }),
            f.ended_with() is None,
    {
        let ghost s = app@;
        let ghost c = app.checked_admin;
        let mut app = app;
        app.check_admin(is_admin);
        let due = app.should_run_uninstall();
        proof {
            lemma_extends_refl(app@);
        }
        UninstallFrame {
            app,
            stage: if due {
                UninstallStage::Start
            } else {
                UninstallStage::Over
            },
            start: Ghost(s),
            checked: Ghost(c),
            is_admin: Ghost(is_admin),
            outcome: None,
        }
    }

    /// Whether the uninstall still waits for an event.
    pub fn due(&self) -> (b: bool)
        ensures
            b == (self.frame_stage() != UninstallStage::Over),
    {
        self.stage != UninstallStage::Over
    }

    /// Whether `event` is the one the uninstall waits for.
    pub fn accepts(&self, event: &UninstallEvent) -> (b: bool)
        ensures
            b == uninstall_accepts(self.frame_stage(), *event),
    {
        match (self.stage, event) {
            (UninstallStage::Start, UninstallEvent::Begin) => true,
            (UninstallStage::ListingProcesses, UninstallEvent::Listed(_)) => true,
            (UninstallStage::Killing, UninstallEvent::Killed(_)) => true,
            (UninstallStage::CheckingDir, UninstallEvent::DirExists(_)) => true,
            (UninstallStage::CheckingLock, UninstallEvent::LockChecked(_)) => true,
            (UninstallStage::RemovingDir, UninstallEvent::DirRemoved(_)) => true,
            (UninstallStage::DeletingKeys, UninstallEvent::KeysDeleted) => true,
            _ => false,
        }
    }

    /// Where the uninstall stands.
    pub fn stage(&self) -> (st: UninstallStage)
        ensures
            st == self.frame_stage(),
    {
        self.stage
    }

    /// One step of the uninstall (see `uninstall_step_ok`); the step that
    /// ends it records its outcome.
    pub fn step(self, event: UninstallEvent) -> (r: (UninstallFrame, UninstallAction))
        requires
            uninstall_accepts(self.frame_stage(), event),
        ensures
            uninstall_step_ok(
                self.app_view(),
                self.frame_stage(),
                event,
                r.0.app_view(),
                r.0.frame_stage(),
                r.1,
            ),
            r.0.start_view() == self.start_view(),
            r.0.was_checked() == self.was_checked(),
            r.0.admin_answer() == self.admin_answer(),
            r.0.ended_with() == (match r.1 {
                UninstallAction::Finish(o) => Some(outcome_view(o)),
                _ => None,
            }),
    {
        proof {
            use_type_invariant(&self);
        }
        let UninstallFrame { mut app, stage, start, checked, is_admin, outcome } = self;
        let ghost before = app@;
        let (next, action) = app.uninstall_step(stage, event);
        proof {
            lemma_uninstall_step_extends(before, stage, event, app@, next, action);
            lemma_extends_trans(admin_checked(start@, checked@, is_admin@), before, app@);
            lemma_uninstall_step_progress(before, stage, event, app@, next, action);
        }
        let ended = match &action {
            UninstallAction::Finish(o) => Some(
                match o {
                    Ok(_) => Ok(()),
                    Err(e) => Err(e.clone()),
                },
            ),
            _ => None,
        };
        (UninstallFrame { app, stage: next, start, checked, is_admin, outcome: ended }, action)
    }

    /// Ends the frame: records the uninstall's outcome, if it ran, and gives
    /// the window back. The result is `uninstall_frame` of the state at the
    /// start, over the steps' state that only added log lines after the check.
    pub fn end(self) -> (app: UninstallerApp)
        requires
            self.frame_stage() == UninstallStage::Over,
        ensures
            app.checked_admin,
            extends_log(
                admin_checked(self.start_view(), self.was_checked(), self.admin_answer()),
                self.app_view(),
            ),
            app@ == uninstall_frame(
                self.start_view(),
                self.was_checked(),
                self.admin_answer(),
                self.app_view(),
                match self.ended_with() {
                    Some(o) => o,
                    None => Ok(()),
                },
            ),
            uninstall_window_ok(self.start_view(), self.was_checked()) ==> uninstall_window_ok(
                app@,
                true,
            ),
            !runs_uninstall(app@),
    {
        proof {
            use_type_invariant(&self);
        }
        let UninstallFrame { mut app, stage, start, checked, is_admin, outcome } = self;
        match outcome {
            Some(o) => {
                app.finish_uninstall(&o);
            },
            None => {},
        }
        proof {
            let o = match self.ended_with() {
                Some(o) => o,
                None => Ok(()),
            };
            if uninstall_window_ok(start@, checked@) {
                lemma_uninstall_frame(start@, checked@, is_admin@, self.app_view(), o);
            }
        }
        app
    }
}


/// Every folder, file or key that an uninstall step names is the install's
/// own: the folder checked and removed is
/// `C:\Program Files\primevideo-discord-presence` itself, the file checked
/// for a lock is `pvdp.exe` in it, and the keys deleted are the host's and the
/// extension's. A folder that is not locked is removed whole.
pub proof fn lemma_uninstall_step_paths(
    before: ProgressView,
    stage: UninstallStage,
    event: UninstallEvent,
    after: ProgressView,
    next: UninstallStage,
    action: UninstallAction,
)
    requires
        uninstall_step_ok(before, stage, event, after, next, action),
    ensures
        action matches UninstallAction::CheckDir(d) ==> d@
            == "C:\\Program Files\\primevideo-discord-presence"@,
        action matches UninstallAction::RemoveDir(d) ==> d@
            == "C:\\Program Files\\primevideo-discord-presence"@,
        action matches UninstallAction::CheckLock(f) ==> f@
            == "C:\\Program Files\\primevideo-discord-presence"@ + "\\"@ + "pvdp.exe"@,
        action matches UninstallAction::DeleteKeys(keys) ==> keys.deep_view() == seq![
            "Software\\Google\\Chrome\\NativeMessagingHosts\\com.pvdp.discord.presence"@,
            "Software\\Google\\Chrome\\Extensions\\"@ + "hjngoljbakohoejlcikpfgfmcdjhgppe"@,
        ],
        action matches UninstallAction::RunCommand(prog, args) ==> prog@ == "cmd"@ && (
        args.deep_view() == seq!["/C"@, "tasklist /FI \"IMAGENAME eq pvdp.exe\""@]
            || args.deep_view() == seq!["/C"@, "taskkill /F /IM pvdp.exe"@]),
        event matches UninstallEvent::Listed(Ok(out)) ==> ((action is RunCommand) <==> mentions_host(
            utf8_lossy(out@),
        )) && (action is RunCommand || action is CheckDir),
        event matches UninstallEvent::Killed(Ok(out)) ==> (out.success <==> action is CheckDir) && (
        action is CheckDir || action is Finish),
        event == UninstallEvent::LockChecked(false) ==> action is RemoveDir,
        event == UninstallEvent::LockChecked(true) ==> action is Finish,
        event == UninstallEvent::DirExists(false) ==> action is DeleteKeys,
{
}

/// In a successful uninstall run, an answer that the install folder exists is
/// followed, before the run ends, by the removal of exactly that folder.
pub proof fn lemma_uninstall_run_removes_folder(
    states: Seq<ProgressView>,
    stages: Seq<UninstallStage>,
    events: Seq<UninstallEvent>,
    actions: Seq<UninstallAction>,
    i: int,
)
    requires
        uninstall_run(states, stages, events, actions),
        stages[0] == UninstallStage::Start,
        actions.len() > 0,
        actions.last() matches UninstallAction::Finish(Ok(_)),
        0 <= i < events.len(),
        events[i] == UninstallEvent::DirExists(true),
    ensures
        i + 1 < actions.len() - 1,
        actions[i + 1] matches UninstallAction::RemoveDir(d) && d@
            == "C:\\Program Files\\primevideo-discord-presence"@,
{
    lemma_uninstall_run(states, stages, events, actions);
    let n = actions.len() as int;
    assert(uninstall_step_ok(states[i], stages[i], events[i], states[i + 1], stages[i + 1], actions[i]));
    assert(stages[i + 1] == UninstallStage::CheckingLock);
    assert(i + 1 < n);
    assert(uninstall_step_ok(states[i + 1], stages[i + 1], events[i + 1], states[i + 2], stages[i + 2], actions[i + 1]));
    if i + 1 == n - 1 {
        assert(actions[i + 1] is Finish);
    }
    if !(actions[i + 1] is RemoveDir) {
        assert(stages[i + 2] == UninstallStage::Over);
        assert(actions[i + 1] is Finish);
    }
    lemma_uninstall_step_paths(states[i + 1], stages[i + 1], events[i + 1], states[i + 2], stages[i + 2], actions[i + 1]);
}

} // verus!
