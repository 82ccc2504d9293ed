use pvdp::installer::CommandOutput;
use pvdp::uninstaller::{
    is_pvdp_running, UninstallAction, UninstallEvent, UninstallFrame, UninstallStage, UninstallerApp,
};

const ADMIN: &str = "❌ 管理者として実行してください。\n\n▶ 方法：\n - アンインストーラーを右クリック →『管理者として実行』\n - または、Shift + 右クリック →『管理者として実行』";

#[test]
fn admin_check_once() {
    let mut app = UninstallerApp::default();
    assert!(!app.checked_admin);
    app.check_admin(false);
    assert!(app.checked_admin && app.failed);
    assert_eq!(app.error_message.as_deref(), Some(ADMIN));
    assert!(!app.should_run_uninstall());
    let mut ok = UninstallerApp::default();
    ok.check_admin(true);
    assert!(ok.checked_admin && !ok.failed && ok.error_message.is_none());
    assert!(ok.should_run_uninstall());
    ok.check_admin(false);
    assert!(!ok.failed);
}

#[test]
fn uninstall_outcomes() {
    let mut app = UninstallerApp::default();
    app.log("a");
    assert_eq!(app.logs, vec!["🔸 a".to_string()]);
    assert!(!app.should_run_uninstall());
    app.finish_uninstall(&Err("boom".to_string()));
    assert_eq!(app.error_message.as_deref(), Some("⚠️ エラー: boom"));
    assert!(app.shows_close());
    let mut done = UninstallerApp::default();
    done.finish_uninstall(&Ok(()));
    assert!(done.finished && done.shows_close());
}

#[test]
fn process_listing() {
    assert!(is_pvdp_running(b"Image Name  PID\r\n========\r\npvdp.exe   4242 Console\r\n"));
    assert!(is_pvdp_running(b"PVDP.EXE 1"));
    assert!(is_pvdp_running(b"\xff\xfepvdp.exe"));
    assert!(!is_pvdp_running(b"INFO: No tasks are running which match the specified criteria.\r\n"));
    assert!(!is_pvdp_running(b"pvdp.ex\r\ne"));
}

#[test]
fn process_listing_follows_lines_and_lowercase() {
    let samples: [&[u8]; 10] = [
        b"",
        b"\n",
        b"a\r\nPvDp.ExE\r\n",
        b"pvdp.exe\r",
        b"pvdp\n.exe",
        b"x\rpvdp.exe",
        "\u{130}PVDP.EXE".as_bytes(),
        "ＰＶＤＰ.ＥＸＥ".as_bytes(),
        b"\xc3pvdp.exe\xc3",
        b"\n\n\nPVDP.exe",
    ];
    for out in samples {
        let expected = String::from_utf8_lossy(out)
            .lines()
            .any(|l| l.to_lowercase().contains("pvdp.exe"));
        assert_eq!(is_pvdp_running(out), expected, "input {:?}", out);
    }
}

fn cmd_line(a: &UninstallAction) -> Option<String> {
    match a {
        UninstallAction::RunCommand(p, args) if p == "cmd" && args.len() == 2 && args[0] == "/C" => {
            Some(args[1].clone())
        }
        _ => None,
    }
}

#[test]
fn uninstall_happy_path_with_running_host() {
    let mut app = UninstallerApp::default();
    let (s, a) = app.uninstall_step(UninstallStage::Start, UninstallEvent::Begin);
    assert_eq!(s, UninstallStage::ListingProcesses);
    assert_eq!(cmd_line(&a).as_deref(), Some("tasklist /FI \"IMAGENAME eq pvdp.exe\""));
    let (s, a) = app.uninstall_step(s, UninstallEvent::Listed(Ok(b"pvdp.exe 12".to_vec())));
    assert_eq!(s, UninstallStage::Killing);
    assert_eq!(cmd_line(&a).as_deref(), Some("taskkill /F /IM pvdp.exe"));
    let (s, a) = app.uninstall_step(s, UninstallEvent::Killed(Ok(CommandOutput { success: true, stderr: vec![] })));
    assert_eq!(s, UninstallStage::CheckingDir);
    assert!(matches!(a, UninstallAction::CheckDir(ref d) if d == "C:\\Program Files\\primevideo-discord-presence"));
    let (s, a) = app.uninstall_step(s, UninstallEvent::DirExists(true));
    assert_eq!(s, UninstallStage::CheckingLock);
    assert!(matches!(a, UninstallAction::CheckLock(ref f) if f == "C:\\Program Files\\primevideo-discord-presence\\pvdp.exe"));
    let (s, a) = app.uninstall_step(s, UninstallEvent::LockChecked(false));
    assert_eq!(s, UninstallStage::RemovingDir);
    assert!(matches!(a, UninstallAction::RemoveDir(_)));
    let (s, a) = app.uninstall_step(s, UninstallEvent::DirRemoved(Ok(())));
    assert_eq!(s, UninstallStage::DeletingKeys);
    match a {
        UninstallAction::DeleteKeys(keys) => assert_eq!(
            keys,
            vec![
                "Software\\Google\\Chrome\\NativeMessagingHosts\\com.pvdp.discord.presence",
                "Software\\Google\\Chrome\\Extensions\\hjngoljbakohoejlcikpfgfmcdjhgppe"
            ]
        ),
        _ => panic!("expected the keys to be deleted"),
    }
    let (s, a) = app.uninstall_step(s, UninstallEvent::KeysDeleted);
    assert_eq!(s, UninstallStage::Over);
    assert!(matches!(a, UninstallAction::Finish(Ok(()))));
    assert_eq!(
        app.logs,
        vec![
            "🔸 🔎 pvdp.exe の実行状態を確認中...",
            "🔸 ⚠️ pvdp.exe が起動中です。終了処理を試みます...",
            "🔸 🛑 pvdp.exe を正常に終了しました",
            "🔸 🧹 インストールフォルダを削除中...",
            "🔸 ✔️ フォルダ削除成功",
            "🔸 🪟 レジストリキーを削除中...",
            "🔸 ✔️ レジストリ削除完了",
            "🔸 🎉 アンインストール完了！",
        ]
    );
}

#[test]
fn uninstall_without_running_host_or_folder() {
    let mut app = UninstallerApp::default();
    let (s, _) = app.uninstall_step(UninstallStage::ListingProcesses, UninstallEvent::Listed(Ok(b"INFO: none".to_vec())));
    assert_eq!(s, UninstallStage::CheckingDir);
    let (s, a) = app.uninstall_step(s, UninstallEvent::DirExists(false));
    assert_eq!(s, UninstallStage::DeletingKeys);
    assert!(matches!(a, UninstallAction::DeleteKeys(_)));
    assert_eq!(
        app.logs,
        vec![
            "🔸 ✅ pvdp.exe は起動していません。",
            "🔸 🧹 インストールフォルダを削除中...",
            "🔸 ℹ️ インストール済みフォルダが見つかりません",
            "🔸 🪟 レジストリキーを削除中...",
        ]
    );
}

#[test]
fn uninstall_failures() {
    let mut app = UninstallerApp::default();
    let (s, a) = app.uninstall_step(UninstallStage::ListingProcesses, UninstallEvent::Listed(Err("no cmd".to_string())));
    assert_eq!(s, UninstallStage::Over);
    assert!(matches!(a, UninstallAction::Finish(Err(ref e)) if e == "no cmd"));
    let (_, a) = app.uninstall_step(
        UninstallStage::Killing,
        UninstallEvent::Killed(Ok(CommandOutput { success: false, stderr: b"ERROR".to_vec() })),
    );
    assert!(matches!(a, UninstallAction::Finish(Err(ref e))
        if e == "❌ pvdp.exe の終了に失敗しました。\nERROR\n手動で終了してから再実行してください。"));
    let (_, a) = app.uninstall_step(UninstallStage::Killing, UninstallEvent::Killed(Err("spawn".to_string())));
    assert!(matches!(a, UninstallAction::Finish(Err(ref e)) if e == "spawn"));
    let (_, a) = app.uninstall_step(UninstallStage::CheckingLock, UninstallEvent::LockChecked(true));
    assert!(matches!(a, UninstallAction::Finish(Err(ref e))
        if e == "❌ pvdp.exeがまだ使用中です。手動で終了してから再実行してください。"));
    let (_, a) = app.uninstall_step(UninstallStage::RemovingDir, UninstallEvent::DirRemoved(Err("in use".to_string())));
    assert!(matches!(a, UninstallAction::Finish(Err(ref e)) if e == "❌ フォルダ削除失敗: in use"));
    assert!(app.logs.is_empty());
}

/// Runs one window frame, answering the uninstall with `answers` in turn.
fn uninstall_frame(app: UninstallerApp, is_admin: bool, answers: Vec<UninstallEvent>) -> UninstallerApp {
    let mut frame = UninstallFrame::begin(app, is_admin);
    let mut answers = answers.into_iter();
    let mut event = UninstallEvent::Begin;
    while frame.due() {
        assert!(frame.accepts(&event));
        let (next, action) = frame.step(event);
        frame = next;
        if matches!(action, UninstallAction::Finish(_)) {
            break;
        }
        event = answers.next().expect("an answer for every request");
    }
    frame.end()
}

#[test]
fn window_frames_run_the_uninstall_once() {
    let app = uninstall_frame(
        UninstallerApp::default(),
        true,
        vec![
            UninstallEvent::Listed(Ok(b"INFO: none".to_vec())),
            UninstallEvent::DirExists(false),
            UninstallEvent::KeysDeleted,
        ],
    );
    assert!(app.checked_admin && app.finished && !app.failed);
    assert_eq!(app.logs.len(), 7);
    let again = uninstall_frame(app, false, vec![]);
    assert!(again.finished && !again.failed && again.error_message.is_none());
    assert_eq!(again.logs.len(), 7);
}

#[test]
fn window_frames_without_admin_rights() {
    let app = uninstall_frame(UninstallerApp::default(), false, vec![]);
    assert!(app.checked_admin && app.failed && !app.finished);
    assert!(app.logs.is_empty());
    assert_eq!(app.error_message.as_deref(), Some(ADMIN));
    let again = uninstall_frame(app, true, vec![]);
    assert!(again.failed && again.logs.is_empty());
}

#[test]
fn window_frame_with_failed_uninstall() {
    let app = uninstall_frame(
        UninstallerApp::default(),
        true,
        vec![
            UninstallEvent::Listed(Ok(b"pvdp.exe".to_vec())),
            UninstallEvent::Killed(Err("no taskkill".to_string())),
        ],
    );
    assert!(app.failed && !app.finished);
    assert_eq!(app.error_message.as_deref(), Some("⚠️ エラー: no taskkill"));
}
