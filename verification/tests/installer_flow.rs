use pvdp::installer::{
    extension_folder_command, extensions_page_command, host_manifest, install_dir, install_file, registration_args,
    CommandOutput, InstallAction, InstallEvent, InstallFrame, InstallStage, InstallerApp,
};

fn logs_of(app: &InstallerApp) -> Vec<String> {
    app.logs.clone()
}

#[test]
fn log_prefixes_a_diamond() {
    let mut app = InstallerApp::default();
    app.log("テスト");
    app.log("two");
    assert_eq!(logs_of(&app), vec!["🔸 テスト".to_string(), "🔸 two".to_string()]);
    assert!(!app.finished && !app.failed && app.error_message.is_none());
}

#[test]
fn install_runs_only_once() {
    let mut app = InstallerApp::default();
    assert!(app.should_run_install());
    assert!(!app.shows_close());
    app.log("x");
    assert!(!app.should_run_install());
    let mut app = InstallerApp::default();
    app.finish_install(&Ok(()));
    assert!(app.finished && !app.failed);
    assert!(!app.should_run_install());
    assert!(app.shows_close());
}

#[test]
fn failed_install_message() {
    let mut app = InstallerApp::default();
    app.finish_install(&Err("アクセスが拒否されました。 (os error 5)".to_string()));
    assert!(app.failed && !app.finished);
    assert_eq!(
        app.error_message.as_deref(),
        Some("⚠️ インストール失敗: アクセスが拒否されました。 (os error 5)")
    );
    assert!(app.shows_close());
}

#[test]
fn paths_and_manifest() {
    assert_eq!(install_dir(), "C:\\Program Files\\primevideo-discord-presence");
    assert_eq!(install_file("pvdp.exe"), "C:\\Program Files\\primevideo-discord-presence\\pvdp.exe");
    let m = host_manifest();
    assert_eq!(m.name, "com.pvdp.discord.presence");
    assert_eq!(m.description, "PVDP Native Host");
    assert_eq!(m.path, "C:\\Program Files\\primevideo-discord-presence\\pvdp.exe");
    assert_eq!(m.kind, "stdio");
    assert_eq!(m.allowed_origins, vec!["chrome-extension://hjngoljbakohoejlcikpfgfmcdjhgppe/".to_string()]);
    assert_eq!(
        registration_args("C:\\m.json"),
        vec![
            "add",
            "HKCU\\Software\\Google\\Chrome\\NativeMessagingHosts\\com.pvdp.discord.presence",
            "/t",
            "REG_SZ",
            "/d",
            "C:\\m.json",
            "/f"
        ]
    );
    let (prog, args) = extensions_page_command();
    assert_eq!(prog, "cmd");
    assert_eq!(args, vec!["/C", "start chrome chrome://extensions"]);
}

#[test]
fn install_happy_path() {
    let mut app = InstallerApp::default();
    let (s, a) = app.install_step(InstallStage::Start, InstallEvent::Begin);
    assert_eq!(s, InstallStage::CheckingOldDir);
    assert!(matches!(a, InstallAction::CheckOldDir(ref d) if d == "C:\\Program Files\\primevideo-discord-presence"));
    let (s, a) = app.install_step(s, InstallEvent::OldDirExists(true));
    assert_eq!(s, InstallStage::RemovingOldDir);
    assert!(matches!(a, InstallAction::RemoveOldDir(_)));
    let (s, a) = app.install_step(s, InstallEvent::OldDirRemoved(Ok(())));
    assert_eq!(s, InstallStage::CreatingDir);
    assert!(matches!(a, InstallAction::CreateDir(_)));
    let (s, a) = app.install_step(s, InstallEvent::DirCreated(Ok(())));
    assert_eq!(s, InstallStage::PlacingProgram);
    match a {
        InstallAction::PlacePayload(item, dest) => {
            assert_eq!(item, "pvdp.exe");
            assert_eq!(dest, "C:\\Program Files\\primevideo-discord-presence\\pvdp.exe");
        }
        _ => panic!("expected the program to be placed"),
    }
    let (s, a) = app.install_step(s, InstallEvent::PayloadPlaced(Ok(())));
    assert_eq!(s, InstallStage::PlacingExtension);
    match a {
        InstallAction::PlacePayload(item, dest) => {
            assert_eq!(item, "extension");
            assert_eq!(dest, "C:\\Program Files\\primevideo-discord-presence\\extension");
        }
        _ => panic!("expected the extension folder to be placed"),
    }
    let (s, a) = app.install_step(s, InstallEvent::PayloadPlaced(Ok(())));
    assert_eq!(s, InstallStage::WritingManifest);
    match a {
        InstallAction::WriteManifest(p, m) => {
            assert_eq!(p, "C:\\Program Files\\primevideo-discord-presence\\com.pvdp.discord.presence.json");
            assert_eq!(m.kind, "stdio");
        }
        _ => panic!("expected the manifest to be written"),
    }
    let (s, a) = app.install_step(s, InstallEvent::ManifestWritten(Ok(())));
    assert_eq!(s, InstallStage::Registering);
    match a {
        InstallAction::RunCommand(p, args) => {
            assert_eq!(p, "reg");
            assert_eq!(args[5], "C:\\Program Files\\primevideo-discord-presence\\com.pvdp.discord.presence.json");
        }
        _ => panic!("expected the reg call"),
    }
    let (s, a) = app.install_step(
        s,
        InstallEvent::RegistryRan(Ok(CommandOutput { success: true, stderr: vec![] })),
    );
    assert_eq!(s, InstallStage::Over);
    assert!(matches!(a, InstallAction::Finish(Ok(()))));
    assert_eq!(
        logs_of(&app),
        vec![
            "🔸 🧹 旧インストール内容の削除を試みます...",
            "🔸 ✔️ 旧フォルダ削除成功",
            "🔸 📁 インストールディレクトリを作成",
            "🔸 📦 本体ファイルを展開しました",
            "🔸 🧩 extension フォルダを追加しました",
            "🔸 📝 NativeMessaging マニフェストを作成中...",
            "🔸 ✅ NativeMessaging マニフェスト生成完了",
            "🔸 🪟 レジストリへ登録中...",
            "🔸 ✅ レジストリ登録完了",
        ]
    );
}

#[test]
fn install_without_old_dir_and_failed_removal() {
    let mut app = InstallerApp::default();
    let (s, _) = app.install_step(InstallStage::Start, InstallEvent::Begin);
    let (s2, a) = app.install_step(s, InstallEvent::OldDirExists(false));
    assert_eq!(s2, InstallStage::CreatingDir);
    assert!(matches!(a, InstallAction::CreateDir(_)));
    assert_eq!(app.logs.len(), 1);
    let (s3, _) = app.install_step(InstallStage::RemovingOldDir, InstallEvent::OldDirRemoved(Err("busy".to_string())));
    assert_eq!(s3, InstallStage::CreatingDir);
    assert_eq!(app.logs[1], "🔸 ⚠️ 削除失敗: busy");
}

#[test]
fn install_failures_end_the_procedure() {
    let mut app = InstallerApp::default();
    let (s, a) = app.install_step(InstallStage::CreatingDir, InstallEvent::DirCreated(Err("denied".to_string())));
    assert_eq!(s, InstallStage::Over);
    assert!(matches!(a, InstallAction::Finish(Err(ref e)) if e == "denied"));
    let (s, a) = app.install_step(InstallStage::PlacingProgram, InstallEvent::PayloadPlaced(Err("no payload".to_string())));
    assert_eq!(s, InstallStage::Over);
    assert!(matches!(a, InstallAction::Finish(Err(ref e)) if e == "no payload"));
    let (s, a) = app.install_step(InstallStage::PlacingExtension, InstallEvent::PayloadPlaced(Err("copy failed".to_string())));
    assert_eq!(s, InstallStage::Over);
    assert!(matches!(a, InstallAction::Finish(Err(ref e)) if e == "copy failed"));
    let (s, a) = app.install_step(InstallStage::WritingManifest, InstallEvent::ManifestWritten(Err("disk full".to_string())));
    assert_eq!(s, InstallStage::Over);
    assert!(matches!(a, InstallAction::Finish(Err(ref e)) if e == "disk full"));
    let (_, a) = app.install_step(InstallStage::Registering, InstallEvent::RegistryRan(Err("no reg".to_string())));
    assert!(matches!(a, InstallAction::Finish(Err(ref e)) if e == "no reg"));
    let (s, a) = app.install_step(
        InstallStage::Registering,
        InstallEvent::RegistryRan(Ok(CommandOutput { success: false, stderr: b"ERROR: denied\xff".to_vec() })),
    );
    assert_eq!(s, InstallStage::Over);
    assert!(matches!(a, InstallAction::Finish(Err(ref e)) if e == "レジストリ登録失敗: ERROR: denied\u{FFFD}"));
    assert!(app.logs.is_empty());
}

#[test]
fn finished_window_offers_both_folders() {
    let mut app = InstallerApp::default();
    assert!(!app.shows_open_buttons());
    app.finish_install(&Ok(()));
    assert!(app.shows_open_buttons());
    let (prog, args) = extension_folder_command();
    assert_eq!(prog, "explorer");
    assert_eq!(args, vec!["C:\\Program Files\\primevideo-discord-presence\\extension"]);
    let mut failed = InstallerApp::default();
    failed.finish_install(&Err("x".to_string()));
    assert!(!failed.shows_open_buttons());
}

/// Runs one window frame, answering the install with `answers` in turn.
fn install_frame(app: InstallerApp, answers: Vec<InstallEvent>) -> InstallerApp {
    let mut frame = InstallFrame::begin(app);
    let mut answers = answers.into_iter();
    let mut event = InstallEvent::Begin;
    while frame.due() {
        assert!(frame.accepts(&event));
        let (next, action) = frame.step(event);
        frame = next;
        if matches!(action, InstallAction::Finish(_)) {
            break;
        }
        event = answers.next().expect("an answer for every request");
    }
    frame.end()
}

#[test]
fn window_frames_run_the_install_once() {
    let app = install_frame(
        InstallerApp::default(),
        vec![
            InstallEvent::OldDirExists(false),
            InstallEvent::DirCreated(Ok(())),
            InstallEvent::PayloadPlaced(Ok(())),
            InstallEvent::PayloadPlaced(Ok(())),
            InstallEvent::ManifestWritten(Ok(())),
            InstallEvent::RegistryRan(Ok(CommandOutput { success: true, stderr: vec![] })),
        ],
    );
    assert!(app.finished && !app.failed && app.error_message.is_none());
    assert_eq!(app.logs.len(), 8);
    assert!(app.shows_open_buttons());
    let again = install_frame(app, vec![]);
    assert!(again.finished && !again.failed);
    assert_eq!(again.logs.len(), 8);
}

#[test]
fn window_frame_with_failed_install() {
    let app = install_frame(
        InstallerApp::default(),
        vec![InstallEvent::OldDirExists(false), InstallEvent::DirCreated(Err("denied".to_string()))],
    );
    assert!(app.failed && !app.finished);
    assert_eq!(app.error_message.as_deref(), Some("⚠️ インストール失敗: denied"));
    assert!(!app.shows_open_buttons());
    let mut frame = InstallFrame::begin(app);
    assert!(!frame.due());
    assert!(!frame.accepts(&InstallEvent::Begin));
    frame = InstallFrame::begin(frame.end());
    assert!(frame.end().failed);
}
