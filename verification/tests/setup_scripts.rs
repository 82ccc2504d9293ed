use pvdp::setup::{
    download_command, expand_command, extension_registration_script, extension_removal_script,
    fill_manifest_template, setup_step, source_url, SetupAction, SetupEvent, SetupPaths, SetupStage,
};

#[test]
fn download_and_unpack_commands() {
    let url = source_url();
    assert_eq!(url, "https://github.com/trance-mode/primevideo-discord-presence/archive/refs/heads/main.zip");
    assert_eq!(
        download_command(&url, "C:\\Temp\\pvdp.zip"),
        format!("Invoke-WebRequest '{}' -OutFile '{}'", url, "C:\\Temp\\pvdp.zip")
    );
    assert_eq!(
        expand_command("C:\\Temp\\pvdp.zip", "C:\\Temp"),
        "Expand-Archive -Path 'C:\\Temp\\pvdp.zip' -DestinationPath 'C:\\Temp' -Force"
    );
}

#[test]
fn manifest_template_is_filled() {
    let template = "{\n  \"path\": \"PRIME_BINARY_PATH\",\n  \"again\": \"PRIME_BINARY_PATH\"\n}";
    let exe = "C:\\x\\prime_video_discord_presence.exe";
    assert_eq!(fill_manifest_template(template, exe), template.replace("PRIME_BINARY_PATH", exe));
    assert_eq!(fill_manifest_template("{}", exe), "{}");
}

#[test]
fn extension_scripts() {
    let key = r"HKCU\Software\Google\Chrome\Extensions\pvdp-extension";
    let expected = format!(
        "New-Item -Path '{}' -Force | Out-Null; \
         Set-ItemProperty -Path '{}' -Name 'path' -Value '{}'; \
         Set-ItemProperty -Path '{}' -Name 'version' -Value '{}'; \
         Set-ItemProperty -Path '{}' -Name 'manifest' -Value '{}'",
        key, key, "D:\\pvdp\\ext", key, "1.4.0", key, "D:\\pvdp\\ext\\m.json"
    );
    assert_eq!(extension_registration_script("D:\\pvdp\\ext", "D:\\pvdp\\ext\\m.json"), expected);
    let removal = format!(
        "if (Test-Path '{}') {{ Remove-Item -Path '{}' -Recurse -Force; Write-Host '🗑️ Removed Chrome extension registry entry.' }} else {{ Write-Host 'ℹ️ No extension registry entry found.' }}",
        key, key
    );
    assert_eq!(extension_removal_script(), removal);
}

fn paths() -> SetupPaths {
    SetupPaths {
        zip: "T\\pvdp.zip".to_string(),
        temp: "T".to_string(),
        exe: "C:\\x\\host.exe".to_string(),
        extension: "T\\ext".to_string(),
        extension_manifest: "T\\ext\\m".to_string(),
    }
}

#[test]
fn setup_steps_in_order() {
    let p = paths();
    let (s, a) = setup_step(&p, SetupStage::Start, SetupEvent::Begin);
    assert_eq!(s, SetupStage::Downloading);
    assert!(matches!(a, SetupAction::PowerShell(ref c) if *c == download_command(&source_url(), "T\\pvdp.zip")));
    let (s, a) = setup_step(&p, s, SetupEvent::Ran(true));
    assert_eq!(s, SetupStage::Expanding);
    assert!(matches!(a, SetupAction::PowerShell(ref c) if c == "Expand-Archive -Path 'T\\pvdp.zip' -DestinationPath 'T' -Force"));
    let (s, a) = setup_step(&p, s, SetupEvent::Ran(true));
    assert_eq!(s, SetupStage::Building);
    assert!(matches!(a, SetupAction::Build));
    let (s, a) = setup_step(&p, s, SetupEvent::Ran(true));
    assert_eq!(s, SetupStage::ReadingTemplate);
    assert!(matches!(a, SetupAction::ReadTemplate));
    let (s, a) = setup_step(&p, s, SetupEvent::TemplateRead("{\"path\":\"PRIME_BINARY_PATH\"}".to_string()));
    assert_eq!(s, SetupStage::WritingManifest);
    assert!(matches!(a, SetupAction::WriteManifest(ref m) if m == "{\"path\":\"C:\\x\\host.exe\"}"));
    let (s, a) = setup_step(&p, s, SetupEvent::ManifestWritten);
    assert_eq!(s, SetupStage::Registering);
    assert!(matches!(a, SetupAction::PowerShell(ref c) if *c == extension_registration_script("T\\ext", "T\\ext\\m")));
    let (s, a) = setup_step(&p, s, SetupEvent::Ran(true));
    assert_eq!(s, SetupStage::Over);
    assert!(matches!(a, SetupAction::Finish(Ok(()))));
}

#[test]
fn setup_stops_at_the_first_failure() {
    let p = paths();
    for (stage, message) in [
        (SetupStage::Downloading, "❌ Download failed"),
        (SetupStage::Expanding, "❌ Extraction failed"),
        (SetupStage::Building, "❌ Build failed"),
        (SetupStage::Registering, "❌ Failed to register Chrome extension"),
    ] {
        let (s, a) = setup_step(&p, stage, SetupEvent::Ran(false));
        assert_eq!(s, SetupStage::Over);
        assert!(matches!(a, SetupAction::Finish(Err(ref m)) if m == message));
    }
}
