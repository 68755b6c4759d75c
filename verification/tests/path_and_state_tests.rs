use file_cipher::{
    apply_picked_file, decrypt_output_path, encrypt_output_path, init_state,
    report_decrypt_outcome, report_encrypt_outcome, truncate_middle, update, Effect, ErrorKind,
    Message,
};

#[test]
fn decrypt_output_path_cases() {
    assert_eq!(decrypt_output_path("report.pdf.enc"), "report_decrypted.pdf");
    assert_eq!(decrypt_output_path("archive.enc"), "archive_decrypted");
    assert_eq!(decrypt_output_path("notes"), "notes_decrypted");
}

#[test]
fn decrypt_output_path_strips_one_enc_layer() {
    assert_eq!(decrypt_output_path("x.tar.enc.enc"), "x.tar_decrypted.enc");
}

#[test]
fn decrypt_output_path_with_directories() {
    assert_eq!(decrypt_output_path("dir.v2/data.bin.enc"), "dir.v2/data_decrypted.bin");
}

#[test]
fn encrypt_output_path_appends_enc() {
    assert_eq!(encrypt_output_path("a.txt"), "a.txt.enc");
    assert_eq!(encrypt_output_path("a.txt.enc"), "a.txt.enc.enc");
    assert_eq!(encrypt_output_path(""), ".enc");
}

#[test]
fn truncate_middle_short_is_unchanged() {
    assert_eq!(truncate_middle("short", 36), "short");
    assert_eq!(truncate_middle("", 36), "");
}

#[test]
fn truncate_middle_elides_long_text() {
    assert_eq!(truncate_middle("abcdefghij", 6), "abc....hij");
    assert_eq!(truncate_middle("abcdefghij", 9), "abcd....ghij");
}

#[test]
fn init_state_is_ready_and_dark() {
    let s = init_state();
    assert_eq!(s.file_path, "");
    assert_eq!(s.key, "");
    assert_eq!(s.iv, "");
    assert_eq!(s.status_message, "Ready");
    assert!(s.dark_mode);
}

#[test]
fn field_edits_and_theme_toggle() {
    let mut s = init_state();
    let e = update(&mut s, Message::FilePathChanged("f.bin".to_string()));
    assert!(matches!(e, Effect::Nothing));
    assert_eq!(s.file_path, "f.bin");
    update(&mut s, Message::KeyChanged("aa".to_string()));
    assert_eq!(s.key, "aa");
    update(&mut s, Message::IvChanged("bb".to_string()));
    assert_eq!(s.iv, "bb");
    assert!(s.dark_mode);
    update(&mut s, Message::ToggleTheme);
    assert!(!s.dark_mode);
    update(&mut s, Message::ToggleTheme);
    assert!(s.dark_mode);
}

#[test]
fn encrypt_message_requires_all_fields() {
    let mut s = init_state();
    let e = update(&mut s, Message::EncryptFile);
    assert!(matches!(e, Effect::Nothing));
    assert_eq!(s.status_message, "Please enter all fields (file path, key, and IV).");
    update(&mut s, Message::FilePathChanged("f.bin".to_string()));
    update(&mut s, Message::KeyChanged("aa".to_string()));
    update(&mut s, Message::IvChanged("bb".to_string()));
    let e = update(&mut s, Message::EncryptFile);
    assert!(matches!(e, Effect::RunEncrypt));
}

#[test]
fn decrypt_message_requires_all_fields() {
    let mut s = init_state();
    let e = update(&mut s, Message::DecryptFile);
    assert!(matches!(e, Effect::Nothing));
    assert_eq!(s.status_message, "Please enter file path, key, and IV.");
    update(&mut s, Message::FilePathChanged("f.enc".to_string()));
    update(&mut s, Message::KeyChanged("aa".to_string()));
    update(&mut s, Message::IvChanged("bb".to_string()));
    let e = update(&mut s, Message::DecryptFile);
    assert!(matches!(e, Effect::RunDecrypt));
}

#[test]
fn generate_messages_fill_fields() {
    let mut s = init_state();
    let e = update(&mut s, Message::GenerateKey);
    assert!(matches!(e, Effect::Nothing));
    assert_eq!(s.key.len(), 64);
    assert_eq!(s.status_message, "Key generated. Make sure to save it somewhere!");
    let e = update(&mut s, Message::GenerateIv);
    assert!(matches!(e, Effect::Nothing));
    assert_eq!(s.iv.len(), 32);
    assert_eq!(s.status_message, "IV generated. Make sure to save it somewhere!");
}

#[test]
fn copy_messages() {
    let mut s = init_state();
    let e = update(&mut s, Message::CopyKeyToClipboard);
    assert!(matches!(e, Effect::Nothing));
    assert_eq!(s.status_message, "Key field is empty, nothing to copy.");
    update(&mut s, Message::KeyChanged("secret".to_string()));
    let e = update(&mut s, Message::CopyKeyToClipboard);
    match e {
        Effect::CopyToClipboard(t) => assert_eq!(t, "secret"),
        _ => panic!("expected a clipboard effect"),
    }
    assert_eq!(s.status_message, "Key has been copied.");
    let e = update(&mut s, Message::CopyIvToClipboard);
    assert!(matches!(e, Effect::Nothing));
    assert_eq!(s.status_message, "IV field is empty, nothing to copy.");
    update(&mut s, Message::IvChanged("vector".to_string()));
    let e = update(&mut s, Message::CopyIvToClipboard);
    match e {
        Effect::CopyToClipboard(t) => assert_eq!(t, "vector"),
        _ => panic!("expected a clipboard effect"),
    }
    assert_eq!(s.status_message, "IV has been copied.");
}

#[test]
fn select_file_and_picker_outcomes() {
    let mut s = init_state();
    let e = update(&mut s, Message::SelectFile);
    assert!(matches!(e, Effect::PickFile));
    apply_picked_file(&mut s, Some("/tmp/data.bin".to_string()));
    assert_eq!(s.file_path, "/tmp/data.bin");
    assert_eq!(s.status_message, "File selected: /tmp/data.bin");
    apply_picked_file(&mut s, None);
    assert_eq!(s.file_path, "/tmp/data.bin");
    assert_eq!(s.status_message, "No file selected.");
}

#[test]
fn picked_file_status_elides_long_paths() {
    let mut s = init_state();
    let long = "/very/long/directory/name/holding/a/data/file.bin".to_string();
    apply_picked_file(&mut s, Some(long.clone()));
    assert_eq!(s.file_path, long);
    assert_eq!(
        s.status_message,
        "File selected: /very/long/directo....ng/a/data/file.bin"
    );
}

#[test]
fn outcome_reports() {
    let mut s = init_state();
    report_encrypt_outcome(&mut s, Ok(()));
    assert_eq!(s.status_message, "File successfully encrypted.");
    report_encrypt_outcome(&mut s, Err(ErrorKind::InvalidKeyFormat));
    assert_eq!(s.status_message, "Encryption failed: Invalid key format");
    report_encrypt_outcome(&mut s, Err(ErrorKind::FileWriteError));
    assert_eq!(s.status_message, "Encryption failed: Failed to write encrypted file");
    report_decrypt_outcome(&mut s, Ok(()));
    assert_eq!(s.status_message, "File successfully decrypted.");
    report_decrypt_outcome(&mut s, Err(ErrorKind::DecryptionError));
    assert_eq!(s.status_message, "Decryption failed: Failed to decrypt file");
    report_decrypt_outcome(&mut s, Err(ErrorKind::FileWriteError));
    assert_eq!(s.status_message, "Decryption failed: Failed to write decrypted file");
    report_decrypt_outcome(&mut s, Err(ErrorKind::FileReadError));
    assert_eq!(s.status_message, "Decryption failed: Failed to read file");
    report_decrypt_outcome(&mut s, Err(ErrorKind::InvalidIvFormat));
    assert_eq!(s.status_message, "Decryption failed: Invalid IV format");
    report_encrypt_outcome(&mut s, Err(ErrorKind::InvalidKeyOrIvLength));
    assert_eq!(s.status_message, "Encryption failed: Invalid key/IV length");
}
