use lspi_lsp::client::{
    GenericLspClient, GenericLspClientOptions, OpenedFile, StartError, SyncStep,
};
use lspi_lsp::delay::Delay;
use lspi_lsp::digest::sha256_hex;
use lspi_lsp::documents::{OpenFileState, OpenFiles};
use std::collections::HashMap;
use std::path::PathBuf;

fn options(command: &str, language_id: &str, warmup: u128) -> GenericLspClientOptions<u8> {
    GenericLspClientOptions {
        command: command.to_string(),
        args: vec!["--stdio".to_string()],
        root_dir: PathBuf::from("/root"),
        process_cwd: PathBuf::from("/cwd"),
        env: HashMap::from([("K".to_string(), "V".to_string())]),
        workspace_folders: vec![PathBuf::from("/folder")],
        adapter: 9,
        initialize_timeout: Delay::from_millis(2000),
        request_timeout: Delay::from_millis(3000),
        request_timeout_overrides: HashMap::from([("m".to_string(), Delay::from_millis(4))]),
        language_id: language_id.to_string(),
        warmup_delay: Delay { nanos: warmup },
        workspace_configuration: HashMap::from([(
            "section".to_string(),
            serde_json::from_str("[1]").unwrap(),
        )]),
        initialize_options: Some(serde_json::from_str("{\"a\":1}").unwrap()),
        client_capabilities: None,
    }
}

fn client(warmup: u128) -> (GenericLspClient, OpenFiles) {
    let (client, files, _) = GenericLspClient::start(options("server", "typescript", warmup)).unwrap();
    (client, files)
}

fn sync(client: &GenericLspClient, files: &mut OpenFiles, path: &[u8], content: &[u8]) -> SyncStep {
    client.open_or_sync(files, [b"given:", path].concat(), path.to_vec(), content.to_vec())
}

/// Prepares a file at a server that takes everything. Gives the file and what was sent: the
/// version and the text.
fn prepare(
    client: &GenericLspClient,
    files: &mut OpenFiles,
    path: &[u8],
    content: &[u8],
) -> (OpenedFile, Option<(i32, String)>) {
    match sync(client, files, path, content) {
        SyncStep::Open { pending, message } => {
            assert_eq!(message.path, path);
            assert_eq!(message.language_id, "typescript");
            let fresh = client.opened::<()>(files, pending, Ok(())).unwrap();
            (fresh.opened, Some((message.version, message.text)))
        }
        SyncStep::Change { pending, message } => {
            assert_eq!(message.path, path);
            let opened = client.changed::<()>(pending, Ok(())).unwrap();
            (opened, Some((message.version, message.text)))
        }
        SyncStep::Ready(opened) => (opened, None),
        _ => panic!("another step"),
    }
}

#[test]
fn start_wants_a_command_and_a_language() {
    let error = GenericLspClient::start(options(" \t", "", 0)).unwrap_err();
    assert_eq!(error, StartError::EmptyCommand);
    assert_eq!(error.message(), "generic LSP command must not be empty");
    let error = GenericLspClient::start(options("server", "\n", 0)).unwrap_err();
    assert_eq!(error, StartError::EmptyLanguageId);
    assert_eq!(error.message(), "generic LSP language_id must not be empty");
}

#[test]
fn start_hands_the_options_on() {
    let (client, files, launch) = GenericLspClient::start(options(" server ", "ts", 7)).unwrap();
    assert_eq!(client.warmup_delay(), Delay { nanos: 7 });
    assert_eq!(files.get(&b"/a".to_vec()), None);
    assert_eq!(launch.command, " server ");
    assert_eq!(launch.args, ["--stdio"]);
    assert_eq!(launch.root_dir, PathBuf::from("/root"));
    assert_eq!(launch.process_cwd, PathBuf::from("/cwd"));
    assert_eq!(launch.env["K"], "V");
    assert_eq!(launch.workspace_folders, [PathBuf::from("/folder")]);
    assert_eq!(launch.adapter, 9);
    assert_eq!(launch.initialize_timeout, Delay::from_millis(2000));
    assert_eq!(launch.request_timeout, Delay::from_millis(3000));
    assert_eq!(launch.request_timeout_overrides["m"], Delay::from_millis(4));
    assert_eq!(launch.workspace_configuration["section"].as_array().unwrap().len(), 1);
    assert_eq!(launch.initialize_options.unwrap()["a"], 1);
    assert_eq!(launch.client_capabilities, None);
}

#[test]
fn a_file_is_opened_once_and_changed_with_its_contents() {
    let (client, mut files) = client(0);
    let (opened, sent) = prepare(&client, &mut files, b"/a.ts", b"one");
    assert_eq!(sent, Some((1, "one".to_string())));
    assert!(opened.is_cold());
    assert_eq!(opened.file(), b"given:/a.ts");
    assert_eq!(opened.path(), b"/a.ts");

    let (opened, sent) = prepare(&client, &mut files, b"/a.ts", b"one");
    assert_eq!(sent, None);
    assert!(!opened.is_cold());

    let (opened, sent) = prepare(&client, &mut files, b"/a.ts", b"two");
    assert_eq!(sent, Some((2, "two".to_string())));
    assert!(!opened.is_cold());
    assert_eq!(opened.file(), b"given:/a.ts");

    let (_, sent) = prepare(&client, &mut files, b"/a.ts", b"one");
    assert_eq!(sent, Some((3, "one".to_string())));
    let state = files.get(&b"/a.ts".to_vec()).unwrap();
    assert_eq!(state.version, 3);
    assert_eq!(state.last_sha256, sha256_hex(b"one"));
}

#[test]
fn versions_count_up_without_a_gap() {
    let (client, mut files) = client(0);
    let mut sent = Vec::new();
    for (path, content) in [
        ("/a", "one"),
        ("/b", "one"),
        ("/a", "one"),
        ("/a", "two"),
        ("/b", "two"),
        ("/a", "two"),
        ("/a", "one"),
        ("/b", "two"),
        ("/a", "three"),
    ] {
        let (_, message) = prepare(&client, &mut files, path.as_bytes(), content.as_bytes());
        sent.extend(message.map(|(version, text)| (path, version, text)));
    }
    let about = |path: &str| -> Vec<(i32, &str)> {
        let notices = sent.iter().filter(|notice| notice.0 == path);
        notices.map(|notice| (notice.1, notice.2.as_str())).collect()
    };
    assert_eq!(about("/a"), [(1, "one"), (2, "two"), (3, "one"), (4, "three")]);
    assert_eq!(about("/b"), [(1, "one"), (2, "two")]);
}

#[test]
fn contents_that_stay_are_not_sent_again_whatever_comes_between() {
    let (client, mut files) = client(0);
    prepare(&client, &mut files, b"/a", b"same");
    for other in [b"x", b"y"] {
        prepare(&client, &mut files, b"/b", other);
        assert_eq!(prepare(&client, &mut files, b"/a", b"same").1, None);
    }
    assert_eq!(files.get(&b"/a".to_vec()).unwrap().version, 1);
}

#[test]
fn options_can_be_cloned() {
    let original = options("server", "ts", 7);
    let copy = original.clone();
    assert_eq!(copy.command, original.command);
    assert_eq!(copy.root_dir, original.root_dir);
    assert_eq!(copy.workspace_folders, original.workspace_folders);
    assert_eq!(copy.request_timeout_overrides, original.request_timeout_overrides);
    assert_eq!(copy.workspace_configuration, original.workspace_configuration);
    assert_eq!(copy.initialize_options, original.initialize_options);
    assert_eq!(copy.warmup_delay, original.warmup_delay);
}

#[test]
fn files_do_not_disturb_each_other() {
    let (client, mut files) = client(0);
    prepare(&client, &mut files, b"/a.ts", b"same");
    prepare(&client, &mut files, b"/a.ts", b"more");
    let (opened, sent) = prepare(&client, &mut files, b"/b.ts", b"same");
    assert!(opened.is_cold());
    assert_eq!(sent, Some((1, "same".to_string())));
    assert_eq!(files.get(&b"/a.ts".to_vec()).unwrap().version, 2);
    assert_eq!(files.get(&b"/b.ts".to_vec()).unwrap().version, 1);
    assert_eq!(files.get(&b"/b".to_vec()), None);
}

#[test]
fn a_failed_opening_is_repeated() {
    let (client, mut files) = client(0);
    for _ in 0..2 {
        match sync(&client, &mut files, b"/a.ts", b"x") {
            SyncStep::Open { pending, message } => {
                assert_eq!(message.version, 1);
                assert_eq!(client.opened(&mut files, pending, Err("gone")).err(), Some("gone"));
                assert_eq!(files.get(&b"/a.ts".to_vec()), None);
            }
            _ => panic!("another step"),
        }
    }
    let (opened, _) = prepare(&client, &mut files, b"/a.ts", b"x");
    assert!(opened.is_cold());
}

#[test]
fn a_failed_change_is_not_repeated() {
    let (client, mut files) = client(0);
    prepare(&client, &mut files, b"/a.ts", b"x");
    match sync(&client, &mut files, b"/a.ts", b"y") {
        SyncStep::Change { pending, message } => {
            assert_eq!(message.version, 2);
            assert_eq!(client.changed(pending, Err("gone")).err(), Some("gone"));
        }
        _ => panic!("another step"),
    }
    let (opened, sent) = prepare(&client, &mut files, b"/a.ts", b"y");
    assert_eq!(sent, None);
    assert!(!opened.is_cold());
}

#[test]
fn a_server_is_left_alone_after_opening_only() {
    let (client, mut files) = client(250);
    match sync(&client, &mut files, b"/a.ts", b"x") {
        SyncStep::Open { pending, .. } => {
            let fresh = client.opened::<()>(&mut files, pending, Ok(())).unwrap();
            assert_eq!(fresh.wait, Some(Delay { nanos: 250 }));
        }
        _ => panic!("another step"),
    }
    let (eager, mut files) = self::client(0);
    match sync(&eager, &mut files, b"/a.ts", b"x") {
        SyncStep::Open { pending, .. } => {
            assert_eq!(eager.opened::<()>(&mut files, pending, Ok(())).unwrap().wait, None);
        }
        _ => panic!("another step"),
    }
}

#[test]
fn files_that_are_not_text_are_refused() {
    let (client, mut files) = client(0);
    match sync(&client, &mut files, b"/a", b"x\xff") {
        SyncStep::NotUtf8(error) => assert_eq!(error.utf8_error().valid_up_to(), 1),
        _ => panic!("another step"),
    }
    assert_eq!(files.get(&b"/a".to_vec()), None);
    prepare(&client, &mut files, b"/a", b"text");
    assert!(matches!(sync(&client, &mut files, b"/a", &[0xff]), SyncStep::NotUtf8(_)));
    assert_eq!(files.get(&b"/a".to_vec()).unwrap().version, 1);
}

#[test]
fn the_last_version_cannot_be_followed() {
    let (client, mut files) = client(0);
    let last = OpenFileState { version: i32::MAX, last_sha256: sha256_hex(b"old") };
    files.insert(b"/a".to_vec(), last);
    assert!(matches!(sync(&client, &mut files, b"/a", b"new"), SyncStep::VersionOverflow));
    assert_eq!(files.get(&b"/a".to_vec()).unwrap().last_sha256, sha256_hex(b"old"));
    assert!(matches!(sync(&client, &mut files, b"/a", b"old"), SyncStep::Ready(_)));
}

#[test]
fn digests_decide_whether_contents_changed() {
    let (client, mut files) = client(0);
    let before = OpenFileState { version: 4, last_sha256: "d".to_string() };
    files.insert(b"/a".to_vec(), before);
    let mut step = |text: &str, digest: &str| {
        client.sync(&mut files, vec![], b"/a".to_vec(), text.to_string(), digest.to_string())
    };
    assert!(matches!(step("anything", "d"), SyncStep::Ready(_)));
    match step("anything", "e") {
        SyncStep::Change { message, .. } => {
            assert_eq!(message.version, 5);
            assert_eq!(message.text, "anything");
        }
        _ => panic!("another step"),
    }
}

#[test]
fn a_file_is_opened_before_the_workspace_is_searched_and_is_cold_once() {
    let (client, mut files) = client(0);
    let mut sent = Vec::new();

    let (opened, message) =
        prepare(&client, &mut files, b"/sample.ts", b"export const TargetSymbol = 1;\n");
    if message.is_some() {
        sent.push("textDocument/didOpen");
    }
    let search = client.workspace_symbols_for_file(opened, "TargetSymbol", 10);
    sent.push("workspace/symbol");
    assert_eq!(sent, ["textDocument/didOpen", "workspace/symbol"]);
    assert_eq!(search.query(), "TargetSymbol");
    assert_eq!(search.cold(), Some(true));
    assert_eq!(search.finish::<u8, ()>(Ok(vec![1])).unwrap().len(), 1);

    let (opened, message) =
        prepare(&client, &mut files, b"/sample.ts", b"export const TargetSymbol = 1;\n");
    assert_eq!(message, None);
    let search = client.workspace_symbols_for_file(opened, "MissingSymbol", 10);
    assert_eq!(search.cold(), Some(false));
    assert!(search.finish::<u8, ()>(Ok(vec![])).unwrap().is_empty());

    let (opened, _) = prepare(&client, &mut files, b"/second.ts", b"export const OtherSymbol = 1;\n");
    let search = client.workspace_symbols_for_file(opened, "AlwaysError", 10);
    assert_eq!(search.cold(), Some(true));
    assert_eq!(search.finish::<u8, &str>(Err("still indexing")), Err("still indexing"));
}
