use lspi_lsp::calls::{CallDirection, CallHierarchyResult, CallOutcome, CallReply, CallWalk, CallsAt};
use lspi_lsp::client::{GenericLspClient, GenericLspClientOptions, OpenedFile, SyncStep};
use lspi_lsp::definitions::{DefinitionMatch, DefinitionWalk};
use lspi_lsp::delay::Delay;
use lspi_lsp::documents::OpenFiles;
use lspi_lsp::locations::{collect_locations, read_locations, LocationOutcome};
use lspi_lsp::positions::{LocationsAt, ReferencesAt};
use lspi_lsp::protocol::{
    FileRequest, FlatSymbol, LspPosition, LspRange, Query, RenameCandidate, ResolvedSymbol, Step,
};
use lspi_lsp::references::{ReferenceMatch, ReferenceWalk};
use lspi_lsp::symbols::{
    countable_candidates, is_countable, rename_candidates, CandidateSearch,
};
use std::collections::HashMap;
use std::path::PathBuf;

type Outcome = LocationOutcome<u32, &'static str>;
type Calls = CallHierarchyResult<u32, u32>;

fn client() -> GenericLspClient {
    let (client, _, _) = GenericLspClient::start(GenericLspClientOptions {
        command: "server".to_string(),
        args: Vec::new(),
        root_dir: PathBuf::new(),
        process_cwd: PathBuf::new(),
        env: HashMap::new(),
        workspace_folders: Vec::new(),
        adapter: (),
        initialize_timeout: Delay::from_millis(1),
        request_timeout: Delay::from_millis(1),
        request_timeout_overrides: HashMap::new(),
        language_id: "rust".to_string(),
        warmup_delay: Delay { nanos: 0 },
        workspace_configuration: HashMap::new(),
        initialize_options: None,
        client_capabilities: None,
    })
    .unwrap();
    client
}

/// The file, prepared for one operation.
fn prepare(client: &GenericLspClient) -> OpenedFile {
    let mut files = OpenFiles::new();
    match client.open_or_sync(&mut files, b"a.rs".to_vec(), b"/w/a.rs".to_vec(), b"fn f() {}".to_vec()) {
        SyncStep::Open { pending, .. } => {
            client.opened::<()>(&mut files, pending, Ok(())).unwrap().opened
        }
        _ => panic!("another step"),
    }
}

fn at(line: u32, character: u32) -> LspPosition {
    LspPosition { line, character }
}

fn range(line: u32) -> LspRange {
    LspRange { start: at(line, 4), end: at(line, 9) }
}

fn symbol(name: &str, kind: u32, line: u32) -> FlatSymbol {
    FlatSymbol {
        name: name.to_string(),
        kind,
        range: range(line + 100),
        selection_range: range(line),
    }
}

fn resolved(name: &str, kind: u32, line: u32) -> ResolvedSymbol {
    ResolvedSymbol {
        name: name.to_string(),
        kind,
        range: range(line + 100),
        selection_range: range(line),
    }
}

fn found(location: u32) -> Outcome {
    LocationOutcome::Resolved(location)
}

fn request(query: Query) -> FileRequest {
    FileRequest { file: b"a.rs".to_vec(), query }
}

fn done<Op, Out>(step: Step<Op, Out>) -> Out {
    match step {
        Step::Done { result, .. } => result,
        Step::Again { .. } => panic!("asks again"),
    }
}

fn again<Op, Out>(step: Step<Op, Out>) -> Op {
    match step {
        Step::Again { op, .. } => op,
        Step::Done { .. } => panic!("is done"),
    }
}

fn document() -> Vec<FlatSymbol> {
    vec![
        symbol("run", 12, 1),
        symbol("stop", 12, 2),
        symbol("run", 6, 3),
        symbol("run", 12, 4),
        symbol("Run", 12, 5),
    ]
}

#[test]
fn symbols_are_chosen_by_name_kind_and_count() {
    let client = client();
    let choose = |kind: Option<u32>, max: usize| -> Vec<u32> {
        let search: CandidateSearch<()> = client.list_symbol_candidates(prepare(&client), "run", kind, max);
        assert_eq!(*search.request(), request(Query::DocumentSymbols));
        let chosen = done(search.resume(Ok(document()))).unwrap().unwrap();
        chosen.iter().map(|candidate| candidate.selection_range.start.line).collect()
    };
    assert_eq!(choose(None, 10), [1, 3, 4]);
    assert_eq!(choose(None, 2), [1, 3]);
    assert_eq!(choose(Some(12), 10), [1, 4]);
    assert_eq!(choose(Some(12), 1), [1]);
    assert_eq!(choose(Some(99), 10), Vec::<u32>::new());
    assert_eq!(choose(None, 0), Vec::<u32>::new());
}

#[test]
fn candidates_count_from_one() {
    assert_eq!(
        rename_candidates(&vec![symbol("run", 12, 1)]),
        vec![RenameCandidate {
            name: "run".to_string(),
            kind: 12,
            line: 2,
            character: 5,
            selection_range: range(1),
        }]
    );
    let last = symbol("run", 12, 1);
    let mut beyond = symbol("run", 12, 2);
    beyond.selection_range.start.line = u32::MAX;
    let all = vec![last, beyond];
    assert_eq!(countable_candidates(&all), None);
    let client = client();
    let search: CandidateSearch<()> = client.list_symbol_candidates(prepare(&client), "run", None, 5);
    assert_eq!(done(search.resume(Ok(all))), Ok(None));
    assert!(is_countable(at(0, u32::MAX - 1)));
    assert!(!is_countable(at(u32::MAX, 0)));
    assert!(!is_countable(at(0, u32::MAX)));
}

#[test]
fn document_symbols_are_listed_in_order() {
    let client = client();
    let list = |max: usize| done(client.document_symbols::<()>(prepare(&client), max).resume(Ok(document()))).unwrap();
    assert_eq!(list(2), vec![resolved("run", 12, 1), resolved("stop", 12, 2)]);
    assert_eq!(list(0), vec![resolved("run", 12, 1)]);
    assert_eq!(list(100).len(), 5);
}

#[test]
fn symbol_errors_are_handed_on_after_every_attempt() {
    let client = client();
    let mut listing = client.document_symbols::<u32>(prepare(&client), 1);
    for attempt in 0..9 {
        listing = again(listing.resume(Err(attempt)));
    }
    assert_eq!(done(listing.resume(Err(9))), Err(9));

    let mut search = client.list_symbol_candidates::<u32>(prepare(&client), "run", None, 1);
    for attempt in 0..9 {
        search = again(search.resume(Err(attempt)));
    }
    assert_eq!(done(search.resume(Err(9))), Err(9));
}

#[test]
fn definitions_are_looked_up_symbol_by_symbol() {
    let client = client();
    let find = client.find_definition_by_name::<&str>(prepare(&client), "run", Some(12), 5);
    assert_eq!(*find.request(), request(Query::DocumentSymbols));
    let walk: DefinitionWalk<u32, &str> = again(done(find.resume(Ok(document()))));
    assert_eq!(*walk.request(), request(Query::Definition { position: at(1, 4) }));
    let walk = again(walk.resume(Ok(vec![found(10), LocationOutcome::Unresolvable, found(11)])));
    assert_eq!(*walk.request(), request(Query::Definition { position: at(4, 4) }));
    let walk = again(walk.resume(Ok(vec![])));
    assert_eq!(*walk.request(), request(Query::Definition { position: at(4, 4) }));
    let walk = again(walk.resume(Ok(vec![])));
    let matches = done(walk.resume(Ok(vec![]))).unwrap();
    assert_eq!(
        matches,
        vec![
            DefinitionMatch { symbol: resolved("run", 12, 1), definitions: vec![10, 11] },
            DefinitionMatch { symbol: resolved("run", 12, 4), definitions: vec![] },
        ]
    );
}

#[test]
fn definitions_fail_with_the_first_error() {
    let client = client();
    let walk = || -> DefinitionWalk<u32, &str> {
        let find = client.find_definition_by_name::<&str>(prepare(&client), "run", None, 5);
        again(done(find.resume(Ok(document()))))
    };
    let entries = vec![found(1), LocationOutcome::Invalid("bad"), LocationOutcome::Invalid("worse")];
    assert_eq!(done(walk().resume(Ok(entries))), Err("bad"));
    let next = again(walk().resume(Err("one")));
    let next = again(next.resume(Err("two")));
    assert_eq!(done(next.resume(Err("three"))), Err("three"));
}

#[test]
fn nothing_is_looked_up_without_symbols() {
    let client = client();
    let find = client.find_definition_by_name::<&str>(prepare(&client), "missing", None, 5);
    assert_eq!(done(done(find.resume::<u32>(Ok(document())))), Ok(vec![]));
    let find = client.find_references_by_name::<&str>(prepare(&client), "run", None, true, 0, 5);
    assert_eq!(done(done(find.resume::<u32>(Ok(document())))), Ok(vec![]));
    let mut find = client.find_references_by_name::<u32>(prepare(&client), "run", None, true, 1, 5);
    for attempt in 0..9 {
        find = again(find.resume::<u32>(Err(attempt)));
    }
    assert_eq!(done(done(find.resume::<u32>(Err(9)))), Err(9));
}

fn reference_walk(max_symbols: usize, max_references: usize) -> ReferenceWalk<u32, &'static str> {
    let client = client();
    let find =
        client.find_references_by_name(prepare(&client), "run", None, true, max_symbols, max_references);
    again(done(find.resume(Ok(document()))))
}

#[test]
fn references_share_one_budget() {
    let walk = reference_walk(3, 3);
    let position = at(1, 4);
    assert_eq!(
        *walk.request(),
        request(Query::References { position, include_declaration: true })
    );
    let walk = again(walk.resume(Ok(vec![found(1), LocationOutcome::Unresolvable, found(2)])));
    // The entry after the last reference that counts is not read.
    let entries = vec![found(3), LocationOutcome::Invalid("bad")];
    let matches = done(walk.resume(Ok(entries))).unwrap();
    assert_eq!(
        matches,
        vec![
            ReferenceMatch { symbol: resolved("run", 12, 1), references: vec![1, 2], truncated: false },
            ReferenceMatch { symbol: resolved("run", 6, 3), references: vec![3], truncated: true },
        ]
    );
}

#[test]
fn a_budget_that_is_just_enough_counts_as_used_up() {
    let matches = done(reference_walk(1, 2).resume(Ok(vec![found(1), found(2)]))).unwrap();
    assert_eq!(matches[0].references, [1, 2]);
    assert!(matches[0].truncated);
    let matches = done(reference_walk(1, 3).resume(Ok(vec![found(1), found(2)]))).unwrap();
    assert!(!matches[0].truncated);
    let matches = done(reference_walk(1, 0).resume(Ok(vec![found(1), found(2)]))).unwrap();
    assert_eq!(matches[0].references, [1]);
    assert!(matches[0].truncated);
}

#[test]
fn a_larger_maximum_only_extends_the_references() {
    let report = |max_references: usize| {
        let mut walk = reference_walk(3, max_references);
        for answer in [vec![1, 2], vec![3], vec![4, 5, 6]] {
            let entries = answer.into_iter().map(found).collect();
            match walk.resume(Ok(entries)) {
                Step::Again { op, .. } => walk = op,
                Step::Done { result, .. } => return result.unwrap(),
            }
        }
        panic!("asks again");
    };
    let most = report(9);
    let references = |matches: &Vec<ReferenceMatch<u32>>| -> Vec<u32> {
        matches.iter().flat_map(|found| found.references.clone()).collect()
    };
    assert_eq!(references(&most), [1, 2, 3, 4, 5, 6]);
    assert_eq!(report(0), report(1));
    for max_references in 1..=9 {
        let matches = report(max_references);
        assert_eq!(references(&matches), (1..=6).take(max_references).collect::<Vec<u32>>());
        for (fewer, more) in matches.iter().zip(&most) {
            assert_eq!(fewer.symbol, more.symbol);
        }
    }
    assert_eq!(report(2).len(), 1);
    assert_eq!(report(3).len(), 2);
    assert_eq!(report(4).len(), 3);
}

#[test]
fn references_fail_with_an_entry_that_is_read() {
    let entries = vec![found(1), LocationOutcome::Invalid("bad")];
    assert_eq!(done(reference_walk(3, 3).resume(Ok(entries))), Err("bad"));
    let walk = again(reference_walk(3, 3).resume(Err("one")));
    let walk = again(walk.resume(Ok(vec![])));
    assert_eq!(done(walk.resume(Ok(vec![]))), Err("one"));
}

#[test]
fn locations_at_a_position_are_limited_before_they_are_resolved() {
    let client = client();
    let list = |max: usize, entries: Vec<Outcome>| {
        let at: LocationsAt<u32, &str> = client.definition_at(prepare(&client), at(7, 8), max);
        assert_eq!(*at.request(), request(Query::Definition { position: self::at(7, 8) }));
        done(at.resume(Ok(entries)))
    };
    let entries = || vec![LocationOutcome::Unresolvable, found(1), LocationOutcome::Invalid("bad")];
    assert_eq!(list(2, entries()), Ok(vec![1]));
    assert_eq!(list(0, entries()), Ok(vec![]));
    assert_eq!(list(3, entries()), Err("bad"));
}

#[test]
fn implementations_and_type_definitions_have_their_own_requests() {
    let client = client();
    let position = at(7, 8);
    let here: LocationsAt<u32, &str> = client.implementation_at(prepare(&client), position, 1);
    assert_eq!(*here.request(), request(Query::Implementation { position }));
    assert_eq!(done(here.resume(Ok(vec![found(1), found(2)]))), Ok(vec![1]));
    let here: LocationsAt<u32, &str> = client.type_definition_at(prepare(&client), position, 9);
    assert_eq!(*here.request(), request(Query::TypeDefinition { position }));
    let here = again(here.resume(Err("a")));
    let here = again(here.resume(Err("b")));
    assert_eq!(done(here.resume(Err("c"))), Err("c"));
}

#[test]
fn references_at_a_position_are_limited_after_they_are_resolved() {
    let client = client();
    let list = |max: usize, entries: Vec<Outcome>| {
        let here: ReferencesAt<u32, &str> = client.references_at(prepare(&client), at(7, 8), false, max);
        let expected = Query::References { position: at(7, 8), include_declaration: false };
        assert_eq!(*here.request(), request(expected));
        done(here.resume(Ok(entries)))
    };
    let entries = || vec![LocationOutcome::Unresolvable, found(1), found(2)];
    assert_eq!(list(1, entries()), Ok((vec![1], true)));
    assert_eq!(list(2, entries()), Ok((vec![1, 2], false)));
    assert_eq!(list(0, entries()), Ok((vec![1], true)));
    let broken = || vec![found(1), LocationOutcome::Invalid("bad")];
    assert_eq!(list(1, broken()), Ok((vec![1], true)));
    assert_eq!(list(2, broken()), Err("bad"));
    // An entry past the limit that would not resolve still counts as left out.
    assert_eq!(list(1, vec![found(1), LocationOutcome::Unresolvable]), Ok((vec![1], true)));
}

#[test]
fn reading_and_collecting_entries() {
    let entries = || vec![found(1), LocationOutcome::Unresolvable, found(2), found(3)];
    assert_eq!(read_locations(entries(), 2), Ok((vec![1, 2], 3)));
    assert_eq!(read_locations(entries(), 9), Ok((vec![1, 2, 3], 4)));
    assert_eq!(read_locations(entries(), 0), Ok((vec![], 0)));
    assert_eq!(collect_locations(entries(), 2), Ok(vec![1]));
    assert_eq!(collect_locations(entries(), 0), Ok(vec![]));
}

fn prepared(json: &str, max: usize) -> Step<CallWalk<u32, u32, &'static str>, Result<Calls, &'static str>> {
    let client = client();
    let here: CallsAt<&str> = client.incoming_calls_at(prepare(&client), at(7, 8), max);
    assert_eq!(*here.request(), request(Query::PrepareCallHierarchy { position: at(7, 8) }));
    done(here.resume(Ok(serde_json::from_str(json).unwrap())))
}

fn reply(target: u32, outcome: CallOutcome<u32, &'static str>) -> CallReply<u32, u32, &'static str> {
    CallReply { target: Some(target), outcome }
}

#[test]
fn a_hierarchy_without_items_has_no_calls() {
    for json in ["null", "{\"0\": 1}", "\"text\"", "[]"] {
        assert_eq!(done(prepared(json, 5)), Ok(Calls { target: None, calls: vec![] }));
    }
}

#[test]
fn items_are_asked_about_until_one_has_calls() {
    let walk = again(prepared("[10, 20, 30]", 2));
    assert_eq!(walk.direction(), CallDirection::Incoming);
    assert_eq!(*walk.item(), 10);
    let walk = again(walk.resume(reply(1, CallOutcome::Failed("down"))));
    assert_eq!(*walk.item(), 20);
    let result = done(walk.resume(reply(2, CallOutcome::Parsed(vec![7, 8, 9]))));
    assert_eq!(result, Ok(Calls { target: Some(2), calls: vec![7, 8] }));
}

#[test]
fn the_last_item_is_the_target_even_without_calls() {
    let walk = again(prepared("[10, 20]", 0));
    let walk = again(walk.resume(reply(1, CallOutcome::Parsed(vec![]))));
    let result = done(walk.resume(CallReply { target: None, outcome: CallOutcome::Failed("down") }));
    assert_eq!(result, Ok(Calls { target: None, calls: vec![] }));
}

#[test]
fn calls_fail_with_the_last_failure_if_there_is_nothing_else() {
    let walk = again(prepared("[10, 20]", 5));
    let walk = again(walk.resume(reply(1, CallOutcome::Failed("one"))));
    assert_eq!(done(walk.resume(reply(2, CallOutcome::Failed("two")))), Err("two"));
}

#[test]
fn an_answer_that_cannot_be_read_ends_the_walk() {
    let walk = again(prepared("[10, 20]", 5));
    assert_eq!(done(walk.resume(reply(1, CallOutcome::Malformed("bad")))), Err("bad"));
}

#[test]
fn outgoing_calls_prepare_the_same_way() {
    let client = client();
    let here: CallsAt<&str> = client.outgoing_calls_at(prepare(&client), at(7, 8), 1);
    assert_eq!(*here.request(), request(Query::PrepareCallHierarchy { position: at(7, 8) }));
    let here = again(here.resume::<u32, u32>(Err("one")));
    let walk: CallWalk<u32, u32, &str> =
        again(done(here.resume(Ok(serde_json::from_str("[1]").unwrap()))));
    assert_eq!(walk.direction(), CallDirection::Outgoing);
    let result = done(walk.resume(reply(5, CallOutcome::Parsed(vec![7, 8]))));
    assert_eq!(result, Ok(Calls { target: Some(5), calls: vec![7] }));

    let here: CallsAt<&str> = client.outgoing_calls_at(prepare(&client), at(7, 8), 1);
    let here = again(here.resume::<u32, u32>(Err("one")));
    let here = again(here.resume::<u32, u32>(Err("two")));
    assert_eq!(done(done(here.resume::<u32, u32>(Err("three")))), Err("three"));
}

#[test]
fn workspace_symbols_are_cut_off() {
    let client = client();
    let search = client.workspace_symbols("Query", 2);
    assert_eq!(search.query(), "Query");
    assert_eq!(search.cold(), None);
    assert_eq!(search.finish::<u32, ()>(Ok(vec![1, 2, 3])), Ok(vec![1, 2]));
    assert_eq!(client.workspace_symbols("Query", 0).finish::<u32, ()>(Ok(vec![1, 2])), Ok(vec![1]));
    let search = client.workspace_symbols_for_file(prepare(&client), "Query", 5);
    assert_eq!(search.cold(), Some(true));
    assert_eq!(search.finish::<u32, ()>(Ok(vec![1, 2, 3])), Ok(vec![1, 2, 3]));
}

#[test]
fn diagnostics_are_waited_for_where_they_cannot_be_asked_for() {
    let client = client();
    let max_wait = Delay::from_millis(9);
    let pull = || client.get_diagnostics(prepare(&client), max_wait);
    assert_eq!(*pull().request(), request(Query::DocumentDiagnostics { max_wait }));
    assert_eq!(done(pull().resume::<u32, &str>(Ok(Some(vec![1])))), Ok(vec![1]));
    assert_eq!(done(pull().resume::<u32, &str>(Err("down"))), Err("down"));
    let wait = again(pull().resume::<u32, &str>(Ok(None)));
    assert_eq!(*wait.request(), request(Query::WaitForDiagnosticsUpdate { max_wait }));
    assert_eq!(done(wait.resume::<u32, &str>(Ok(vec![2]))), Ok(vec![2]));
}

#[test]
fn single_requests() {
    let client = client();
    let position = at(3, 4);
    assert_eq!(client.hover_at(prepare(&client), position), request(Query::Hover { position }));
    let new_name = "better".to_string();
    assert_eq!(
        client.rename_at(prepare(&client), position, "better"),
        request(Query::Rename { position, new_name: new_name.clone() })
    );
    assert_eq!(
        client.rename_at_prepared(b"b.rs".to_vec(), position, "better"),
        FileRequest { file: b"b.rs".to_vec(), query: Query::Rename { position, new_name } }
    );
}
