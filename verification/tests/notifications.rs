use asm_lsp::documents::{change_fits, TextDocumentContentChangeEvent};
use asm_lsp::handle::{
    handle_did_change_text_document_notification, handle_did_close_text_document_notification,
    handle_did_open_text_document_notification, handle_notification, try_did_change,
};
use asm_lsp::lines::{count_breaks, Position, Range};
use asm_lsp::protocol::{
    ChangeDoesNotFit, DidChangeTextDocumentParams, DidCloseTextDocumentParams,
    DidOpenTextDocumentParams, Notification, NotificationStep, TextDocumentIdentifier, TextDocumentItem,
    VersionedTextDocumentIdentifier,
};
use asm_lsp::store::DocumentStore;
use asm_lsp::uri::Uri;

fn uri(text: &str) -> Uri {
    Uri::parse(text).unwrap()
}

fn open_as(doc_store: &mut DocumentStore, name: &str, language_id: &str, text: &str) {
    let text_document = TextDocumentItem {
        uri: uri(name),
        language_id: language_id.to_string(),
        version: 1,
        text: text.to_string(),
    };
    handle_did_open_text_document_notification(
        &DidOpenTextDocumentParams { text_document },
        doc_store,
    );
}

fn range(start: (u32, u32), end: (u32, u32)) -> Option<Range> {
    Some(Range {
        start: Position { line: start.0, character: start.1 },
        end: Position { line: end.0, character: end.1 },
    })
}

fn change(range: Option<Range>, text: &str) -> TextDocumentContentChangeEvent {
    TextDocumentContentChangeEvent { range, range_length: None, text: text.to_string() }
}

fn changes(
    name: &str,
    version: i32,
    content_changes: Vec<TextDocumentContentChangeEvent>,
) -> DidChangeTextDocumentParams {
    let text_document = VersionedTextDocumentIdentifier { uri: uri(name), version };
    DidChangeTextDocumentParams { text_document, content_changes }
}

fn close(doc_store: &mut DocumentStore, name: &str) {
    let text_document = TextDocumentIdentifier { uri: uri(name) };
    handle_did_close_text_document_notification(
        &DidCloseTextDocumentParams { text_document },
        doc_store,
    );
}

fn text(doc_store: &DocumentStore, name: &str) -> Option<String> {
    doc_store.document(&uri(name)).map(|document| document.get_content(None).to_string())
}

fn sexp(doc_store: &DocumentStore, name: &str) -> Option<String> {
    let entry = doc_store.tree_entry(&uri(name)).unwrap();
    entry.tree.as_ref().map(|tree| tree.tree().root_node().to_sexp())
}

fn parsed(source: &str) -> String {
    let mut parser = tree_sitter::Parser::new();
    parser.set_language(&tree_sitter_asm::language()).unwrap();
    parser.parse(source, None).unwrap().root_node().to_sexp()
}

fn notify(
    doc_store: &mut DocumentStore,
    method: &str,
    params: &str,
) -> Result<NotificationStep, ChangeDoesNotFit> {
    handle_notification(
        &Notification { method: method.to_string(), params: params.to_string() },
        doc_store,
    )
}

const A: &str = "file:///tmp/a.s";
const B: &str = "file:///tmp/b.s";

#[test]
fn opening_keeps_the_text_and_its_tree() {
    let mut doc_store = DocumentStore::new();
    open_as(&mut doc_store, A, "asm", "main:\n  ret\n");
    let document = doc_store.document(&uri(A)).unwrap();
    assert_eq!(document.get_content(None), "main:\n  ret\n");
    assert_eq!(document.language_id(), "asm");
    assert_eq!(document.version(), 1);
    assert_eq!(document.line_count(), 3);
    assert_eq!(sexp(&doc_store, A), Some(parsed("main:\n  ret\n")));
}

#[test]
fn opening_again_replaces_the_document() {
    let mut doc_store = DocumentStore::new();
    open_as(&mut doc_store, A, "asm", "nop\n");
    open_as(&mut doc_store, B, "asm", "hlt\n");
    open_as(&mut doc_store, A, "Assembly", "main:\n  ret\n");
    assert_eq!(text(&doc_store, A).as_deref(), Some("main:\n  ret\n"));
    assert_eq!(text(&doc_store, B).as_deref(), Some("hlt\n"));
    assert_eq!(sexp(&doc_store, A), Some(parsed("main:\n  ret\n")));
    assert_eq!(doc_store.document(&uri(A)).unwrap().language_id(), "Assembly");
}

#[test]
fn changes_update_the_text_and_drop_the_tree() {
    let mut doc_store = DocumentStore::new();
    open_as(&mut doc_store, A, "asm", "mov eax, ebx\n");
    open_as(&mut doc_store, B, "asm", "hlt\n");
    let params = changes(
        A,
        7,
        vec![
            change(range((0, 4), (0, 7)), "ecx"),
            change(range((0, 0), (0, 0)), "main:\n"),
            change(range((1, 12), (2, 0)), "\nret\n"),
        ],
    );
    assert!(handle_did_change_text_document_notification(&params, &mut doc_store).is_ok());
    assert_eq!(text(&doc_store, A).as_deref(), Some("main:\nmov ecx, ebx\nret\n"));
    assert_eq!(doc_store.document(&uri(A)).unwrap().version(), 7);
    assert_eq!(doc_store.document(&uri(A)).unwrap().language_id(), "asm");
    assert_eq!(sexp(&doc_store, A), None);
    assert_eq!(text(&doc_store, B).as_deref(), Some("hlt\n"));
    assert_eq!(sexp(&doc_store, B), Some(parsed("hlt\n")));

    doc_store.refresh_tree(&uri(A));
    assert_eq!(sexp(&doc_store, A), Some(parsed("main:\nmov ecx, ebx\nret\n")));
}

#[test]
fn a_cloned_change_is_the_same() {
    let original = TextDocumentContentChangeEvent {
        range: range((0, 1), (2, 3)),
        range_length: Some(5),
        text: "x".to_string(),
    };
    let cloned = original.clone();
    assert_eq!(cloned.range, original.range);
    assert_eq!(cloned.range_length, Some(5));
    assert_eq!(cloned.text, "x");
}

#[test]
fn changes_in_one_notification_or_in_several() {
    let make = || {
        let mut doc_store = DocumentStore::new();
        open_as(&mut doc_store, A, "asm", "a\r\nb\u{1F496}c\n");
        doc_store
    };
    let list = || vec![
        change(range((1, 3), (1, 4)), "X"),
        change(range((0, 1), (1, 0)), " "),
        change(range((1, 0), (1, 0)), "end"),
    ];
    let mut together = make();
    assert_eq!(try_did_change(&changes(A, 3, list()), &mut together), Ok(()));
    let mut apart = make();
    for one in list() {
        assert_eq!(try_did_change(&changes(A, 3, vec![one]), &mut apart), Ok(()));
    }
    let mut checked = make();
    assert!(handle_did_change_text_document_notification(&changes(A, 3, list()), &mut checked).is_ok());
    assert_eq!(text(&together, A).as_deref(), Some("a b\u{1F496}X\nend"));
    assert_eq!(text(&apart, A), text(&together, A));
    assert_eq!(text(&checked, A), text(&together, A));
}

#[test]
fn a_change_without_a_range_sets_the_text() {
    let mut doc_store = DocumentStore::new();
    open_as(&mut doc_store, A, "asm", "mov eax, ebx\n");
    let params = changes(A, 2, vec![change(range((0, 0), (0, 3)), "add"), change(None, "ret")]);
    assert!(handle_did_change_text_document_notification(&params, &mut doc_store).is_ok());
    assert_eq!(text(&doc_store, A).as_deref(), Some("ret"));
}

#[test]
fn no_changes_set_the_version() {
    let mut doc_store = DocumentStore::new();
    open_as(&mut doc_store, A, "asm", "nop\n");
    assert_eq!(try_did_change(&changes(A, 9, vec![]), &mut doc_store), Ok(()));
    assert_eq!(text(&doc_store, A).as_deref(), Some("nop\n"));
    assert_eq!(doc_store.document(&uri(A)).unwrap().version(), 9);
    assert_eq!(sexp(&doc_store, A), None);
}

#[test]
fn changes_of_documents_that_were_not_opened_are_ignored() {
    let mut doc_store = DocumentStore::new();
    let params = changes(A, 2, vec![change(None, "nop")]);
    assert!(handle_did_change_text_document_notification(&params, &mut doc_store).is_ok());
    assert_eq!(text(&doc_store, A), None);
}

#[test]
fn documents_known_by_their_language_only_do_not_change_but_close() {
    let name = "file:///tmp/notes.txt";
    let mut doc_store = DocumentStore::new();
    open_as(&mut doc_store, name, "ASM", "nop\n");
    assert_eq!(text(&doc_store, name).as_deref(), Some("nop\n"));
    let params = changes(name, 2, vec![change(None, "hlt\n")]);
    assert!(handle_did_change_text_document_notification(&params, &mut doc_store).is_ok());
    assert_eq!(text(&doc_store, name).as_deref(), Some("nop\n"));
    assert_eq!(sexp(&doc_store, name), Some(parsed("nop\n")));
    close(&mut doc_store, name);
    assert_eq!(text(&doc_store, name), None);
    assert!(doc_store.tree_entry(&uri(name)).is_none());
}

#[test]
fn closing_undoes_opening() {
    let mut doc_store = DocumentStore::new();
    open_as(&mut doc_store, B, "asm", "hlt\n");
    open_as(&mut doc_store, A, "asm", "nop\n");
    for version in 2..5 {
        let params = changes(A, version, vec![change(range((0, 0), (0, 0)), "nop\n")]);
        assert_eq!(try_did_change(&params, &mut doc_store), Ok(()));
        doc_store.refresh_tree(&uri(A));
    }
    close(&mut doc_store, A);
    close(&mut doc_store, A);
    close(&mut doc_store, "file:///tmp/c.c");
    assert_eq!(text(&doc_store, A), None);
    assert!(doc_store.tree_entry(&uri(A)).is_none());
    assert_eq!(text(&doc_store, B).as_deref(), Some("hlt\n"));
    assert_eq!(sexp(&doc_store, B), Some(parsed("hlt\n")));
}

#[test]
fn refreshing_keeps_a_current_tree() {
    let mut doc_store = DocumentStore::new();
    open_as(&mut doc_store, A, "asm", "nop\n");
    doc_store.refresh_tree(&uri(A));
    doc_store.refresh_tree(&uri(B));
    assert_eq!(sexp(&doc_store, A), Some(parsed("nop\n")));
    assert!(doc_store.tree_entry(&uri(B)).is_none());
}

#[test]
fn changes_that_do_not_fit_are_refused() {
    let misfits = [
        change(range((0, 2), (0, 1)), "x"),
        change(range((1, 0), (0, 0)), "x"),
        change(range((2, 0), (2, 0)), "x"),
        change(range((0, 0), (2, 0)), "x"),
        change(range((9, 9), (9, 9)), "x"),
    ];
    for misfit in misfits {
        let mut doc_store = DocumentStore::new();
        open_as(&mut doc_store, A, "asm", "nop\n");
        assert!(!change_fits(doc_store.document(&uri(A)).unwrap(), &misfit));
        let params = changes(A, 2, vec![misfit]);
        assert_eq!(
            try_did_change(&params, &mut doc_store),
            Err(ChangeDoesNotFit { index: 0 }),
        );
        assert_eq!(text(&doc_store, A).as_deref(), Some("nop\n"));
        assert_eq!(sexp(&doc_store, A), Some(parsed("nop\n")));
    }
}

#[test]
fn changes_that_fit_at_the_edges() {
    let fitting = [
        ("nop\n", change(range((1, 0), (1, 0)), "x"), "nop\nx"),
        ("nop\n", change(range((1, 5), (1, 9)), "x"), "nop\nx"),
        ("nop\n", change(range((0, 9), (0, 99)), "x"), "nop\nx"),
        ("nop\n", change(range((0, 9), (1, 0)), "x"), "nop\nx"),
        ("nop", change(range((0, 1), (7, 0)), "x"), "nx"),
        ("", change(range((3, 1), (7, 0)), "x"), "x"),
        ("", change(range((7, 1), (3, 0)), "x"), "x"),
        ("a\rb", change(range((1, 0), (1, 1)), "x"), "a\rx"),
        ("ab\ncd", change(range((1, 0), (0, 3)), "X"), "ab\nXcd"),
        ("ab\ncd", change(range((1, 0), (0, 99)), "X\n"), "ab\nX\ncd"),
        ("ab\r\ncd", change(range((1, 0), (0, 4)), "X"), "ab\r\nXcd"),
        ("a\n\nb", change(range((2, 0), (1, 1)), "X"), "a\n\nXb"),
        ("\u{1F496}b", change(range((0, 1), (0, 2)), "x"), "xb"),
    ];
    for (source, fit, expected) in fitting {
        let mut doc_store = DocumentStore::new();
        open_as(&mut doc_store, A, "asm", source);
        assert!(change_fits(doc_store.document(&uri(A)).unwrap(), &fit), "{source:?} {fit:?}");
        assert_eq!(try_did_change(&changes(A, 2, vec![fit]), &mut doc_store), Ok(()));
        assert_eq!(text(&doc_store, A).as_deref(), Some(expected));
    }
}

#[test]
fn a_range_may_start_where_the_line_after_its_end_does() {
    let mut doc_store = DocumentStore::new();
    open_as(&mut doc_store, A, "asm", "ab\ncd");
    let params = "{\"textDocument\":{\"uri\":\"file:///tmp/a.s\",\"version\":2},\
        \"contentChanges\":[{\"range\":{\"start\":{\"line\":1,\"character\":0},\
        \"end\":{\"line\":0,\"character\":3}},\"text\":\"X\"}]}";
    let step = notify(&mut doc_store, "textDocument/didChange", params);
    assert!(matches!(step, Ok(NotificationStep::Done)));
    assert_eq!(text(&doc_store, A).as_deref(), Some("ab\nXcd"));

    // The lines are still told apart.
    let more = changes(A, 3, vec![change(range((1, 1), (1, 3)), "Y")]);
    assert_eq!(try_did_change(&more, &mut doc_store), Ok(()));
    assert_eq!(text(&doc_store, A).as_deref(), Some("ab\nXY"));

    // After a carriage return, or two lines on, the ends do not meet on one line.
    for (source, misfit) in [
        ("ab\rcd", change(range((1, 0), (0, 3)), "X")),
        ("a\n\n\nb", change(range((3, 0), (1, 1)), "X")),
        ("ab\ncd", change(range((1, 1), (0, 3)), "X")),
    ] {
        open_as(&mut doc_store, A, "asm", source);
        let params = changes(A, 2, vec![misfit]);
        assert_eq!(
            try_did_change(&params, &mut doc_store),
            Err(ChangeDoesNotFit { index: 0 }),
        );
    }
}

#[test]
fn two_lines_may_come_to_start_at_one_place() {
    let mut doc_store = DocumentStore::new();
    open_as(&mut doc_store, A, "asm", "x\n\ry");
    let params = changes(A, 2, vec![change(range((1, 0), (1, 1)), "")]);
    assert_eq!(try_did_change(&params, &mut doc_store), Ok(()));
    assert_eq!(text(&doc_store, A).as_deref(), Some("x\ny"));
    assert_eq!(doc_store.document(&uri(A)).unwrap().line_count(), 3);

    let params = changes(A, 3, vec![change(range((2, 0), (1, 5)), "z")]);
    assert_eq!(try_did_change(&params, &mut doc_store), Err(ChangeDoesNotFit { index: 0 }));
    let params = changes(A, 3, vec![change(range((1, 0), (2, 0)), "z\n")]);
    assert_eq!(try_did_change(&params, &mut doc_store), Ok(()));
    assert_eq!(text(&doc_store, A).as_deref(), Some("x\nz\ny"));
    assert_eq!(doc_store.document(&uri(A)).unwrap().line_count(), 3);
}

#[test]
fn line_breaks_are_counted_as_lines_are() {
    for (source, expected) in [
        ("", 0),
        ("a", 0),
        ("\n", 1),
        ("\r", 1),
        ("\r\n", 1),
        ("\n\r", 2),
        ("a\r\rb\n\nc\r\n", 5),
        ("\u{1F496}\n\u{2028}", 1),
    ] {
        let mut doc_store = DocumentStore::new();
        open_as(&mut doc_store, A, "asm", source);
        let lines = doc_store.document(&uri(A)).unwrap().line_count();
        assert_eq!(count_breaks(source), expected);
        assert_eq!(lines as usize, expected + 1);
    }
}

#[test]
fn a_changed_document_is_as_one_opened_afresh() {
    let mut changed = DocumentStore::new();
    open_as(&mut changed, A, "asm", "main:\n  nop\n  ret\n");
    let params = changes(A, 2, vec![change(range((1, 0), (2, 0)), "")]);
    assert_eq!(try_did_change(&params, &mut changed), Ok(()));
    changed.refresh_tree(&uri(A));
    let mut afresh = DocumentStore::new();
    open_as(&mut afresh, A, "asm", "main:\n  ret\n");
    afresh.refresh_tree(&uri(A));
    assert_eq!(text(&changed, A), text(&afresh, A));
    assert_eq!(sexp(&changed, A), sexp(&afresh, A));
}

#[test]
fn changes_before_one_that_does_not_fit_are_made() {
    let mut doc_store = DocumentStore::new();
    open_as(&mut doc_store, A, "asm", "a\nb\n");
    let params = changes(
        A,
        4,
        vec![
            change(range((0, 0), (1, 0)), ""),
            change(range((2, 0), (2, 0)), "x"),
            change(None, "y"),
        ],
    );
    assert_eq!(try_did_change(&params, &mut doc_store), Err(ChangeDoesNotFit { index: 1 }));
    assert_eq!(text(&doc_store, A).as_deref(), Some("b\n"));
    assert_eq!(sexp(&doc_store, A), None);
}

#[test]
fn no_sequence_of_fitting_changes_panics() {
    let pieces = ["", "x", "\n", "\r", "\r\n", "a\rb", "y\n", "\u{1F496}"];
    let mut seed: u64 = 12345;
    let mut next = |bound: u64| {
        seed = seed.wrapping_mul(6364136223846793005).wrapping_add(1442695040888963407);
        (seed >> 33) % bound
    };
    let mut made = 0;
    for _ in 0..60 {
        let mut doc_store = DocumentStore::new();
        open_as(&mut doc_store, A, "asm", "a\r\nb\n");
        for step in 0..60 {
            let new = pieces[next(8) as usize];
            let r = range(
                (next(6) as u32, next(5) as u32),
                (next(6) as u32, next(5) as u32),
            );
            let params = changes(A, step, vec![change(r, new)]);
            let before = text(&doc_store, A).unwrap();
            let document = doc_store.document(&uri(A)).unwrap();
            let position = |p: Position| lsp_types::Position::new(p.line, p.character);
            let start = document.offset_at(position(r.unwrap().start)) as usize;
            let end = document.offset_at(position(r.unwrap().end)) as usize;
            match try_did_change(&params, &mut doc_store) {
                Ok(()) => {
                    made += 1;
                    let expected = format!("{}{}{}", &before[..start], new, &before[end..]);
                    assert_eq!(text(&doc_store, A), Some(expected));
                }
                Err(misfit) => {
                    assert_eq!(misfit, ChangeDoesNotFit { index: 0 });
                    assert_eq!(text(&doc_store, A), Some(before));
                }
            }
        }
    }
    assert!(made > 100);
}

#[test]
fn notifications_reach_the_documents() {
    let mut doc_store = DocumentStore::new();
    let opened = notify(
        &mut doc_store,
        "textDocument/didOpen",
        r#"{"textDocument":{"uri":"file:///tmp/a.s","languageId":"asm","version":1,"text":"nop\n"}}"#,
    );
    assert!(matches!(opened, Ok(NotificationStep::Done)));
    assert_eq!(text(&doc_store, A).as_deref(), Some("nop\n"));
    let document = doc_store.document(&uri(A)).unwrap();
    assert_eq!((document.language_id(), document.version()), ("asm", 1));

    let changed = notify(
        &mut doc_store,
        "textDocument/didChange",
        r#"{"textDocument":{"uri":"file:///tmp/a.s","version":2},"contentChanges":[{"range":{"start":{"line":0,"character":1},"end":{"line":0,"character":2}},"text":"a"},{"range":{"start":{"line":1,"character":0},"end":{"line":1,"character":0}},"text":"ret"}]}"#,
    );
    assert!(matches!(changed, Ok(NotificationStep::Done)));
    assert_eq!(text(&doc_store, A).as_deref(), Some("nap\nret"));
    assert_eq!(doc_store.document(&uri(A)).unwrap().version(), 2);

    let refused = notify(
        &mut doc_store,
        "textDocument/didChange",
        r#"{"textDocument":{"uri":"file:///tmp/a.s","version":3},"contentChanges":[{"range":{"start":{"line":5,"character":0},"end":{"line":5,"character":0}},"text":"a"}]}"#,
    );
    assert!(matches!(refused, Err(ChangeDoesNotFit { index: 0 })));

    let saved = r#"{"textDocument":{"uri":"file:///tmp/a.s"}}"#;
    match notify(&mut doc_store, "textDocument/didSave", saved) {
        Ok(NotificationStep::Diagnose(uri)) => assert_eq!(uri.as_str(), A),
        _ => panic!("an open assembly file is diagnosed when it is saved"),
    }

    let closed = notify(&mut doc_store, "textDocument/didClose", saved);
    assert!(matches!(closed, Ok(NotificationStep::Done)));
    assert_eq!(text(&doc_store, A), None);

    let saved = notify(&mut doc_store, "textDocument/didSave", saved);
    assert!(matches!(saved, Ok(NotificationStep::Done)));
}

#[test]
fn notifications_about_other_documents_are_passed_over() {
    let mut doc_store = DocumentStore::new();
    let c = "file:///tmp/a.c";
    let about = [
        ("textDocument/didOpen", r#"{"textDocument":{"uri":"file:///tmp/a.c","languageId":"c","version":1,"text":"int x;"}}"#),
        ("textDocument/didChange", r#"{"textDocument":{"uri":"file:///tmp/a.c","version":2},"contentChanges":[{"text":"int y;"}]}"#),
        ("textDocument/didSave", r#"{"textDocument":{"uri":"file:///tmp/a.c"}}"#),
        ("textDocument/didClose", r#"{"textDocument":{"uri":"file:///tmp/a.c"}}"#),
    ];
    for (method, params) in about {
        let step = notify(&mut doc_store, method, params);
        assert!(matches!(step, Ok(NotificationStep::Done)), "{method}");
        assert_eq!(text(&doc_store, c), None);
    }
}

#[test]
fn malformed_notifications_are_ignored() {
    let mut doc_store = DocumentStore::new();
    open_as(&mut doc_store, A, "asm", "nop\n");
    let methods = [
        "textDocument/didOpen",
        "textDocument/didChange",
        "textDocument/didClose",
        "textDocument/didSave",
    ];
    for method in methods {
        for params in ["", "null", "{}", r#"{"textDocument":{"uri":"file:///tmp/ a.s"}}"#] {
            let step = notify(&mut doc_store, method, params);
            assert!(matches!(step, Ok(NotificationStep::Malformed)), "{method} {params}");
        }
    }
    for method in ["", "initialized", "textDocument/hover", "textDocument/didopen"] {
        let step = notify(&mut doc_store, method, r#"{"textDocument":{"uri":"file:///tmp/a.s"}}"#);
        assert!(matches!(step, Ok(NotificationStep::Unknown)), "{method}");
    }
    assert_eq!(text(&doc_store, A).as_deref(), Some("nop\n"));
}
