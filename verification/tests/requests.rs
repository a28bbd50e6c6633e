use asm_lsp::handle::{
    handle_completion_request, handle_did_close_text_document_notification,
    handle_did_open_text_document_notification, handle_document_symbols_request,
    handle_goto_def_request, handle_hover_request, handle_references_request, handle_request,
    handle_semantic_tokens_full_request, handle_signature_help_request,
};
use asm_lsp::lines::Position;
use asm_lsp::protocol::{
    DidCloseTextDocumentParams, DidOpenTextDocumentParams, NotificationMethod, QueryKind,
    ReferenceParams, Reply, Request, RequestMethod, RequestStep, TextDocumentIdentifier,
    TextDocumentItem, TextDocumentParams, TextDocumentPositionParams,
};
use asm_lsp::store::DocumentStore;
use asm_lsp::uri::Uri;
use lsp_types::notification as n;
use lsp_types::notification::Notification as _;
use lsp_types::request as r;
use lsp_types::request::Request as _;

const POSITION: &str = r#"{"textDocument":{"uri":"file:///tmp/a.s"},
    "position":{"line":3,"character":14}}"#;
const TRIGGERED: &str = r#"{"textDocument":{"uri":"file:///tmp/a.s"},
    "position":{"line":3,"character":14},"context":{"triggerKind":2,"triggerCharacter":"%"}}"#;
const DOCUMENT: &str = r#"{"textDocument":{"uri":"file:///tmp/a.s"}}"#;
const REFERENCE: &str = r#"{"textDocument":{"uri":"file:///tmp/a.s"},
    "position":{"line":3,"character":14},"context":{"includeDeclaration":true}}"#;

const AT: Position = Position { line: 3, character: 14 };

const QUERIES: [(&str, &str, QueryKind); 8] = [
    ("textDocument/hover", POSITION, QueryKind::Hover(AT)),
    ("textDocument/completion", POSITION, QueryKind::Completion(AT)),
    ("textDocument/completion", TRIGGERED, QueryKind::Completion(AT)),
    ("textDocument/definition", POSITION, QueryKind::GotoDefinition(AT)),
    ("textDocument/documentSymbol", DOCUMENT, QueryKind::DocumentSymbol),
    ("textDocument/signatureHelp", POSITION, QueryKind::SignatureHelp(AT)),
    (
        "textDocument/references",
        REFERENCE,
        QueryKind::References { position: AT, include_declaration: true },
    ),
    ("textDocument/semanticTokens/full", DOCUMENT, QueryKind::SemanticTokensFull),
];

fn request(id: i32, method: &str, params: &str) -> Request {
    Request { id: id.into(), method: method.to_string(), params: params.to_string() }
}

fn open(doc_store: &mut DocumentStore, text: &str) -> Uri {
    let uri = Uri::parse(text).unwrap();
    let text_document = TextDocumentItem {
        uri: uri.clone(),
        language_id: "asm".to_string(),
        version: 1,
        text: "nop\n".to_string(),
    };
    handle_did_open_text_document_notification(
        &DidOpenTextDocumentParams { text_document },
        doc_store,
    );
    uri
}

fn kind_of(step: &RequestStep, id: i32, uri: &str, json: &str) -> Option<QueryKind> {
    match step {
        RequestStep::Compute(query) => {
            assert_eq!(query.id, id.into());
            assert_eq!(query.uri.as_str(), uri);
            assert_eq!(query.json, json);
            Some(query.kind)
        }
        RequestStep::Reply(Reply::Empty(reply_id)) => {
            assert_eq!(*reply_id, id.into());
            None
        }
        _ => panic!("neither a query nor the empty response"),
    }
}

#[test]
fn methods_are_those_of_the_protocol() {
    let requests = [
        (r::HoverRequest::METHOD, RequestMethod::Hover),
        (r::Completion::METHOD, RequestMethod::Completion),
        (r::GotoDefinition::METHOD, RequestMethod::GotoDefinition),
        (r::DocumentSymbolRequest::METHOD, RequestMethod::DocumentSymbol),
        (r::SignatureHelpRequest::METHOD, RequestMethod::SignatureHelp),
        (r::References::METHOD, RequestMethod::References),
        (r::SemanticTokensFullRequest::METHOD, RequestMethod::SemanticTokensFull),
        (r::DocumentDiagnosticRequest::METHOD, RequestMethod::DocumentDiagnostic),
    ];
    for (method, expected) in requests {
        assert_eq!(RequestMethod::named(method), Some(expected));
        assert_eq!(NotificationMethod::named(method), None);
    }
    let notifications = [
        (n::DidOpenTextDocument::METHOD, NotificationMethod::DidOpen),
        (n::DidChangeTextDocument::METHOD, NotificationMethod::DidChange),
        (n::DidCloseTextDocument::METHOD, NotificationMethod::DidClose),
        (n::DidSaveTextDocument::METHOD, NotificationMethod::DidSave),
    ];
    for (method, expected) in notifications {
        assert_eq!(NotificationMethod::named(method), Some(expected));
        assert_eq!(RequestMethod::named(method), None);
    }
    assert_eq!(RequestMethod::named("textDocument/Hover"), None);
    assert_eq!(RequestMethod::named(""), None);
}

#[test]
fn open_documents_are_asked() {
    let mut doc_store = DocumentStore::new();
    open(&mut doc_store, "file:///tmp/a.s");
    for (method, params, kind) in QUERIES {
        let step = handle_request(request(3, method, params), &doc_store);
        assert_eq!(kind_of(&step, 3, "file:///tmp/a.s", params), Some(kind), "{method}");
    }
}

#[test]
fn documents_that_are_not_open_get_the_empty_response() {
    let mut doc_store = DocumentStore::new();
    open(&mut doc_store, "file:///tmp/b.s");
    for (method, params, _) in QUERIES {
        let step = handle_request(request(4, method, params), &doc_store);
        assert_eq!(kind_of(&step, 4, "file:///tmp/a.s", params), None, "{method}");
    }
}

#[test]
fn closed_documents_get_the_empty_response() {
    let mut doc_store = DocumentStore::new();
    let uri = open(&mut doc_store, "file:///tmp/a.s");
    let text_document = TextDocumentIdentifier { uri };
    handle_did_close_text_document_notification(
        &DidCloseTextDocumentParams { text_document },
        &mut doc_store,
    );
    for (method, params, _) in QUERIES {
        let step = handle_request(request(5, method, params), &doc_store);
        assert_eq!(kind_of(&step, 5, "file:///tmp/a.s", params), None, "{method}");
    }
}

#[test]
fn malformed_requests_are_ignored() {
    let mut doc_store = DocumentStore::new();
    open(&mut doc_store, "file:///tmp/a.s");
    let malformed = [
        "",
        "null",
        "{",
        "{}",
        "[]",
        r#"{"textDocument":{"uri":"file:///tmp/a b.s"},"position":{"line":0,"character":1}}"#,
        r#"{"textDocument":{"uri":7},"position":{"line":0,"character":1}}"#,
    ];
    for (method, _, _) in QUERIES {
        for params in malformed {
            let step = handle_request(request(6, method, params), &doc_store);
            assert!(matches!(step, RequestStep::Malformed), "{method} {params}");
        }
    }
    let without_context = handle_request(
        request(6, "textDocument/references", POSITION),
        &doc_store,
    );
    assert!(matches!(without_context, RequestStep::Malformed));
}

#[test]
fn unknown_methods_are_ignored() {
    let mut doc_store = DocumentStore::new();
    open(&mut doc_store, "file:///tmp/a.s");
    for method in ["", "textDocument/rename", "textDocument/didOpen", "textDocument/hover "] {
        let step = handle_request(request(7, method, POSITION), &doc_store);
        assert!(matches!(step, RequestStep::Unknown), "{method}");
    }
}

#[test]
fn diagnostics_are_requested_for_assembly_files_only() {
    let doc_store = DocumentStore::new();
    let step = handle_request(request(8, "textDocument/diagnostic", DOCUMENT), &doc_store);
    match step {
        RequestStep::Diagnose(uri) => assert_eq!(uri.as_str(), "file:///tmp/a.s"),
        _ => panic!("an assembly file has diagnostics"),
    }
    let c = r#"{"textDocument":{"uri":"file:///tmp/a.c"}}"#;
    let step = handle_request(request(8, "textDocument/diagnostic", c), &doc_store);
    assert!(matches!(step, RequestStep::Nothing));
}

#[test]
fn references_may_leave_declarations_out() {
    let mut doc_store = DocumentStore::new();
    open(&mut doc_store, "file:///tmp/a.s");
    let params = REFERENCE.replace("true", "false");
    let step = handle_request(request(2, "textDocument/references", &params), &doc_store);
    let expected = QueryKind::References { position: AT, include_declaration: false };
    assert_eq!(kind_of(&step, 2, "file:///tmp/a.s", &params), Some(expected));
}

fn identifier(uri: &Uri) -> TextDocumentIdentifier {
    TextDocumentIdentifier { uri: uri.clone() }
}

fn positioned(uri: &Uri) -> TextDocumentPositionParams {
    let text_document = identifier(uri);
    TextDocumentPositionParams { text_document, position: AT, json: "{}".to_string() }
}

#[test]
fn handlers_ask_open_documents() {
    let mut doc_store = DocumentStore::new();
    let uri = open(&mut doc_store, "file:///tmp/a.s");
    let other = Uri::parse("file:///tmp/b.s").unwrap();
    type AtPosition = fn(
        lsp_server::RequestId,
        &TextDocumentPositionParams,
        &DocumentStore,
    ) -> RequestStep;
    let handlers: [(AtPosition, QueryKind); 4] = [
        (handle_hover_request, QueryKind::Hover(AT)),
        (handle_completion_request, QueryKind::Completion(AT)),
        (handle_goto_def_request, QueryKind::GotoDefinition(AT)),
        (handle_signature_help_request, QueryKind::SignatureHelp(AT)),
    ];
    for (handler, kind) in handlers {
        let step = handler(9.into(), &positioned(&uri), &doc_store);
        assert_eq!(kind_of(&step, 9, "file:///tmp/a.s", "{}"), Some(kind));
        let step = handler(9.into(), &positioned(&other), &doc_store);
        assert_eq!(kind_of(&step, 9, "file:///tmp/b.s", "{}"), None);
    }
    type Document = fn(lsp_server::RequestId, &TextDocumentParams, &DocumentStore) -> RequestStep;
    let handlers: [(Document, QueryKind); 2] = [
        (handle_document_symbols_request, QueryKind::DocumentSymbol),
        (handle_semantic_tokens_full_request, QueryKind::SemanticTokensFull),
    ];
    for (handler, kind) in handlers {
        let params = |uri| TextDocumentParams {
            text_document: identifier(uri),
            json: "{}".to_string(),
        };
        let step = handler(9.into(), &params(&uri), &doc_store);
        assert_eq!(kind_of(&step, 9, "file:///tmp/a.s", "{}"), Some(kind));
        let step = handler(9.into(), &params(&other), &doc_store);
        assert_eq!(kind_of(&step, 9, "file:///tmp/b.s", "{}"), None);
    }
    let params = |uri| ReferenceParams {
        text_document_position: positioned(uri),
        include_declaration: false,
    };
    let step = handle_references_request(9.into(), &params(&uri), &doc_store);
    let expected = QueryKind::References { position: AT, include_declaration: false };
    assert_eq!(kind_of(&step, 9, "file:///tmp/a.s", "{}"), Some(expected));
    let step = handle_references_request(9.into(), &params(&other), &doc_store);
    assert_eq!(kind_of(&step, 9, "file:///tmp/b.s", "{}"), None);
}

#[test]
fn answers_carry_the_identifier_and_the_result() {
    let mut doc_store = DocumentStore::new();
    let uri = open(&mut doc_store, "file:///tmp/a.s");
    let params = positioned(&uri);
    let ask = |id: String| match handle_hover_request(id.into(), &params, &doc_store) {
        RequestStep::Compute(query) => query,
        _ => panic!("an open document is asked"),
    };
    let value = serde_json::Value::String("found".to_string());
    match ask("x".to_string()).answer(Some(value.clone())) {
        Reply::Response(response) => {
            assert_eq!(response.id, "x".to_string().into());
            assert_eq!(response.result, Some(value));
            assert!(response.error.is_none());
        }
        Reply::Empty(_) => panic!("something was found"),
    }
    match ask("y".to_string()).answer(None) {
        Reply::Empty(id) => assert_eq!(id, "y".to_string().into()),
        Reply::Response(_) => panic!("nothing was found"),
    }
}
