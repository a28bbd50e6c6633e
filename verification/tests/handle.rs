use asm_lsp::documents::TextDocumentContentChangeEvent;
use asm_lsp::filter::{
    is_supported_asm_document, is_supported_asm_language_id, is_supported_asm_uri,
};
use asm_lsp::handle::{
    handle_did_change_text_document_notification, handle_did_open_text_document_notification,
    handle_semantic_tokens_full_request,
};
use asm_lsp::lines::{Position, Range};
use asm_lsp::protocol::{
    DidChangeTextDocumentParams, DidOpenTextDocumentParams, Reply, RequestStep,
    TextDocumentIdentifier, TextDocumentItem, TextDocumentParams, VersionedTextDocumentIdentifier,
};
use asm_lsp::store::DocumentStore;
use asm_lsp::uri::Uri;

fn open(doc_store: &mut DocumentStore, uri: &Uri, language_id: &str, text: &str) {
    handle_did_open_text_document_notification(
        &DidOpenTextDocumentParams {
            text_document: TextDocumentItem {
                uri: uri.clone(),
                language_id: language_id.to_string(),
                version: 1,
                text: text.to_string(),
            },
        },
        doc_store,
    );
}

/// The texts of the leaves of a syntax tree.
fn leaves(node: tree_sitter::Node, source: &str, out: &mut Vec<String>) {
    if node.child_count() == 0 {
        out.push(source[node.byte_range()].to_string());
    }
    for i in 0..node.child_count() {
        leaves(node.child(i).unwrap(), source, out);
    }
}

#[test]
fn asm_document_filters_reject_non_asm_language_and_extension() {
    let c_uri = Uri::parse("file:///tmp/main.c").unwrap();
    assert!(!is_supported_asm_document(&c_uri, Some("c")));
    assert!(!is_supported_asm_uri(&c_uri));
    assert!(!is_supported_asm_language_id("c"));
}

#[test]
fn handle_did_open_ignores_non_asm_documents() {
    let mut doc_store = DocumentStore::new();
    let c_uri = Uri::parse("file:///tmp/main.c").unwrap();
    let params = DidOpenTextDocumentParams {
        text_document: TextDocumentItem {
            uri: c_uri.clone(),
            language_id: "c".to_string(),
            version: 1,
            text: "int main(void) { return 0; }".to_string(),
        },
    };

    handle_did_open_text_document_notification(&params, &mut doc_store);

    assert!(doc_store.document(&c_uri).is_none());
    assert!(doc_store.tree_entry(&c_uri).is_none());
}

#[test]
fn handle_did_open_accepts_asm_documents() {
    let mut doc_store = DocumentStore::new();
    let asm_uri = Uri::parse("file:///tmp/main.S").unwrap();
    let params = DidOpenTextDocumentParams {
        text_document: TextDocumentItem {
            uri: asm_uri.clone(),
            language_id: "asm".to_string(),
            version: 1,
            text: "mov eax, eax".to_string(),
        },
    };

    handle_did_open_text_document_notification(&params, &mut doc_store);

    assert!(doc_store.document(&asm_uri).is_some());
    assert!(doc_store.tree_entry(&asm_uri).is_some());
}

#[test]
fn handle_did_change_ignores_non_asm_uri() {
    let mut doc_store = DocumentStore::new();
    let c_uri = Uri::parse("file:///tmp/main.c").unwrap();
    let params = DidChangeTextDocumentParams {
        text_document: VersionedTextDocumentIdentifier { uri: c_uri, version: 2 },
        content_changes: vec![TextDocumentContentChangeEvent {
            range: None,
            range_length: None,
            text: "int x = 1;".to_string(),
        }],
    };

    let result = handle_did_change_text_document_notification(&params, &mut doc_store);
    assert!(result.is_ok());
    assert!(doc_store.document(&params.text_document.uri).is_none());
}

#[test]
fn semantic_tokens_remain_consistent_after_line_deletion_via_did_change() {
    let mut doc_store = DocumentStore::new();
    let asm_uri = Uri::parse("file:///tmp/main.S").unwrap();
    let old_source = ".extern printf\n    mov %rax, %rax\n    call printf\n";
    let new_source = ".extern printf\n    call printf\n";

    open(&mut doc_store, &asm_uri, "asm", old_source);

    let change = DidChangeTextDocumentParams {
        text_document: VersionedTextDocumentIdentifier { uri: asm_uri.clone(), version: 2 },
        content_changes: vec![TextDocumentContentChangeEvent {
            range: Some(Range {
                start: Position { line: 1, character: 0 },
                end: Position { line: 2, character: 0 },
            }),
            range_length: None,
            text: String::new(),
        }],
    };

    handle_did_change_text_document_notification(&change, &mut doc_store)
        .expect("didChange must succeed");

    let doc = doc_store.document(&asm_uri).expect("updated document");
    assert_eq!(doc.get_content(None), new_source);
    assert!(doc_store.tree_entry(&asm_uri).expect("tree entry").tree.is_none());

    doc_store.refresh_tree(&asm_uri);
    let entry = doc_store.tree_entry(&asm_uri).expect("tree entry");
    let tree = entry.tree.as_ref().expect("tree of the new text");
    let mut found = Vec::new();
    leaves(tree.tree().root_node(), new_source, &mut found);
    let printf_tokens = found.iter().filter(|text| text.as_str() == "printf").count();
    assert_eq!(printf_tokens, 2, "expected extern + call use: {found:?}");
}

#[test]
fn test_delta_encoding() {
    // Hand-crafted tokens: two on the first line, and one two lines below.
    let token = |delta_line, delta_start, length| lsp_types::SemanticToken {
        delta_line,
        delta_start,
        length,
        token_type: 2,
        token_modifiers_bitset: 0,
    };
    let tokens = lsp_types::SemanticTokens {
        result_id: None,
        data: vec![token(0, 4, 3), token(0, 5, 6), token(2, 1, 2)],
    };

    let mut doc_store = DocumentStore::new();
    let uri = Uri::parse("file:///test.s").unwrap();
    open(&mut doc_store, &uri, "asm", "    mov  printf\n\n ab\n");
    let text_document = TextDocumentIdentifier { uri };
    let params = TextDocumentParams { text_document, json: "{}".to_string() };
    let query = match handle_semantic_tokens_full_request(7.into(), &params, &doc_store) {
        RequestStep::Compute(query) => query,
        _ => panic!("an open document is asked"),
    };
    let value = serde_json::to_value(tokens).unwrap();
    let response = match query.answer(Some(value)) {
        Reply::Response(response) => response,
        Reply::Empty(_) => panic!("tokens were found"),
    };
    let result = response.result.unwrap();
    let data: Vec<u64> =
        result["data"].as_array().unwrap().iter().map(|n| n.as_u64().unwrap()).collect();
    assert_eq!(data, vec![0, 4, 3, 2, 0, 0, 5, 6, 2, 0, 2, 1, 2, 2, 0]);
}
