//! Reading the parameters of messages.
//!
//! Parameters come as JSON text. Of each kind of message, the server reads which document it is
//! about and, where it has one, the position; of a document that is opened or changed it also reads
//! the text. The URIs in parameters
//! are read with the parser that `uri_path` stands for, and come back as they were written, so each
//! of them is a URI. That parser panics on a URI of more than `i32::MAX` bytes, which is why a
//! message may not be longer.

use lsp_types::notification::Notification as _;
use lsp_types::request::Request as _;
use vstd::prelude::*;
use vstd::utf8::encode_utf8;

use crate::documents::changes_view;
use crate::documents::Change;
use crate::documents::TextDocumentContentChangeEvent;
use crate::lines::Position;
use crate::lines::Range;
use crate::text::within_limit;
use crate::uri::is_uri;

verus! {

/// The identifier of a request, as `lsp_server` has it.
#[verifier::external_type_specification]
#[verifier::external_body]
pub struct ExRequestId(lsp_server::RequestId);

/// The URI of the document and the position in it that a hover request is about, by the JSON
/// text of its parameters, or `None` where that text is not one of such parameters.
pub uninterp spec fn hover_target(params: Seq<char>) -> Option<(Seq<char>, Position)>;

/// Calls `lsp_server::Request::extract` for `lsp_types::HoverParams`, and takes the
/// document's URI and the position out of what it returns. `hover_target` stands for both. The
/// URI parses as one, and the identifier comes back as it is.
#[verifier::external_body]
pub(crate) fn cast_hover(id: lsp_server::RequestId, params: &str) -> (r: Option<
    (lsp_server::RequestId, String, Position),
>)
    requires
        within_limit(params@),
    ensures
        match r {
            Some((same, uri, position)) => {
                &&& same == id
                &&& hover_target(params@) == Some((uri@, position))
                &&& is_uri(uri@)
            },
            None => hover_target(params@) is None,
        },
{
    let method = lsp_types::request::HoverRequest::METHOD;
    let params = serde_json::from_str(params).ok()?;
    let request = lsp_server::Request { id, method: method.to_string(), params };
    let (id, params) = request.extract::<lsp_types::HoverParams>(method).ok()?;
    let target = params.text_document_position_params;
    let (line, character) = (target.position.line, target.position.character);
    let uri = target.text_document.uri.as_str().to_string();
    Some((id, uri, Position { line, character }))
}

/// The URI of the document and the position in it that a completion request is about, by the JSON
/// text of its parameters, or `None` where that text is not one of such parameters.
pub uninterp spec fn completion_target(params: Seq<char>) -> Option<(Seq<char>, Position)>;

/// Calls `lsp_server::Request::extract` for `lsp_types::CompletionParams`, and takes the
/// document's URI and the position out of what it returns. `completion_target` stands for both. The
/// URI parses as one, and the identifier comes back as it is.
#[verifier::external_body]
pub(crate) fn cast_completion(id: lsp_server::RequestId, params: &str) -> (r: Option<
    (lsp_server::RequestId, String, Position),
>)
    requires
        within_limit(params@),
    ensures
        match r {
            Some((same, uri, position)) => {
                &&& same == id
                &&& completion_target(params@) == Some((uri@, position))
                &&& is_uri(uri@)
            },
            None => completion_target(params@) is None,
        },
{
    let method = lsp_types::request::Completion::METHOD;
    let params = serde_json::from_str(params).ok()?;
    let request = lsp_server::Request { id, method: method.to_string(), params };
    let (id, params) = request.extract::<lsp_types::CompletionParams>(method).ok()?;
    let target = params.text_document_position;
    let (line, character) = (target.position.line, target.position.character);
    let uri = target.text_document.uri.as_str().to_string();
    Some((id, uri, Position { line, character }))
}

/// The URI of the document and the position in it that a go to definition request is about, by
/// the JSON text of its parameters, or `None` where that text is not one of such parameters.
pub uninterp spec fn definition_target(params: Seq<char>) -> Option<(Seq<char>, Position)>;

/// Calls `lsp_server::Request::extract` for `lsp_types::GotoDefinitionParams`, and takes the
/// document's URI and the position out of what it returns. `definition_target` stands for both. The
/// URI parses as one, and the identifier comes back as it is.
#[verifier::external_body]
pub(crate) fn cast_definition(id: lsp_server::RequestId, params: &str) -> (r: Option<
    (lsp_server::RequestId, String, Position),
>)
    requires
        within_limit(params@),
    ensures
        match r {
            Some((same, uri, position)) => {
                &&& same == id
                &&& definition_target(params@) == Some((uri@, position))
                &&& is_uri(uri@)
            },
            None => definition_target(params@) is None,
        },
{
    let method = lsp_types::request::GotoDefinition::METHOD;
    let params = serde_json::from_str(params).ok()?;
    let request = lsp_server::Request { id, method: method.to_string(), params };
    let (id, params) = request.extract::<lsp_types::GotoDefinitionParams>(method).ok()?;
    let target = params.text_document_position_params;
    let (line, character) = (target.position.line, target.position.character);
    let uri = target.text_document.uri.as_str().to_string();
    Some((id, uri, Position { line, character }))
}

/// The URI of the document that a document symbols request is about, by the JSON text of its
/// parameters, or `None` where that text is not one of such parameters.
pub uninterp spec fn symbols_document(params: Seq<char>) -> Option<Seq<char>>;

/// Calls `lsp_server::Request::extract` for `lsp_types::DocumentSymbolParams`, and takes the
/// document's URI out of what it returns. `symbols_document` stands for that URI, which
/// parses as one; the identifier comes back as it is.
#[verifier::external_body]
pub(crate) fn cast_symbols(id: lsp_server::RequestId, params: &str) -> (r: Option<
    (lsp_server::RequestId, String),
>)
    requires
        within_limit(params@),
    ensures
        match r {
            Some((same, uri)) => {
                &&& same == id
                &&& symbols_document(params@) == Some(uri@)
                &&& is_uri(uri@)
            },
            None => symbols_document(params@) is None,
        },
{
    let method = lsp_types::request::DocumentSymbolRequest::METHOD;
    let params = serde_json::from_str(params).ok()?;
    let request = lsp_server::Request { id, method: method.to_string(), params };
    let (id, params) = request.extract::<lsp_types::DocumentSymbolParams>(method).ok()?;
    Some((id, params.text_document.uri.as_str().to_string()))
}

/// The URI of the document and the position in it that a signature help request is about, by
/// the JSON text of its parameters, or `None` where that text is not one of such parameters.
pub uninterp spec fn signature_target(params: Seq<char>) -> Option<(Seq<char>, Position)>;

/// Calls `lsp_server::Request::extract` for `lsp_types::SignatureHelpParams`, and takes the
/// document's URI and the position out of what it returns. `signature_target` stands for both. The
/// URI parses as one, and the identifier comes back as it is.
#[verifier::external_body]
pub(crate) fn cast_signature(id: lsp_server::RequestId, params: &str) -> (r: Option<
    (lsp_server::RequestId, String, Position),
>)
    requires
        within_limit(params@),
    ensures
        match r {
            Some((same, uri, position)) => {
                &&& same == id
                &&& signature_target(params@) == Some((uri@, position))
                &&& is_uri(uri@)
            },
            None => signature_target(params@) is None,
        },
{
    let method = lsp_types::request::SignatureHelpRequest::METHOD;
    let params = serde_json::from_str(params).ok()?;
    let request = lsp_server::Request { id, method: method.to_string(), params };
    let (id, params) = request.extract::<lsp_types::SignatureHelpParams>(method).ok()?;
    let target = params.text_document_position_params;
    let (line, character) = (target.position.line, target.position.character);
    let uri = target.text_document.uri.as_str().to_string();
    Some((id, uri, Position { line, character }))
}

/// The URI of the document and the position in it that a references request is about, and whether
/// declarations are asked for too, by the JSON text of its parameters, or `None` where that text is
/// not one of such parameters.
pub uninterp spec fn references_target(params: Seq<char>) -> Option<(Seq<char>, Position, bool)>;

/// Calls `lsp_server::Request::extract` for `lsp_types::ReferenceParams`, and takes the
/// document's URI, the position and whether declarations are included out of what it returns, in
/// this order. `references_target` stands for the three. The URI parses as one, and the identifier
/// comes back as it is.
#[verifier::external_body]
pub(crate) fn cast_references(id: lsp_server::RequestId, params: &str) -> (r: Option<
    (lsp_server::RequestId, String, Position, bool),
>)
    requires
        within_limit(params@),
    ensures
        match r {
            Some((same, uri, position, declared)) => {
                &&& same == id
                &&& references_target(params@) == Some((uri@, position, declared))
                &&& is_uri(uri@)
            },
            None => references_target(params@) is None,
        },
{
    let method = lsp_types::request::References::METHOD;
    let params = serde_json::from_str(params).ok()?;
    let request = lsp_server::Request { id, method: method.to_string(), params };
    let (id, params) = request.extract::<lsp_types::ReferenceParams>(method).ok()?;
    let declared = params.context.include_declaration;
    let target = params.text_document_position;
    let (line, character) = (target.position.line, target.position.character);
    let uri = target.text_document.uri.as_str().to_string();
    Some((id, uri, Position { line, character }, declared))
}

/// The URI of the document that a full semantic tokens request is about, by the JSON text of its
/// parameters, or `None` where that text is not one of such parameters.
pub uninterp spec fn tokens_document(params: Seq<char>) -> Option<Seq<char>>;

/// Calls `lsp_server::Request::extract` for `lsp_types::SemanticTokensParams`, and takes the
/// document's URI out of what it returns. `tokens_document` stands for that URI, which
/// parses as one; the identifier comes back as it is.
#[verifier::external_body]
pub(crate) fn cast_tokens(id: lsp_server::RequestId, params: &str) -> (r: Option<
    (lsp_server::RequestId, String),
>)
    requires
        within_limit(params@),
    ensures
        match r {
            Some((same, uri)) => {
                &&& same == id
                &&& tokens_document(params@) == Some(uri@)
                &&& is_uri(uri@)
            },
            None => tokens_document(params@) is None,
        },
{
    let method = lsp_types::request::SemanticTokensFullRequest::METHOD;
    let params = serde_json::from_str(params).ok()?;
    let request = lsp_server::Request { id, method: method.to_string(), params };
    let (id, params) = request.extract::<lsp_types::SemanticTokensParams>(method).ok()?;
    Some((id, params.text_document.uri.as_str().to_string()))
}

/// The URI of the document that a request for diagnostics is about, by the JSON text of its
/// parameters, or `None` where that text is not one of such parameters.
pub uninterp spec fn diagnostic_document(params: Seq<char>) -> Option<Seq<char>>;

/// Calls `lsp_server::Request::extract` for `lsp_types::DocumentDiagnosticParams`, and takes the
/// document's URI out of what it returns. `diagnostic_document` stands for that URI, which
/// parses as one; the identifier comes back as it is.
#[verifier::external_body]
pub(crate) fn cast_diagnostic(id: lsp_server::RequestId, params: &str) -> (r: Option<
    (lsp_server::RequestId, String),
>)
    requires
        within_limit(params@),
    ensures
        match r {
            Some((same, uri)) => {
                &&& same == id
                &&& diagnostic_document(params@) == Some(uri@)
                &&& is_uri(uri@)
            },
            None => diagnostic_document(params@) is None,
        },
{
    let method = lsp_types::request::DocumentDiagnosticRequest::METHOD;
    let params = serde_json::from_str(params).ok()?;
    let request = lsp_server::Request { id, method: method.to_string(), params };
    let (id, params) = request.extract::<lsp_types::DocumentDiagnosticParams>(method).ok()?;
    Some((id, params.text_document.uri.as_str().to_string()))
}

/// The URI of the document that the notification that a document was closed is about, by the JSON
/// text of its parameters, or `None` where that text is not one of such parameters.
pub uninterp spec fn close_document(params: Seq<char>) -> Option<Seq<char>>;

/// Calls `lsp_server::Notification::extract` for `lsp_types::DidCloseTextDocumentParams`, and
/// takes the document's URI out of what it returns. `close_document` stands for that URI, which
/// parses as one.
#[verifier::external_body]
pub(crate) fn cast_close(params: &str) -> (r: Option<String>)
    requires
        within_limit(params@),
    ensures
        match r {
            Some(uri) => close_document(params@) == Some(uri@) && is_uri(uri@),
            None => close_document(params@) is None,
        },
{
    let method = lsp_types::notification::DidCloseTextDocument::METHOD;
    let params = serde_json::from_str(params).ok()?;
    let notification = lsp_server::Notification { method: method.to_string(), params };
    let params = notification.extract::<lsp_types::DidCloseTextDocumentParams>(method).ok()?;
    Some(params.text_document.uri.as_str().to_string())
}

/// The URI of the document that the notification that a document was saved is about, by the JSON
/// text of its parameters, or `None` where that text is not one of such parameters.
pub uninterp spec fn save_document(params: Seq<char>) -> Option<Seq<char>>;

/// Calls `lsp_server::Notification::extract` for `lsp_types::DidSaveTextDocumentParams`, and
/// takes the document's URI out of what it returns. `save_document` stands for that URI, which
/// parses as one.
#[verifier::external_body]
pub(crate) fn cast_save(params: &str) -> (r: Option<String>)
    requires
        within_limit(params@),
    ensures
        match r {
            Some(uri) => save_document(params@) == Some(uri@) && is_uri(uri@),
            None => save_document(params@) is None,
        },
{
    let method = lsp_types::notification::DidSaveTextDocument::METHOD;
    let params = serde_json::from_str(params).ok()?;
    let notification = lsp_server::Notification { method: method.to_string(), params };
    let params = notification.extract::<lsp_types::DidSaveTextDocumentParams>(method).ok()?;
    Some(params.text_document.uri.as_str().to_string())
}

/// What the notification that a document was opened says of it.
pub struct OpenItem {
    pub uri: Seq<char>,
    pub language_id: Seq<char>,
    pub version: i32,
    pub text: Seq<char>,
}

/// The document that the notification of an opened document carries, by the JSON text of its
/// parameters, or `None` where that text is not one of such parameters.
pub uninterp spec fn open_item(params: Seq<char>) -> Option<OpenItem>;

/// Calls `lsp_server::Notification::extract` for `lsp_types::DidOpenTextDocumentParams`, and takes
/// the URI, the language, the version and the text out of what it returns, in this order.
/// `open_item` stands for the four. The URI parses as one. The text is no longer than the JSON text
/// that holds it.
#[verifier::external_body]
pub(crate) fn cast_open(params: &str) -> (r: Option<(String, String, i32, String)>)
    requires
        within_limit(params@),
    ensures
        match r {
            Some((uri, language_id, version, text)) => open_item(params@) == Some(
                (OpenItem { uri: uri@, language_id: language_id@, version, text: text@ }),
            ) && is_uri(uri@) && encode_utf8(text@).len() <= encode_utf8(params@).len(),
            None => open_item(params@) is None,
        },
{
    let method = lsp_types::notification::DidOpenTextDocument::METHOD;
    let params = serde_json::from_str(params).ok()?;
    let notification = lsp_server::Notification { method: method.to_string(), params };
    let params = notification.extract::<lsp_types::DidOpenTextDocumentParams>(method).ok()?;
    let item = params.text_document;
    Some((item.uri.as_str().to_string(), item.language_id, item.version, item.text))
}

/// What the notification that a document was changed says of it.
pub struct ChangeItem {
    pub uri: Seq<char>,
    pub version: i32,
    pub changes: Seq<Change>,
}

/// The changes that the notification of a changed document carries, by the JSON text of its
/// parameters, or `None` where that text is not one of such parameters.
pub uninterp spec fn change_item(params: Seq<char>) -> Option<ChangeItem>;

/// Calls `lsp_server::Notification::extract` for `lsp_types::DidChangeTextDocumentParams`, and
/// takes the URI, the version and the changes out of what it returns, in this order. `change_item`
/// stands for the three. The URI parses as one.
#[verifier::external_body]
pub(crate) fn cast_change(params: &str) -> (r: Option<
    (String, i32, Vec<TextDocumentContentChangeEvent>),
>)
    requires
        within_limit(params@),
    ensures
        match r {
            Some((uri, version, changes)) => change_item(params@) == Some(
                (ChangeItem { uri: uri@, version, changes: changes_view(changes@) }),
            ) && is_uri(uri@),
            None => change_item(params@) is None,
        },
{
    let method = lsp_types::notification::DidChangeTextDocument::METHOD;
    let params = serde_json::from_str(params).ok()?;
    let notification = lsp_server::Notification { method: method.to_string(), params };
    let params = notification.extract::<lsp_types::DidChangeTextDocumentParams>(method).ok()?;
    let changes = params.content_changes.into_iter().map(|change| TextDocumentContentChangeEvent {
        range: change.range.map(|range| Range {
            start: Position { line: range.start.line, character: range.start.character },
            end: Position { line: range.end.line, character: range.end.character },
        }),
        range_length: change.range_length,
        text: change.text,
    }).collect();
    let document = params.text_document;
    Some((document.uri.as_str().to_string(), document.version, changes))
}

} // verus!
