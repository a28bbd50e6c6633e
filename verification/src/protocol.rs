//! Messages, and what the server does about them.

use vstd::prelude::*;

use crate::documents::TextDocumentContentChangeEvent;
use crate::lines::Position;
use crate::params::completion_target;
use crate::params::definition_target;
use crate::params::diagnostic_document;
use crate::params::hover_target;
use crate::params::references_target;
use crate::params::signature_target;
use crate::params::symbols_document;
use crate::params::tokens_document;
use crate::text::same_text;
use crate::uri::Uri;

verus! {

/// A JSON value of `serde_json`.
#[verifier::external_type_specification]
#[verifier::external_body]
pub struct ExValue(serde_json::Value);

/// The error of a response of `lsp_server`.
#[verifier::external_type_specification]
#[verifier::external_body]
pub struct ExResponseError(lsp_server::ResponseError);

/// A request from the client. Its parameters are JSON text.
pub struct Request {
    pub id: lsp_server::RequestId,
    pub method: String,
    pub params: String,
}

/// A notification from the client. Its parameters are JSON text.
pub struct Notification {
    pub method: String,
    pub params: String,
}

/// A response to the client.
pub struct Response {
    pub id: lsp_server::RequestId,
    pub result: Option<serde_json::Value>,
    pub error: Option<lsp_server::ResponseError>,
}

/// How a request is answered: with a response, or with the empty response.
pub enum Reply {
    Empty(lsp_server::RequestId),
    Response(Response),
}

impl Reply {
    /// The request that this answers.
    pub open spec fn id(self) -> lsp_server::RequestId {
        match self {
            Reply::Empty(id) => id,
            Reply::Response(response) => response.id,
        }
    }
}

/// A text document, as it is handed over when it is opened.
pub struct TextDocumentItem {
    pub uri: Uri,
    pub language_id: String,
    pub version: i32,
    pub text: String,
}

/// A text document.
pub struct TextDocumentIdentifier {
    pub uri: Uri,
}

/// A version of a text document.
pub struct VersionedTextDocumentIdentifier {
    pub uri: Uri,
    pub version: i32,
}

/// The document that was opened.
pub struct DidOpenTextDocumentParams {
    pub text_document: TextDocumentItem,
}

/// The document that was changed, with its new version, and the changes in their order.
pub struct DidChangeTextDocumentParams {
    pub text_document: VersionedTextDocumentIdentifier,
    pub content_changes: Vec<TextDocumentContentChangeEvent>,
}

/// The document that was closed.
pub struct DidCloseTextDocumentParams {
    pub text_document: TextDocumentIdentifier,
}

/// The document that a request is about. `json` holds all of the request's parameters.
pub struct TextDocumentParams {
    pub text_document: TextDocumentIdentifier,
    pub json: String,
}

/// The document and the position in it that a request is about. `json` holds all of the request's
/// parameters.
pub struct TextDocumentPositionParams {
    pub text_document: TextDocumentIdentifier,
    pub position: Position,
    pub json: String,
}

/// What a references request is about, and whether declarations are asked for too.
pub struct ReferenceParams {
    pub text_document_position: TextDocumentPositionParams,
    pub include_declaration: bool,
}

/// The requests that the server understands.
#[derive(Clone, Copy, Debug, PartialEq, Eq, Structural)]
pub enum RequestMethod {
    Hover,
    Completion,
    GotoDefinition,
    DocumentSymbol,
    SignatureHelp,
    References,
    SemanticTokensFull,
    DocumentDiagnostic,
}

/// The request that a method names.
pub open spec fn request_method(method: Seq<char>) -> Option<RequestMethod> {
    if method == "textDocument/hover"@ {
        Some(RequestMethod::Hover)
    } else if method == "textDocument/completion"@ {
        Some(RequestMethod::Completion)
    } else if method == "textDocument/definition"@ {
        Some(RequestMethod::GotoDefinition)
    } else if method == "textDocument/documentSymbol"@ {
        Some(RequestMethod::DocumentSymbol)
    } else if method == "textDocument/signatureHelp"@ {
        Some(RequestMethod::SignatureHelp)
    } else if method == "textDocument/references"@ {
        Some(RequestMethod::References)
    } else if method == "textDocument/semanticTokens/full"@ {
        Some(RequestMethod::SemanticTokensFull)
    } else if method == "textDocument/diagnostic"@ {
        Some(RequestMethod::DocumentDiagnostic)
    } else {
        None
    }
}

impl RequestMethod {
    /// The request that a method names.
    pub fn named(method: &str) -> (r: Option<Self>)
        ensures
            r == request_method(method@),
    {
        if same_text(method, "textDocument/hover") {
            Some(RequestMethod::Hover)
        } else if same_text(method, "textDocument/completion") {
            Some(RequestMethod::Completion)
        } else if same_text(method, "textDocument/definition") {
            Some(RequestMethod::GotoDefinition)
        } else if same_text(method, "textDocument/documentSymbol") {
            Some(RequestMethod::DocumentSymbol)
        } else if same_text(method, "textDocument/signatureHelp") {
            Some(RequestMethod::SignatureHelp)
        } else if same_text(method, "textDocument/references") {
            Some(RequestMethod::References)
        } else if same_text(method, "textDocument/semanticTokens/full") {
            Some(RequestMethod::SemanticTokensFull)
        } else if same_text(method, "textDocument/diagnostic") {
            Some(RequestMethod::DocumentDiagnostic)
        } else {
            None
        }
    }
}

/// The notifications that the server understands.
#[derive(Clone, Copy, Debug, PartialEq, Eq, Structural)]
pub enum NotificationMethod {
    DidOpen,
    DidChange,
    DidClose,
    DidSave,
}

/// The notification that a method names.
pub open spec fn notification_method(method: Seq<char>) -> Option<NotificationMethod> {
    if method == "textDocument/didOpen"@ {
        Some(NotificationMethod::DidOpen)
    } else if method == "textDocument/didChange"@ {
        Some(NotificationMethod::DidChange)
    } else if method == "textDocument/didClose"@ {
        Some(NotificationMethod::DidClose)
    } else if method == "textDocument/didSave"@ {
        Some(NotificationMethod::DidSave)
    } else {
        None
    }
}

impl NotificationMethod {
    /// The notification that a method names.
    pub fn named(method: &str) -> (r: Option<Self>)
        ensures
            r == notification_method(method@),
    {
        if same_text(method, "textDocument/didOpen") {
            Some(NotificationMethod::DidOpen)
        } else if same_text(method, "textDocument/didChange") {
            Some(NotificationMethod::DidChange)
        } else if same_text(method, "textDocument/didClose") {
            Some(NotificationMethod::DidClose)
        } else if same_text(method, "textDocument/didSave") {
            Some(NotificationMethod::DidSave)
        } else {
            None
        }
    }
}

/// What can be asked about a document.
#[derive(Clone, Copy, Debug, PartialEq, Eq, Structural)]
pub enum QueryKind {
    Hover(Position),
    Completion(Position),
    GotoDefinition(Position),
    DocumentSymbol,
    SignatureHelp(Position),
    References { position: Position, include_declaration: bool },
    SemanticTokensFull,
}

impl QueryKind {
    /// Whether the answer to this rests on the syntax tree of the document.
    pub open spec fn needs_tree(self) -> bool {
        !(self is Hover)
    }

    /// Whether this always has an answer, be it an empty list.
    pub open spec fn always_has_answer(self) -> bool {
        self is References || self is SemanticTokensFull
    }
}

/// What a request is about: a document and what is asked about it, or its diagnostics.
pub struct Target {
    pub uri: Seq<char>,
    pub kind: Option<QueryKind>,
}

/// What a request is about, by its parameters, or `None` where these are malformed.
pub open spec fn request_target(method: RequestMethod, params: Seq<char>) -> Option<Target> {
    match method {
        RequestMethod::Hover => match hover_target(params) {
            Some((uri, position)) => Some(Target { uri, kind: Some(QueryKind::Hover(position)) }),
            None => None,
        },
        RequestMethod::Completion => match completion_target(params) {
            Some((uri, position)) => Some(
                Target { uri, kind: Some(QueryKind::Completion(position)) },
            ),
            None => None,
        },
        RequestMethod::GotoDefinition => match definition_target(params) {
            Some((uri, position)) => Some(
                Target { uri, kind: Some(QueryKind::GotoDefinition(position)) },
            ),
            None => None,
        },
        RequestMethod::DocumentSymbol => match symbols_document(params) {
            Some(uri) => Some(Target { uri, kind: Some(QueryKind::DocumentSymbol) }),
            None => None,
        },
        RequestMethod::SignatureHelp => match signature_target(params) {
            Some((uri, position)) => Some(
                Target { uri, kind: Some(QueryKind::SignatureHelp(position)) },
            ),
            None => None,
        },
        RequestMethod::References => match references_target(params) {
            Some((uri, position, include_declaration)) => Some(
                Target {
                    uri,
                    kind: Some(QueryKind::References { position, include_declaration }),
                },
            ),
            None => None,
        },
        RequestMethod::SemanticTokensFull => match tokens_document(params) {
            Some(uri) => Some(Target { uri, kind: Some(QueryKind::SemanticTokensFull) }),
            None => None,
        },
        RequestMethod::DocumentDiagnostic => match diagnostic_document(params) {
            Some(uri) => Some(Target { uri, kind: None }),
            None => None,
        },
    }
}

/// A question about an open document, which the answer to a request waits for. `json` holds all of
/// the request's parameters.
pub struct Query {
    pub id: lsp_server::RequestId,
    pub kind: QueryKind,
    pub uri: Uri,
    pub json: String,
}

impl Query {
    /// Whether `reply` answers the request: with what was found, or with the empty response where
    /// nothing was.
    pub open spec fn is_answered(self, found: Option<serde_json::Value>, reply: Reply) -> bool {
        match found {
            Some(value) => reply == Reply::Response(
                Response { id: self.id, result: Some(value), error: None },
            ),
            None => reply == Reply::Empty(self.id),
        }
    }

    /// Answers the request with what was found, or with the empty response where nothing was.
    pub fn answer(self, found: Option<serde_json::Value>) -> (r: Reply)
        requires
            self.kind.always_has_answer() ==> found is Some,
        ensures
            self.is_answered(found, r),
    {
        match found {
            Some(value) => Reply::Response(
                Response { id: self.id, result: Some(value), error: None },
            ),
            None => Reply::Empty(self.id),
        }
    }
}

/// What the server does about a request.
pub enum RequestStep {
    /// The method is not known, and nothing is sent.
    Unknown,
    /// The parameters are malformed, and nothing is sent.
    Malformed,
    /// There is nothing to do, and nothing is sent.
    Nothing,
    /// The reply is sent.
    Reply(Reply),
    /// The query is put to the document, and then answered.
    Compute(Query),
    /// Diagnostics for the document are produced, where they are switched on.
    Diagnose(Uri),
}

impl RequestStep {
    /// Whether this leads to that reply, or to none, where `found` is what its query finds.
    pub open spec fn leads_to(
        self,
        found: Option<serde_json::Value>,
        reply: Option<Reply>,
    ) -> bool {
        match self {
            RequestStep::Reply(now) => reply == Some(now),
            RequestStep::Compute(query) => reply matches Some(then) && query.is_answered(
                found,
                then,
            ),
            _ => reply is None,
        }
    }
}

/// What the server does about a notification, once the documents are up to date.
pub enum NotificationStep {
    /// The method is not known.
    Unknown,
    /// The parameters are malformed.
    Malformed,
    /// There is nothing left to do.
    Done,
    /// Diagnostics for the document are produced, where they are switched on.
    Diagnose(Uri),
}

/// Why changes could not be made to a document: the one at this place in the list does not fit it.
#[derive(Clone, Copy, Debug, PartialEq, Eq, Structural)]
pub struct ChangeDoesNotFit {
    pub index: usize,
}

} // verus!
