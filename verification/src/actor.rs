//! The request actor's decision core. One worker owns the store
//! exclusively and applies one request at a time, in arrival order, to
//! completion; callers reach it only by message passing. The closed set
//! of request shapes is dispatched here, so the queue-and-reply plumbing
//! around it carries no logic of its own: it performs `handle_request`
//! on each message and delivers exactly one reply per request.

use vstd::prelude::*;

use crate::db::{
    spec_ast_q, spec_close_doc, spec_diagnostics_q, spec_is_open, spec_open_doc,
    spec_semantic_tokens_q, spec_single_full, AlreadyOpenError, ContentChange, Database,
    EditError, NotYetOpenedError, Uri,
};
use crate::diagnostics::Diagnostic;
use crate::text::MAX_TEXT_LEN;
use crate::tokens::SemanticToken;
use crate::tree::SyntaxNode;

verus! {

/// One request to the store, as the worker's queue carries it.
pub enum Request {
    Open { uri: Uri, text: Vec<char> },
    Edit { uri: Uri, version: i32, changes: Vec<ContentChange> },
    Close { uri: Uri },
    Diagnostics { uri: Uri },
    SemanticTokens { uri: Uri },
    Ast { uri: Uri },
}

/// The reply to one request, of the matching shape.
pub enum Response {
    Open(Result<(), AlreadyOpenError>),
    Edit(Result<(), EditError>),
    Close(Result<(), NotYetOpenedError>),
    Diagnostics(Vec<Diagnostic>),
    SemanticTokens(Vec<SemanticToken>),
    Ast(Option<SyntaxNode>),
}

/// What a request may carry: every text within the store's size bound.
pub open spec fn request_wf(req: Request) -> bool {
    match req {
        Request::Open { uri, text } => text@.len() <= MAX_TEXT_LEN,
        Request::Edit { uri, version, changes } => forall|q: int|
            0 <= q < changes@.len() ==> (#[trigger] changes@[q].text@).len() <= MAX_TEXT_LEN,
        _ => true,
    }
}

/// Apply one request to the store and produce its one reply.
pub fn handle_request(db: &mut Database, req: Request) -> (r: Response)
    requires
        old(db).wf(),
        request_wf(req),
    ensures
        final(db).wf(),
        match req {
            Request::Open { uri, text } => {
                &&& final(db)@ == spec_open_doc(old(db)@, uri@, text@)
                &&& match r {
                    Response::Open(res) => {
                        &&& res is Err <==> spec_is_open(old(db)@, uri@)
                        &&& match res {
                            Err(e) => e.uri@ == uri@,
                            Ok(()) => true,
                        }
                    },
                    _ => false,
                }
            },
            Request::Edit { uri, version, changes } => {
                &&& spec_single_full(changes@) ==> final(db)@ == spec_open_doc(
                    old(db)@,
                    uri@,
                    changes@[0].text@,
                )
                &&& !spec_single_full(changes@) ==> final(db)@ == old(db)@
                &&& match r {
                    Response::Edit(res) => {
                        &&& res is Ok <==> spec_single_full(changes@) && spec_is_open(
                            old(db)@,
                            uri@,
                        )
                        &&& match res {
                            Ok(()) => true,
                            Err(EditError::NotYetOpened(e)) => spec_single_full(changes@)
                                && !spec_is_open(old(db)@, uri@) && e.uri@ == uri@,
                            Err(EditError::IncrementalSync { uri: u, version: v }) => {
                                &&& !spec_single_full(changes@)
                                &&& u@ == uri@
                                &&& v == version
                            },
                        }
                    },
                    _ => false,
                }
            },
            Request::Close { uri } => {
                &&& final(db)@ == spec_close_doc(old(db)@, uri@)
                &&& match r {
                    Response::Close(res) => {
                        &&& res is Err <==> !spec_is_open(old(db)@, uri@)
                        &&& match res {
                            Err(e) => e.uri@ == uri@,
                            Ok(()) => true,
                        }
                    },
                    _ => false,
                }
            },
            Request::Diagnostics { uri } => {
                &&& final(db)@ == old(db)@
                &&& match r {
                    Response::Diagnostics(ds) => ds.deep_view() == spec_diagnostics_q(
                        old(db)@,
                        uri@,
                    ),
                    _ => false,
                }
            },
            Request::SemanticTokens { uri } => {
                &&& final(db)@ == old(db)@
                &&& match r {
                    Response::SemanticTokens(ts) => ts.deep_view() == spec_semantic_tokens_q(
                        old(db)@,
                        uri@,
                    ),
                    _ => false,
                }
            },
            Request::Ast { uri } => {
                &&& final(db)@ == old(db)@
                &&& match r {
                    Response::Ast(t) => match t {
                        Some(n) => spec_ast_q(old(db)@, uri@) == Some(n@),
                        None => spec_ast_q(old(db)@, uri@) is None,
                    },
                    _ => false,
                }
            },
        },
{
    match req {
        Request::Open { uri, text } => Response::Open(db.open_document(uri, text)),
        Request::Edit { uri, version, changes } => Response::Edit(
            db.apply_edit(uri, version, changes),
        ),
        Request::Close { uri } => Response::Close(db.close_document(uri)),
        Request::Diagnostics { uri } => Response::Diagnostics(db.diagnostics(&uri)),
        Request::SemanticTokens { uri } => Response::SemanticTokens(db.semantic_tokens(&uri)),
        Request::Ast { uri } => Response::Ast(db.ast(&uri)),
    }
}

} // verus!
