//! The incremental document store. The open-document set and each
//! document's source text are the only true inputs; the line index, the
//! syntax tree, the diagnostics and the semantic tokens are memoized
//! outputs, recomputed only when that document's text has changed since
//! they were last computed. Closed documents answer with empty results,
//! never with stale data.
//!
//! Bookkeeping follows a best-effort-accept policy: an open of an
//! already-open document and an edit or close of a never-opened one are
//! reported as errors, but the text write still takes effect — losing
//! the caller's freshest text is worse than a stale warning. Only a
//! malformed edit batch leaves the stored text untouched.

use vstd::map::*;
use vstd::prelude::*;

use crate::diagnostics::{extract, spec_node_diags, Diagnostic, SpecDiagnostic};
use crate::parser::{parse, spec_parse_text};
use crate::position::Range;
use crate::text::{
    lemma_line_split_len, lemma_line_split_line_len, line_split, lines_wf, Index, MAX_TEXT_LEN,
};
use crate::tokens::{
    absolute_tokens, make_relative, spec_node_tokens, spec_relative, SemanticToken, SpecSemToken,
};
use crate::tree::{SpecNode, SyntaxNode};

verus! {

broadcast use vstd::std_specs::vec::group_vec_axioms;

/// A document's identity: an opaque, comparable key, stored as the bytes
/// of its canonical location.
#[derive(Debug, PartialEq, Eq, Hash)]
pub struct Uri {
    bytes: Vec<u8>,
}

impl View for Uri {
    type V = Seq<u8>;

    closed spec fn view(&self) -> Seq<u8> {
        self.bytes@
    }
}

impl DeepView for Uri {
    type V = Seq<u8>;

    open spec fn deep_view(&self) -> Seq<u8> {
        self@
    }
}

impl Uri {
    pub fn from_bytes(bytes: Vec<u8>) -> (r: Uri)
        ensures
            r@ == bytes@,
    {
        Uri { bytes }
    }

    pub fn as_bytes(&self) -> (r: &Vec<u8>)
        ensures
            r@ == self@,
    {
        &self.bytes
    }

    /// A copy with the same view.
    pub fn duplicate(&self) -> (r: Uri)
        ensures
            r@ == self@,
    {
        let mut bytes: Vec<u8> = Vec::new();
        let n = self.bytes.len();
        let mut i: usize = 0;
        while i < n
            invariant
                i <= n,
                n == self.bytes@.len(),
                bytes@ == self.bytes@.take(i as int),
            decreases n - i,
        {
            bytes.push(self.bytes[i]);
            proof {
                assert(bytes@ =~= self.bytes@.take(i + 1));
            }
            i = i + 1;
        }
        proof {
            assert(self.bytes@.take(n as int) =~= self.bytes@);
        }
        Uri { bytes }
    }

    /// Whether two identifiers name the same document.
    pub fn same_as(&self, other: &Uri) -> (r: bool)
        ensures
            r == (self@ == other@),
    {
        let n = self.bytes.len();
        if n != other.bytes.len() {
            proof {
                assert(self@ != other@);
            }
            return false;
        }
        let mut i: usize = 0;
        while i < n
            invariant
                i <= n,
                n == self.bytes@.len(),
                n == other.bytes@.len(),
                forall|q: int| 0 <= q < i ==> self.bytes@[q] == other.bytes@[q],
            decreases n - i,
        {
            if self.bytes[i] != other.bytes[i] {
                return false;
            }
            i = i + 1;
        }
        proof {
            assert(self@ =~= other@);
        }
        true
    }
}

/// The severity the protocol layer reports an error with.
#[derive(Clone, Copy, Debug, PartialEq, Eq, Structural)]
pub enum MessageType {
    Error,
    Warning,
    Info,
    Log,
}

/// An error that the protocol layer shows to the user, with its fixed
/// severity.
pub trait LspMessage {
    spec fn spec_message_type(&self) -> MessageType;

    fn message_type(&self) -> (r: MessageType)
        ensures
            r == self.spec_message_type(),
    ;
}

/// Opening a document that is already open. A bookkeeping warning: the
/// new text has still been recorded.
#[derive(Debug, PartialEq, Eq)]
pub struct AlreadyOpenError {
    pub uri: Uri,
}

impl LspMessage for AlreadyOpenError {
    open spec fn spec_message_type(&self) -> MessageType {
        MessageType::Warning
    }

    fn message_type(&self) -> (r: MessageType) {
        MessageType::Warning
    }
}

/// Editing or closing a document that was never opened. A bookkeeping
/// warning: an edit's text has still been recorded.
#[derive(Debug, PartialEq, Eq)]
pub struct NotYetOpenedError {
    pub uri: Uri,
}

impl LspMessage for NotYetOpenedError {
    open spec fn spec_message_type(&self) -> MessageType {
        MessageType::Warning
    }

    fn message_type(&self) -> (r: MessageType) {
        MessageType::Warning
    }
}

/// Why an edit batch was refused or flagged.
#[derive(Debug, PartialEq, Eq)]
pub enum EditError {
    /// The edit applied, but the document had never been opened.
    NotYetOpened(NotYetOpenedError),
    /// The batch was not a single full-text replacement; nothing was
    /// written. Carries the document and version the editor named.
    IncrementalSync { uri: Uri, version: i32 },
}

impl LspMessage for EditError {
    open spec fn spec_message_type(&self) -> MessageType {
        match self {
            EditError::NotYetOpened(_) => MessageType::Warning,
            EditError::IncrementalSync { .. } => MessageType::Error,
        }
    }

    fn message_type(&self) -> (r: MessageType) {
        match self {
            EditError::NotYetOpened(_) => MessageType::Warning,
            EditError::IncrementalSync { .. } => MessageType::Error,
        }
    }
}

/// The worker that owns the store has died: a request could not be sent,
/// or its reply never came. Fatal to continued operation.
#[derive(Clone, Copy, Debug, PartialEq, Eq, Structural)]
pub enum AsyncError {
    Send,
    Recv,
}

impl LspMessage for AsyncError {
    open spec fn spec_message_type(&self) -> MessageType {
        MessageType::Error
    }

    fn message_type(&self) -> (r: MessageType) {
        MessageType::Error
    }
}

/// An operation's outcome as the caller sees it: either the transport to
/// the worker failed, or the operation itself reported an error.
#[derive(Debug, PartialEq, Eq)]
pub enum OpError<T> {
    Async(AsyncError),
    Op(T),
}

impl<T: LspMessage> LspMessage for OpError<T> {
    open spec fn spec_message_type(&self) -> MessageType {
        match self {
            OpError::Async(e) => e.spec_message_type(),
            OpError::Op(e) => e.spec_message_type(),
        }
    }

    fn message_type(&self) -> (r: MessageType) {
        match self {
            OpError::Async(e) => e.message_type(),
            OpError::Op(e) => e.message_type(),
        }
    }
}

/// One change in an edit batch, as the protocol delivers it. The store
/// accepts only a full-text replacement: a change whose range and
/// range-length are both absent.
pub struct ContentChange {
    pub range: Option<Range>,
    pub range_length: Option<u32>,
    pub text: Vec<char>,
}

/// One document's record: the two true inputs (text, openness) and the
/// memoized derivations, each absent until first asked for and dropped
/// on every text write.
struct Doc {
    uri: Uri,
    text: Vec<char>,
    open: bool,
    index: Option<Index>,
    tree: Option<SyntaxNode>,
    diags: Option<Vec<Diagnostic>>,
    toks: Option<Vec<SemanticToken>>,
}

/// The observable state of one document.
pub ghost struct DocView {
    pub text: Seq<char>,
    pub open: bool,
}

/// The observable state of the store: each document ever touched, with
/// its current text and openness. Derived values are not part of the
/// state: they are functions of it.
pub ghost struct DbView {
    pub docs: Map<Seq<u8>, DocView>,
}

pub open spec fn doc_view_of(text: Seq<char>, open: bool) -> DocView {
    DocView { text, open }
}

spec fn dv(d: Doc) -> DocView {
    DocView { text: d.text@, open: d.open }
}

spec fn doc_map(docs: Seq<Doc>) -> Map<Seq<u8>, DocView>
    decreases docs.len(),
{
    if docs.len() == 0 {
        Map::empty()
    } else {
        doc_map(docs.drop_last()).insert(docs.last().uri@, dv(docs.last()))
    }
}

spec fn docs_uniq(docs: Seq<Doc>) -> bool {
    forall|i: int, j: int|
        0 <= i < j < docs.len() ==> #[trigger] docs[i].uri@ != #[trigger] docs[j].uri@
}

proof fn lemma_doc_map_contains(docs: Seq<Doc>, k: Seq<u8>)
    ensures
        doc_map(docs).contains_key(k) <==> exists|i: int|
            0 <= i < docs.len() && #[trigger] docs[i].uri@ == k,
    decreases docs.len(),
{
    if docs.len() > 0 {
        lemma_doc_map_contains(docs.drop_last(), k);
        if doc_map(docs).contains_key(k) {
            if docs.last().uri@ == k {
                assert(docs[docs.len() - 1].uri@ == k);
            } else {
                let i = choose|i: int|
                    0 <= i < docs.drop_last().len() && #[trigger] docs.drop_last()[i].uri@ == k;
                assert(docs[i].uri@ == k);
            }
        }
        if exists|i: int| 0 <= i < docs.len() && #[trigger] docs[i].uri@ == k {
            let i = choose|i: int| 0 <= i < docs.len() && #[trigger] docs[i].uri@ == k;
            if i < docs.len() - 1 {
                assert(docs.drop_last()[i].uri@ == k);
            }
        }
    }
}

proof fn lemma_doc_map_at(docs: Seq<Doc>, i: int)
    requires
        docs_uniq(docs),
        0 <= i < docs.len(),
    ensures
        doc_map(docs).contains_key(docs[i].uri@),
        doc_map(docs)[docs[i].uri@] == dv(docs[i]),
    decreases docs.len(),
{
    if i < docs.len() - 1 {
        assert(docs_uniq(docs.drop_last())) by {
            assert(forall|a: int, b: int|
                0 <= a < b < docs.drop_last().len() ==> docs.drop_last()[a] == docs[a]
                    && docs.drop_last()[b] == docs[b]);
        }
        assert(docs.drop_last()[i] == docs[i]);
        lemma_doc_map_at(docs.drop_last(), i);
        assert(docs[i].uri@ != docs.last().uri@);
    }
}

proof fn lemma_doc_map_update(docs: Seq<Doc>, i: int, d: Doc)
    requires
        docs_uniq(docs),
        0 <= i < docs.len(),
        d.uri@ == docs[i].uri@,
    ensures
        doc_map(docs.update(i, d)) == doc_map(docs).insert(d.uri@, dv(d)),
    decreases docs.len(),
{
    let updated = docs.update(i, d);
    if i == docs.len() - 1 {
        assert(updated.drop_last() =~= docs.drop_last());
        assert(updated.last() == d);
        assert(doc_map(updated) == doc_map(docs.drop_last()).insert(d.uri@, dv(d)));
        assert(doc_map(docs).insert(d.uri@, dv(d)) =~= doc_map(docs.drop_last()).insert(
            d.uri@,
            dv(d),
        ));
    } else {
        assert(docs_uniq(docs.drop_last())) by {
            assert(forall|a: int, b: int|
                0 <= a < b < docs.drop_last().len() ==> docs.drop_last()[a] == docs[a]
                    && docs.drop_last()[b] == docs[b]);
        }
        assert(docs.drop_last()[i] == docs[i]);
        lemma_doc_map_update(docs.drop_last(), i, d);
        assert(updated.drop_last() =~= docs.drop_last().update(i, d));
        assert(updated.last() == docs.last());
        assert(doc_map(updated) == doc_map(docs.drop_last()).insert(d.uri@, dv(d)).insert(
            docs.last().uri@,
            dv(docs.last()),
        ));
        assert(d.uri@ != docs.last().uri@);
        assert(doc_map(docs.drop_last()).insert(d.uri@, dv(d)).insert(
            docs.last().uri@,
            dv(docs.last()),
        ) =~= doc_map(docs.drop_last()).insert(docs.last().uri@, dv(docs.last())).insert(
            d.uri@,
            dv(d),
        ));
    }
}

/// Whether one document's memoized values agree with its current text.
spec fn doc_coherent(d: Doc) -> bool {
    &&& d.text@.len() <= MAX_TEXT_LEN
    &&& match d.index {
        Some(ix) => ix@ == line_split(d.text@),
        None => true,
    }
    &&& match d.tree {
        Some(t) => t@ == spec_parse_text(d.text@),
        None => true,
    }
    &&& match d.diags {
        Some(ds) => ds.deep_view() == spec_node_diags(spec_parse_text(d.text@), line_split(d.text@)),
        None => true,
    }
    &&& match d.toks {
        Some(ts) => ts.deep_view() == spec_relative(
            spec_node_tokens(spec_parse_text(d.text@), line_split(d.text@)),
        ),
        None => true,
    }
}

/// The store: the documents, each with its memoized derivations.
pub struct Database {
    docs: Vec<Doc>,
}

impl View for Database {
    type V = DbView;

    closed spec fn view(&self) -> DbView {
        DbView { docs: doc_map(self.docs@) }
    }
}

/// The store after recording `text` for `uri` and marking it open: what
/// both a successful and an already-open `open`, and a successful and a
/// never-opened `edit`, do to the state.
pub open spec fn spec_open_doc(v: DbView, uri: Seq<u8>, text: Seq<char>) -> DbView {
    DbView { docs: v.docs.insert(uri, DocView { text, open: true }) }
}

/// The store after closing `uri`: its text cleared to empty (to bound
/// memory) and the document marked closed, whether or not it was open.
pub open spec fn spec_close_doc(v: DbView, uri: Seq<u8>) -> DbView {
    DbView { docs: v.docs.insert(uri, DocView { text: Seq::empty(), open: false }) }
}

/// Whether `uri` is a member of the open-document set.
pub open spec fn spec_is_open(v: DbView, uri: Seq<u8>) -> bool {
    v.docs.contains_key(uri) && v.docs[uri].open
}

/// The open-document set.
pub open spec fn spec_open_set(v: DbView) -> Set<Seq<u8>> {
    v.docs.dom().filter(|u: Seq<u8>| v.docs[u].open)
}

/// The text the store holds for `uri`: present once the document was
/// ever touched, even after a close (then empty).
pub open spec fn spec_source_text(v: DbView, uri: Seq<u8>) -> Option<Seq<char>> {
    if v.docs.contains_key(uri) {
        Some(v.docs[uri].text)
    } else {
        None
    }
}

/// What the diagnostics query answers: the extractor's list for an open
/// document, an empty list otherwise.
pub open spec fn spec_diagnostics_q(v: DbView, uri: Seq<u8>) -> Seq<SpecDiagnostic> {
    if spec_is_open(v, uri) {
        spec_node_diags(spec_parse_text(v.docs[uri].text), line_split(v.docs[uri].text))
    } else {
        Seq::empty()
    }
}

/// What the semantic-tokens query answers: the delta-encoded token list
/// for an open document, an empty list otherwise.
pub open spec fn spec_semantic_tokens_q(v: DbView, uri: Seq<u8>) -> Seq<SpecSemToken> {
    if spec_is_open(v, uri) {
        spec_relative(spec_node_tokens(spec_parse_text(v.docs[uri].text), line_split(v.docs[uri].text)))
    } else {
        Seq::empty()
    }
}

/// What the syntax-tree query answers: the parse of the current text for
/// an open document, absent otherwise.
pub open spec fn spec_ast_q(v: DbView, uri: Seq<u8>) -> Option<SpecNode> {
    if spec_is_open(v, uri) {
        Some(spec_parse_text(v.docs[uri].text))
    } else {
        None
    }
}

/// What the line-index query answers: the line table of the current text
/// for an open document, absent otherwise.
pub open spec fn spec_source_index_q(v: DbView, uri: Seq<u8>) -> Option<Seq<Seq<char>>> {
    if spec_is_open(v, uri) {
        Some(line_split(v.docs[uri].text))
    } else {
        None
    }
}

impl Database {
    /// Internal well-formedness: one record per document, and every
    /// memoized value agrees with its document's current text.
    pub closed spec fn wf(&self) -> bool {
        &&& docs_uniq(self.docs@)
        &&& forall|i: int| 0 <= i < self.docs@.len() ==> doc_coherent(#[trigger] self.docs@[i])
    }

    pub fn new() -> (r: Database)
        ensures
            r.wf(),
            r@.docs == Map::<Seq<u8>, DocView>::empty(),
    {
        Database { docs: Vec::new() }
    }

    fn find_doc(&self, uri: &Uri) -> (r: Option<usize>)
        ensures
            match r {
                Some(i) => i < self.docs@.len() && self.docs@[i as int].uri@ == uri@,
                None => forall|i: int|
                    0 <= i < self.docs@.len() ==> (#[trigger] self.docs@[i].uri@) != uri@,
            },
    {
        let n = self.docs.len();
        let mut i: usize = 0;
        while i < n
            invariant
                i <= n,
                n == self.docs@.len(),
                forall|q: int| 0 <= q < i ==> (#[trigger] self.docs@[q].uri@) != uri@,
            decreases n - i,
        {
            if self.docs[i].uri.same_as(uri) {
                return Some(i);
            }
            i = i + 1;
        }
        None
    }

    /// Record `text` for `uri` and open it. Unconditionally accepts the
    /// text; reports `AlreadyOpenError` when the document was open.
    pub fn open_document(&mut self, uri: Uri, text: Vec<char>) -> (r: Result<
        (),
        AlreadyOpenError,
    >)
        requires
            old(self).wf(),
            text@.len() <= MAX_TEXT_LEN,
        ensures
            final(self).wf(),
            final(self)@ == spec_open_doc(old(self)@, uri@, text@),
            r is Err <==> spec_is_open(old(self)@, uri@),
            match r {
                Err(e) => e.uri@ == uri@,
                Ok(()) => true,
            },
    {
        self.write_document(uri, text)
    }

    /// Record `text` for `uri`; the document becomes (or stays) open.
    /// Reports `NotYetOpenedError` when it was not open, the write
    /// taking effect regardless.
    pub fn edit_document(&mut self, uri: Uri, text: Vec<char>) -> (r: Result<
        (),
        NotYetOpenedError,
    >)
        requires
            old(self).wf(),
            text@.len() <= MAX_TEXT_LEN,
        ensures
            final(self).wf(),
            final(self)@ == spec_open_doc(old(self)@, uri@, text@),
            r is Err <==> !spec_is_open(old(self)@, uri@),
            match r {
                Err(e) => e.uri@ == uri@,
                Ok(()) => true,
            },
    {
        let u = uri.duplicate();
        match self.write_document(uri, text) {
            Ok(()) => Err(NotYetOpenedError { uri: u }),
            Err(_) => Ok(()),
        }
    }

    /// The shared write path: record the text, open the document, and
    /// say whether it was open before.
    fn write_document(&mut self, uri: Uri, text: Vec<char>) -> (r: Result<(), AlreadyOpenError>)
        requires
            old(self).wf(),
            text@.len() <= MAX_TEXT_LEN,
        ensures
            final(self).wf(),
            final(self)@ == spec_open_doc(old(self)@, uri@, text@),
            r is Err <==> spec_is_open(old(self)@, uri@),
            match r {
                Err(e) => e.uri@ == uri@,
                Ok(()) => true,
            },
    {
        let found = self.find_doc(&uri);
        match found {
            Some(i) => {
                proof {
                    lemma_doc_map_at(self.docs@, i as int);
                }
                let mut doc = self.docs.remove(i);
                let was_open = doc.open;
                doc.text = text;
                doc.open = true;
                doc.index = None;
                doc.tree = None;
                doc.diags = None;
                doc.toks = None;
                let ghost removed = self.docs@;
                self.docs.insert(i, doc);
                proof {
                    assert(self.docs@ =~= old(self).docs@.update(i as int, self.docs@[i as int]));
                    lemma_doc_map_update(
                        old(self).docs@,
                        i as int,
                        self.docs@[i as int],
                    );
                }
                if was_open {
                    Err(AlreadyOpenError { uri })
                } else {
                    Ok(())
                }
            },
            None => {
                proof {
                    lemma_doc_map_contains(self.docs@, uri@);
                }
                let ghost uri_v = uri@;
                let doc = Doc {
                    uri,
                    text,
                    open: true,
                    index: None,
                    tree: None,
                    diags: None,
                    toks: None,
                };
                self.docs.push(doc);
                proof {
                    assert(self.docs@.drop_last() =~= old(self).docs@);
                    assert(final(self)@.docs =~= spec_open_doc(old(self)@, uri_v, text@).docs);
                }
                Ok(())
            },
        }
    }

    /// Close `uri`: clear its text and remove it from the open set.
    /// Reports `NotYetOpenedError` when it was not open; the clear and
    /// removal are idempotent and happen regardless.
    pub fn close_document(&mut self, uri: Uri) -> (r: Result<(), NotYetOpenedError>)
        requires
            old(self).wf(),
        ensures
            final(self).wf(),
            final(self)@ == spec_close_doc(old(self)@, uri@),
            r is Err <==> !spec_is_open(old(self)@, uri@),
            match r {
                Err(e) => e.uri@ == uri@,
                Ok(()) => true,
            },
    {
        let found = self.find_doc(&uri);
        match found {
            Some(i) => {
                proof {
                    lemma_doc_map_at(self.docs@, i as int);
                }
                let mut doc = self.docs.remove(i);
                let was_open = doc.open;
                doc.text = Vec::new();
                doc.open = false;
                doc.index = None;
                doc.tree = None;
                doc.diags = None;
                doc.toks = None;
                self.docs.insert(i, doc);
                proof {
                    assert(self.docs@ =~= old(self).docs@.update(i as int, self.docs@[i as int]));
                    lemma_doc_map_update(
                        old(self).docs@,
                        i as int,
                        self.docs@[i as int],
                    );
                    assert(self.docs@[i as int].text@ =~= Seq::<char>::empty());
                }
                if was_open {
                    Ok(())
                } else {
                    Err(NotYetOpenedError { uri })
                }
            },
            None => {
                proof {
                    lemma_doc_map_contains(self.docs@, uri@);
                }
                let ghost uri_v = uri@;
                let reported = uri.duplicate();
                let doc = Doc {
                    uri,
                    text: Vec::new(),
                    open: false,
                    index: None,
                    tree: None,
                    diags: None,
                    toks: None,
                };
                self.docs.push(doc);
                proof {
                    assert(self.docs@.drop_last() =~= old(self).docs@);
                    assert(self.docs@.last().text@ =~= Seq::<char>::empty());
                    assert(final(self)@.docs =~= spec_close_doc(old(self)@, uri_v).docs);
                }
                Err(NotYetOpenedError { uri: reported })
            },
        }
    }

    /// The text currently stored for `uri`, if the document was ever
    /// touched.
    pub fn source_text(&self, uri: &Uri) -> (r: Option<Vec<char>>)
        requires
            self.wf(),
        ensures
            match r {
                Some(t) => spec_source_text(self@, uri@) == Some(t@),
                None => spec_source_text(self@, uri@) is None,
            },
    {
        let found = self.find_doc(uri);
        match found {
            Some(i) => {
                proof {
                    lemma_doc_map_at(self.docs@, i as int);
                }
                Some(copy_chars(&self.docs[i].text))
            },
            None => {
                proof {
                    lemma_doc_map_contains(self.docs@, uri@);
                }
                None
            },
        }
    }

    /// Whether `uri` is open.
    pub fn is_open(&self, uri: &Uri) -> (r: bool)
        requires
            self.wf(),
        ensures
            r == spec_is_open(self@, uri@),
    {
        let found = self.find_doc(uri);
        match found {
            Some(i) => {
                proof {
                    lemma_doc_map_at(self.docs@, i as int);
                }
                self.docs[i].open
            },
            None => {
                proof {
                    lemma_doc_map_contains(self.docs@, uri@);
                }
                false
            },
        }
    }

    /// The open documents, one identifier each.
    pub fn opened_files(&self) -> (r: Vec<Uri>)
        requires
            self.wf(),
        ensures
            forall|k: Seq<u8>| #[trigger]
                spec_open_set(self@).contains(k) <==> r.deep_view().contains(k),
            r.deep_view().no_duplicates(),
    {
        let n = self.docs.len();
        let mut out: Vec<Uri> = Vec::new();
        let mut i: usize = 0;
        while i < n
            invariant
                self.wf(),
                i <= n,
                n == self.docs@.len(),
                forall|k: Seq<u8>| #[trigger]
                    out.deep_view().contains(k) <==> exists|q: int|
                        0 <= q < i && (#[trigger] self.docs@[q].uri@) == k && self.docs@[q].open,
                out.deep_view().no_duplicates(),
            decreases n - i,
        {
            if self.docs[i].open {
                let u = self.docs[i].uri.duplicate();
                let ghost pre = out.deep_view();
                out.push(u);
                proof {
                    assert forall|q: int| 0 <= q < out@.len() implies #[trigger] (
                    out.deep_view())[q] == out@[q].deep_view() by {}
                    assert(out.deep_view() =~= pre.push(self.docs@[i as int].uri@));
                    assert forall|k: Seq<u8>| #[trigger]
                        out.deep_view().contains(k) implies exists|q: int|
                        0 <= q < i + 1 && (#[trigger] self.docs@[q].uri@) == k
                            && self.docs@[q].open by {
                        if k == self.docs@[i as int].uri@ {
                            assert(self.docs@[i as int].uri@ == k && self.docs@[i as int].open);
                        } else {
                            assert(pre.contains(k));
                        }
                    }
                    assert forall|k: Seq<u8>|
                        (exists|q: int|
                            0 <= q < i + 1 && (#[trigger] self.docs@[q].uri@) == k
                                && self.docs@[q].open) implies #[trigger] out.deep_view().contains(
                        k,
                    ) by {
                        let q = choose|q: int|
                            0 <= q < i + 1 && (#[trigger] self.docs@[q].uri@) == k
                                && self.docs@[q].open;
                        if q < i {
                            assert(pre.contains(k));
                            let w = choose|w: int| 0 <= w < pre.len() && pre[w] == k;
                            assert(out.deep_view()[w] == k);
                        } else {
                            assert(out.deep_view()[out.deep_view().len() - 1] == k);
                        }
                    }
                    assert(!pre.contains(self.docs@[i as int].uri@));
                }
            } else {
                proof {
                    assert forall|k: Seq<u8>| #[trigger]
                        out.deep_view().contains(k) implies exists|q: int|
                        0 <= q < i + 1 && (#[trigger] self.docs@[q].uri@) == k
                            && self.docs@[q].open by {}
                }
            }
            i = i + 1;
        }
        proof {
            assert forall|k: Seq<u8>| #[trigger]
                spec_open_set(self@).contains(k) <==> out.deep_view().contains(k) by {
                lemma_doc_map_contains(self.docs@, k);
                if spec_open_set(self@).contains(k) {
                    let q = choose|q: int| 0 <= q < self.docs@.len() && #[trigger] self.docs@[q].uri@
                        == k;
                    lemma_doc_map_at(self.docs@, q);
                }
                if out.deep_view().contains(k) {
                    let q = choose|q: int|
                        0 <= q < n && (#[trigger] self.docs@[q].uri@) == k && self.docs@[q].open;
                    lemma_doc_map_at(self.docs@, q);
                }
            }
        }
        out
    }
}

impl Default for Database {
    /// An empty store: no document was ever touched.
    fn default() -> (r: Database)
        ensures
            r.wf(),
            r@.docs == Map::<Seq<u8>, DocView>::empty(),
    {
        Database::new()
    }
}

/// A single full-text replacement: the only shape of edit batch the
/// store applies.
pub open spec fn spec_single_full(changes: Seq<ContentChange>) -> bool {
    changes.len() == 1 && changes[0].range is None && changes[0].range_length is None
}

impl Database {
    /// Apply an edit batch to `uri`. A batch that is not exactly one
    /// full-text replacement is rejected as `IncrementalSync` and writes
    /// nothing; a full replacement is recorded as `edit_document` does.
    pub fn apply_edit(&mut self, uri: Uri, version: i32, changes: Vec<ContentChange>) -> (r:
        Result<(), EditError>)
        requires
            old(self).wf(),
            forall|q: int|
                0 <= q < changes@.len() ==> (#[trigger] changes@[q].text@).len() <= MAX_TEXT_LEN,
        ensures
            final(self).wf(),
            spec_single_full(changes@) ==> final(self)@ == spec_open_doc(
                old(self)@,
                uri@,
                changes@[0].text@,
            ),
            !spec_single_full(changes@) ==> final(self)@ == old(self)@,
            r is Ok <==> spec_single_full(changes@) && spec_is_open(old(self)@, uri@),
            match r {
                Ok(()) => true,
                Err(EditError::NotYetOpened(e)) => spec_single_full(changes@) && !spec_is_open(
                    old(self)@,
                    uri@,
                ) && e.uri@ == uri@,
                Err(EditError::IncrementalSync { uri: u, version: v }) => !spec_single_full(
                    changes@,
                ) && u@ == uri@ && v == version,
            },
    {
        let mut changes = changes;
        match changes.pop() {
            Some(c) => {
                if c.range.is_none() && c.range_length.is_none() && changes.is_empty() {
                    match self.edit_document(uri, c.text) {
                        Ok(()) => Ok(()),
                        Err(e) => Err(EditError::NotYetOpened(e)),
                    }
                } else {
                    Err(EditError::IncrementalSync { uri, version })
                }
            },
            None => Err(EditError::IncrementalSync { uri, version }),
        }
    }

    /// The diagnostics for `uri`: recomputed only if the text changed
    /// since last asked, empty when the document is not open. The
    /// observable state is untouched.
    pub fn diagnostics(&mut self, uri: &Uri) -> (r: Vec<Diagnostic>)
        requires
            old(self).wf(),
        ensures
            final(self).wf(),
            final(self)@ == old(self)@,
            r.deep_view() == spec_diagnostics_q(old(self)@, uri@),
    {
        let found = self.find_doc(uri);
        let i = match found {
            Some(i) => i,
            None => {
                proof {
                    lemma_doc_map_contains(self.docs@, uri@);
                    assert(Seq::<SpecDiagnostic>::empty() =~= spec_diagnostics_q(self@, uri@));
                }
                let r: Vec<Diagnostic> = Vec::new();
                proof {
                    assert(r.deep_view() =~= Seq::<SpecDiagnostic>::empty());
                }
                return r;
            },
        };
        proof {
            lemma_doc_map_at(self.docs@, i as int);
        }
        let mut doc = self.docs.remove(i);
        if !doc.open {
            self.docs.insert(i, doc);
            proof {
                assert(self.docs@ =~= old(self).docs@);
                assert(Seq::<SpecDiagnostic>::empty() =~= spec_diagnostics_q(old(self)@, uri@));
            }
            let r: Vec<Diagnostic> = Vec::new();
            proof {
                assert(r.deep_view() =~= Seq::<SpecDiagnostic>::empty());
            }
            return r;
        }
        if doc.index.is_none() {
            doc.index = Some(Index::new(&doc.text));
        }
        if doc.tree.is_none() {
            doc.tree = Some(parse(&doc.text));
        }
        if doc.diags.is_none() {
            proof {
                lemma_line_split_len(doc.text@);
                lemma_line_split_line_len(doc.text@);
            }
            let tr = doc.tree.as_ref().unwrap();
            let ix = doc.index.as_ref().unwrap();
            doc.diags = Some(extract(tr, ix));
        }
        let ds = doc.diags.as_ref().unwrap();
        let r = duplicate_diags(ds);
        self.docs.insert(i, doc);
        proof {
            assert(self.docs@ =~= old(self).docs@.update(i as int, self.docs@[i as int]));
            lemma_doc_map_update(old(self).docs@, i as int, self.docs@[i as int]);
            assert(doc_map(old(self).docs@).insert(
                old(self).docs@[i as int].uri@,
                dv(old(self).docs@[i as int]),
            ) =~= doc_map(old(self).docs@));
            assert(final(self)@ == old(self)@);
        }
        r
    }

    /// The delta-encoded semantic tokens for `uri`: recomputed only if
    /// the text changed since last asked, empty when the document is not
    /// open. The observable state is untouched.
    pub fn semantic_tokens(&mut self, uri: &Uri) -> (r: Vec<SemanticToken>)
        requires
            old(self).wf(),
        ensures
            final(self).wf(),
            final(self)@ == old(self)@,
            r.deep_view() == spec_semantic_tokens_q(old(self)@, uri@),
    {
        let found = self.find_doc(uri);
        let i = match found {
            Some(i) => i,
            None => {
                proof {
                    lemma_doc_map_contains(self.docs@, uri@);
                    assert(Seq::<SpecSemToken>::empty() =~= spec_semantic_tokens_q(self@, uri@));
                }
                let r: Vec<SemanticToken> = Vec::new();
                proof {
                    assert(r.deep_view() =~= Seq::<SpecSemToken>::empty());
                }
                return r;
            },
        };
        proof {
            lemma_doc_map_at(self.docs@, i as int);
        }
        let mut doc = self.docs.remove(i);
        if !doc.open {
            self.docs.insert(i, doc);
            proof {
                assert(self.docs@ =~= old(self).docs@);
                assert(Seq::<SpecSemToken>::empty() =~= spec_semantic_tokens_q(old(self)@, uri@));
            }
            let r: Vec<SemanticToken> = Vec::new();
            proof {
                assert(r.deep_view() =~= Seq::<SpecSemToken>::empty());
            }
            return r;
        }
        if doc.index.is_none() {
            doc.index = Some(Index::new(&doc.text));
        }
        if doc.tree.is_none() {
            doc.tree = Some(parse(&doc.text));
        }
        if doc.toks.is_none() {
            proof {
                lemma_line_split_len(doc.text@);
                lemma_line_split_line_len(doc.text@);
            }
            let tr = doc.tree.as_ref().unwrap();
            let ix = doc.index.as_ref().unwrap();
            let abs = absolute_tokens(tr, ix);
            doc.toks = Some(make_relative(&abs));
        }
        let ts = doc.toks.as_ref().unwrap();
        let r = duplicate_tokens(ts);
        self.docs.insert(i, doc);
        proof {
            assert(self.docs@ =~= old(self).docs@.update(i as int, self.docs@[i as int]));
            lemma_doc_map_update(old(self).docs@, i as int, self.docs@[i as int]);
            assert(doc_map(old(self).docs@).insert(
                old(self).docs@[i as int].uri@,
                dv(old(self).docs@[i as int]),
            ) =~= doc_map(old(self).docs@));
            assert(final(self)@ == old(self)@);
        }
        r
    }

    /// The syntax tree for `uri`: the memoized parse of its current
    /// text, absent when the document is not open.
    pub fn ast(&mut self, uri: &Uri) -> (r: Option<SyntaxNode>)
        requires
            old(self).wf(),
        ensures
            final(self).wf(),
            final(self)@ == old(self)@,
            match r {
                Some(t) => spec_ast_q(old(self)@, uri@) == Some(t@),
                None => spec_ast_q(old(self)@, uri@) is None,
            },
    {
        let found = self.find_doc(uri);
        let i = match found {
            Some(i) => i,
            None => {
                proof {
                    lemma_doc_map_contains(self.docs@, uri@);
                }
                return None;
            },
        };
        proof {
            lemma_doc_map_at(self.docs@, i as int);
        }
        let mut doc = self.docs.remove(i);
        if !doc.open {
            self.docs.insert(i, doc);
            proof {
                assert(self.docs@ =~= old(self).docs@);
            }
            return None;
        }
        if doc.tree.is_none() {
            doc.tree = Some(parse(&doc.text));
        }
        let tr = doc.tree.as_ref().unwrap();
        let r = tr.duplicate();
        self.docs.insert(i, doc);
        proof {
            assert(self.docs@ =~= old(self).docs@.update(i as int, self.docs@[i as int]));
            lemma_doc_map_update(old(self).docs@, i as int, self.docs@[i as int]);
            assert(doc_map(old(self).docs@).insert(
                old(self).docs@[i as int].uri@,
                dv(old(self).docs@[i as int]),
            ) =~= doc_map(old(self).docs@));
            assert(final(self)@ == old(self)@);
        }
        Some(r)
    }

    /// The line index for `uri`: the memoized table of its current text,
    /// absent when the document is not open.
    pub fn source_index(&mut self, uri: &Uri) -> (r: Option<Index>)
        requires
            old(self).wf(),
        ensures
            final(self).wf(),
            final(self)@ == old(self)@,
            match r {
                Some(ix) => spec_source_index_q(old(self)@, uri@) == Some(ix@) && lines_wf(ix@),
                None => spec_source_index_q(old(self)@, uri@) is None,
            },
    {
        let found = self.find_doc(uri);
        let i = match found {
            Some(i) => i,
            None => {
                proof {
                    lemma_doc_map_contains(self.docs@, uri@);
                }
                return None;
            },
        };
        proof {
            lemma_doc_map_at(self.docs@, i as int);
        }
        let mut doc = self.docs.remove(i);
        if !doc.open {
            self.docs.insert(i, doc);
            proof {
                assert(self.docs@ =~= old(self).docs@);
            }
            return None;
        }
        if doc.index.is_none() {
            doc.index = Some(Index::new(&doc.text));
        }
        proof {
            lemma_line_split_len(doc.text@);
            lemma_line_split_line_len(doc.text@);
        }
        let ix = doc.index.as_ref().unwrap();
        let r = ix.duplicate();
        self.docs.insert(i, doc);
        proof {
            assert(self.docs@ =~= old(self).docs@.update(i as int, self.docs@[i as int]));
            lemma_doc_map_update(old(self).docs@, i as int, self.docs@[i as int]);
            assert(doc_map(old(self).docs@).insert(
                old(self).docs@[i as int].uri@,
                dv(old(self).docs@[i as int]),
            ) =~= doc_map(old(self).docs@));
            assert(final(self)@ == old(self)@);
        }
        Some(r)
    }
}

/// A recorded text is read back exactly: after an open or an edit of
/// `(uri, text)` — accepted or reported as a bookkeeping warning — the
/// stored text for `uri` is `text` and `uri` is open.
pub proof fn lemma_write_then_read(v: DbView, uri: Seq<u8>, text: Seq<char>)
    ensures
        spec_source_text(spec_open_doc(v, uri, text), uri) == Some(text),
        spec_is_open(spec_open_doc(v, uri, text), uri),
{
}

/// Closing never adds to the open set: afterwards the set is the old
/// one without the closed document, and an empty open set stays empty.
pub proof fn lemma_close_shrinks_open_set(v: DbView, uri: Seq<u8>)
    ensures
        spec_open_set(spec_close_doc(v, uri)) == spec_open_set(v).remove(uri),
        spec_open_set(v) == Set::<Seq<u8>>::empty() ==> spec_open_set(spec_close_doc(v, uri))
            == Set::<Seq<u8>>::empty(),
{
    assert(spec_open_set(spec_close_doc(v, uri)) =~= spec_open_set(v).remove(uri));
    if spec_open_set(v) == Set::<Seq<u8>>::empty() {
        assert(spec_open_set(v).remove(uri) =~= Set::<Seq<u8>>::empty());
    }
}

/// A document just closed answers every derived query with an empty or
/// absent result: no error, and no stale data.
pub proof fn lemma_closed_queries_empty(v: DbView, uri: Seq<u8>)
    ensures
        spec_diagnostics_q(spec_close_doc(v, uri), uri) == Seq::<SpecDiagnostic>::empty(),
        spec_semantic_tokens_q(spec_close_doc(v, uri), uri) == Seq::<SpecSemToken>::empty(),
        spec_ast_q(spec_close_doc(v, uri), uri) is None,
        spec_source_index_q(spec_close_doc(v, uri), uri) is None,
{
}

/// A write to one document touches no other: every other document's
/// text, openness and derived answers are unchanged — invalidation is
/// exactly per document.
pub proof fn lemma_write_isolated(v: DbView, uri: Seq<u8>, text: Seq<char>, other: Seq<u8>)
    requires
        other != uri,
    ensures
        spec_source_text(spec_open_doc(v, uri, text), other) == spec_source_text(v, other),
        spec_is_open(spec_open_doc(v, uri, text), other) == spec_is_open(v, other),
        spec_diagnostics_q(spec_open_doc(v, uri, text), other) == spec_diagnostics_q(v, other),
        spec_semantic_tokens_q(spec_open_doc(v, uri, text), other) == spec_semantic_tokens_q(
            v,
            other,
        ),
        spec_ast_q(spec_open_doc(v, uri, text), other) == spec_ast_q(v, other),
{
}

/// For an open document the diagnostics query answers an empty list
/// exactly when its current text parses without any error or missing
/// node.
pub proof fn lemma_diagnostics_empty_iff_clean(v: DbView, uri: Seq<u8>)
    requires
        spec_is_open(v, uri),
    ensures
        spec_diagnostics_q(v, uri).len() == 0 <==> !crate::diagnostics::spec_has_problem(
            spec_parse_text(v.docs[uri].text),
        ),
{
    crate::diagnostics::lemma_diags_empty_iff_no_problem(
        spec_parse_text(v.docs[uri].text),
        line_split(v.docs[uri].text),
    );
}

/// A copy of a diagnostics list with the same view.
fn duplicate_diags(v: &Vec<Diagnostic>) -> (r: Vec<Diagnostic>)
    ensures
        r.deep_view() == v.deep_view(),
{
    let mut r: Vec<Diagnostic> = Vec::new();
    let n = v.len();
    let mut i: usize = 0;
    proof {
        assert(r.deep_view() =~= v.deep_view().take(0));
    }
    while i < n
        invariant
            i <= n,
            n == v@.len(),
            r.deep_view() == v.deep_view().take(i as int),
        decreases n - i,
    {
        let d = v[i].duplicate();
        let ghost pre = r.deep_view();
        r.push(d);
        proof {
            assert forall|q: int| 0 <= q < r@.len() implies #[trigger] (r.deep_view())[q] == r@[
                q].deep_view() by {}
            assert(r.deep_view() =~= pre.push(d@));
            assert(v.deep_view()[i as int] == v@[i as int].deep_view());
            assert(r.deep_view() =~= v.deep_view().take(i + 1));
        }
        i = i + 1;
    }
    proof {
        assert(v.deep_view().take(n as int) =~= v.deep_view());
    }
    r
}

/// A copy of a semantic-token list with the same view.
fn duplicate_tokens(v: &Vec<SemanticToken>) -> (r: Vec<SemanticToken>)
    ensures
        r.deep_view() == v.deep_view(),
{
    let mut r: Vec<SemanticToken> = Vec::new();
    let n = v.len();
    let mut i: usize = 0;
    proof {
        assert(r.deep_view() =~= v.deep_view().take(0));
    }
    while i < n
        invariant
            i <= n,
            n == v@.len(),
            r.deep_view() == v.deep_view().take(i as int),
        decreases n - i,
    {
        let d = v[i];
        let ghost pre = r.deep_view();
        r.push(d);
        proof {
            assert forall|q: int| 0 <= q < r@.len() implies #[trigger] (r.deep_view())[q] == r@[
                q].deep_view() by {}
            assert(r.deep_view() =~= pre.push(d@));
            assert(v.deep_view()[i as int] == v@[i as int].deep_view());
            assert(r.deep_view() =~= v.deep_view().take(i + 1));
        }
        i = i + 1;
    }
    proof {
        assert(v.deep_view().take(n as int) =~= v.deep_view());
    }
    r
}

/// A copy of a character vector with the same view.
fn copy_chars(v: &Vec<char>) -> (r: Vec<char>)
    ensures
        r@ == v@,
{
    let mut r: Vec<char> = Vec::new();
    let n = v.len();
    let mut i: usize = 0;
    while i < n
        invariant
            i <= n,
            n == v@.len(),
            r@ == v@.take(i as int),
        decreases n - i,
    {
        r.push(v[i]);
        proof {
            assert(r@ =~= v@.take(i + 1));
        }
        i = i + 1;
    }
    proof {
        assert(v@.take(n as int) =~= v@);
    }
    r
}

} // verus!
