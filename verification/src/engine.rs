//! The calls into `oxml`, each behind one trusted item.
//!
//! `oxml` parses, compiles and evaluates; nothing here repeats that
//! work. Every value `oxml` hands back is opaque to the verifier, so
//! each is kept in a handle that also records, as ghost state, the
//! inputs it was computed from: a [`Document`] the source it was parsed
//! from, a compiled query its expression and bindings, and so on.
//!
//! A handle is built only inside the trusted item that makes the call
//! producing its contents, which sets the record from that call's own
//! arguments. Handle fields are private to this module, and this module
//! holds no other code that could build or change one; elsewhere a
//! handle can only be passed on, or read through its view. The trusted
//! contracts speak of a handle through that record and name what
//! `oxml` computes from it.

use oxml::Document as XmlDocument;
use vstd::prelude::*;

verus! {

/// A namespace binding: a prefix and the URI it stands for.
pub type Binding = (Seq<char>, Seq<char>);

#[verifier::external_type_specification]
#[verifier::external_body]
pub struct ExOxmlDocument(XmlDocument);

#[verifier::external_type_specification]
#[verifier::external_body]
pub struct ExOxmlError(oxml::Error);

#[verifier::external_type_specification]
#[verifier::external_body]
pub struct ExOxmlXPath(oxml::XPath);

#[verifier::external_type_specification]
#[verifier::external_body]
pub struct ExOxmlXPathError(oxml::XPathError);

#[verifier::external_type_specification]
#[verifier::external_body]
pub struct ExOxmlValue(oxml::xpath::Value);

#[verifier::external_type_specification]
#[verifier::external_body]
pub struct ExOxmlNodeId(oxml::NodeId);

/// Whether `oxml::parse` accepts `source` as a well-formed document.
pub uninterp spec fn accepts(source: Seq<char>) -> bool;

/// The 1-based line and column that `oxml::Error::line_column`
/// reports, against `input`, for the error `oxml::parse` gives on
/// `source`.
pub uninterp spec fn rejection_position(source: Seq<char>, input: Seq<char>) -> (usize, usize);

/// The `Display` text of the error `oxml::parse` gives on `source`.
pub uninterp spec fn rejection_text(source: Seq<char>) -> Seq<char>;

/// The local name `oxml::Document::element_name` gives for the root
/// element of the document parsed from `source`.
pub uninterp spec fn root_element_name(source: Seq<char>) -> Seq<char>;

/// `oxml::Document::len` of the document parsed from `source`.
pub uninterp spec fn node_count(source: Seq<char>) -> usize;

/// `oxml::Document::to_xml` of the document parsed from `source`.
pub uninterp spec fn serialised(source: Seq<char>) -> Seq<char>;

/// Whether `oxml::XPath::compile_with_namespaces` accepts `expression`
/// under `bindings`.
pub uninterp spec fn compiles(expression: Seq<char>, bindings: Seq<Binding>) -> bool;

/// The `Display` text of the error `oxml::XPath::compile_with_namespaces`
/// gives on `expression` under `bindings`.
pub uninterp spec fn compile_error_text(expression: Seq<char>, bindings: Seq<Binding>) -> Seq<char>;

/// `oxml::xpath::Value::nodes` of the value that `expression`, compiled
/// under `bindings`, evaluates to on the document parsed from `source`:
/// the number of nodes when that value is a node-set, `None` otherwise.
pub uninterp spec fn selection_size(
    source: Seq<char>,
    expression: Seq<char>,
    bindings: Seq<Binding>,
) -> Option<usize>;

/// `oxml::xpath::Value::to_str`, XPath's `string()`, of that same
/// value when `node` is `None`; when `node` is `Some(i)`, of the
/// node-set holding only the `i`-th of its nodes, in the order `oxml`
/// returns them: that node's string-value.
pub uninterp spec fn value_text(
    source: Seq<char>,
    expression: Seq<char>,
    bindings: Seq<Binding>,
    node: Option<int>,
) -> Seq<char>;

/// A parsed XML document, identified by the source it was parsed from.
pub struct Document {
    inner: XmlDocument,
    source: Ghost<Seq<char>>,
}

impl View for Document {
    type V = Seq<char>;

    /// The source text this document was parsed from.
    closed spec fn view(&self) -> Seq<char> {
        self.source@
    }
}


/// Why `oxml` refused a source.
pub(crate) struct Rejection {
    inner: oxml::Error,
    source: Ghost<Seq<char>>,
}

impl View for Rejection {
    type V = Seq<char>;

    /// The source that was refused.
    closed spec fn view(&self) -> Seq<char> {
        self.source@
    }
}

/// The root element of a document.
pub(crate) struct RootElement {
    id: oxml::NodeId,
    source: Ghost<Seq<char>>,
}

impl View for RootElement {
    type V = Seq<char>;

    /// The source of the document this is the root element of.
    closed spec fn view(&self) -> Seq<char> {
        self.source@
    }
}

/// A compiled XPath expression.
pub(crate) struct Query {
    inner: oxml::XPath,
    expression: Ghost<Seq<char>>,
    bindings: Ghost<Seq<Binding>>,
}

impl View for Query {
    type V = (Seq<char>, Seq<Binding>);

    /// The expression and the bindings it was compiled under.
    closed spec fn view(&self) -> (Seq<char>, Seq<Binding>) {
        (self.expression@, self.bindings@)
    }
}

/// Why `oxml` refused to compile an expression.
pub(crate) struct CompileFailure {
    inner: oxml::XPathError,
    expression: Ghost<Seq<char>>,
    bindings: Ghost<Seq<Binding>>,
}

impl View for CompileFailure {
    type V = (Seq<char>, Seq<Binding>);

    /// The expression and the bindings that were refused.
    closed spec fn view(&self) -> (Seq<char>, Seq<Binding>) {
        (self.expression@, self.bindings@)
    }
}

/// The value of a query on a document, or one node of it.
pub(crate) struct Evaluation {
    inner: oxml::xpath::Value,
    source: Ghost<Seq<char>>,
    expression: Ghost<Seq<char>>,
    bindings: Ghost<Seq<Binding>>,
    node: Ghost<Option<int>>,
}

impl View for Evaluation {
    type V = (Seq<char>, Seq<char>, Seq<Binding>, Option<int>);

    /// The document's source, the expression and its bindings; and
    /// `None` for the whole value, or `Some(i)` for the node-set of its
    /// `i`-th node alone.
    closed spec fn view(&self) -> (Seq<char>, Seq<char>, Seq<Binding>, Option<int>) {
        (self.source@, self.expression@, self.bindings@, self.node@)
    }
}

/// The nodes of a value that is a node-set.
pub(crate) struct Selection {
    nodes: Vec<oxml::NodeId>,
    source: Ghost<Seq<char>>,
    expression: Ghost<Seq<char>>,
    bindings: Ghost<Seq<Binding>>,
}

impl View for Selection {
    type V = (Seq<char>, Seq<char>, Seq<Binding>);

    /// The document's source, the expression and its bindings.
    closed spec fn view(&self) -> (Seq<char>, Seq<char>, Seq<Binding>) {
        (self.source@, self.expression@, self.bindings@)
    }
}

/// The bindings a slice of string pairs stands for.
pub open spec fn bindings_view(pairs: Seq<(&str, &str)>) -> Seq<Binding> {
    pairs.map_values(|p: (&str, &str)| (p.0@, p.1@))
}

impl Selection {
    /// How many nodes were selected.
    pub(crate) closed spec fn size(&self) -> nat {
        self.nodes.len() as nat
    }

    /// How many nodes were selected.
    pub(crate) fn len(&self) -> (r: usize)
        ensures
            r == self.size(),
    {
        self.nodes.len()
    }
}

// ---------------------------------------------------------------------
// Trusted items. Each makes one call into `oxml` and, where it returns
// a handle, builds that handle from the call's result and the call's
// own arguments.
// ---------------------------------------------------------------------

/// Calls `oxml::parse`. Claimed: it succeeds exactly on the sources
/// named by `accepts`, a function of the source alone. The document, or
/// the error, is returned in a handle recording that source.
#[verifier::external_body]
pub(crate) fn open_document(source: &str) -> (r: Result<Document, Rejection>)
    ensures
        match r {
            Ok(doc) => accepts(source@) && doc@ == source@,
            Err(rejection) => !accepts(source@) && rejection@ == source@,
        },
{
    match oxml::parse(source) {
        Ok(inner) => Ok(Document { inner, source: Ghost(source@) }),
        Err(inner) => Err(Rejection { inner, source: Ghost(source@) }),
    }
}

/// Calls `oxml::Error::line_column`. Claimed: the result is the one
/// named by `rejection_position` for the refused source and `input`,
/// and both numbers are at least 1 (its source starts counting at 1:
/// one plus the number of line breaks, one plus the characters since
/// the last).
#[verifier::external_body]
pub(crate) fn rejection_line_column(rejection: &Rejection, input: &str) -> (r: (usize, usize))
    ensures
        r == rejection_position(rejection@, input@),
        r.0 >= 1,
        r.1 >= 1,
{
    rejection.inner.line_column(input)
}

/// Calls `Display` on `oxml::Error`. Claimed: the text is the one named
/// by `rejection_text` for the refused source. What that text says is
/// left unstated.
#[verifier::external_body]
pub(crate) fn rejection_reason(rejection: &Rejection) -> (r: String)
    ensures
        r@ == rejection_text(rejection@),
{
    rejection.inner.to_string()
}

/// Calls `oxml::Document::root_element`. Claimed: there is one, since
/// every [`Document`] comes from `oxml::parse` and, as that method's
/// documentation says, a well-formed document has exactly one root
/// element. It is returned in a handle recording the document's source.
#[verifier::external_body]
pub(crate) fn root_element(doc: &Document) -> (r: Option<RootElement>)
    ensures
        r is Some,
        r->0@ == doc@,
{
    doc.inner.root_element().map(|id| RootElement { id, source: Ghost(doc@) })
}

/// Calls `oxml::Document::element_name` on the root element and takes
/// the local part. Claimed: there is a name, as there is for every
/// element, and it is `root_element_name` of the document's source.
#[verifier::external_body]
pub(crate) fn element_name(doc: &Document, root: &RootElement) -> (r: Option<String>)
    requires
        root@ == doc@,
    ensures
        r is Some,
        r->0@ == root_element_name(doc@),
{
    doc.inner.element_name(root.id).map(|name| name.local.clone())
}

/// Calls `oxml::Document::len`. Claimed: the count is `node_count` of
/// the source, and at least 2: it includes the document root, and a
/// parsed document has a root element.
#[verifier::external_body]
pub(crate) fn document_len(doc: &Document) -> (r: usize)
    ensures
        r == node_count(doc@),
        r >= 2,
{
    doc.inner.len()
}

/// Calls `oxml::Document::to_xml`. Claimed: the text is `serialised`
/// of the source; and, as `to_xml`'s documentation guarantees for a
/// parsed document (every [`Document`] is one), the text parses, and
/// parsing and writing it again gives the same text.
#[verifier::external_body]
pub(crate) fn document_xml(doc: &Document) -> (r: String)
    ensures
        r@ == serialised(doc@),
        accepts(r@),
        serialised(r@) == r@,
{
    doc.inner.to_xml()
}

/// Calls `oxml::XPath::compile_with_namespaces`. Claimed: it succeeds
/// exactly when `compiles` holds of the expression and the bindings.
/// The compiled query, or the error, is returned in a handle recording
/// both.
#[verifier::external_body]
pub(crate) fn compile_query(expression: &str, bindings: &Vec<(&str, &str)>) -> (r: Result<
    Query,
    CompileFailure,
>)
    ensures
        match r {
            Ok(query) => compiles(expression@, bindings_view(bindings@)) && query@ == (
                expression@,
                bindings_view(bindings@),
            ),
            Err(failure) => !compiles(expression@, bindings_view(bindings@)) && failure@ == (
                expression@,
                bindings_view(bindings@),
            ),
        },
{
    let (expression_record, bindings_record) = (Ghost(expression@), Ghost(bindings_view(bindings@)));
    match oxml::XPath::compile_with_namespaces(expression, bindings.as_slice()) {
        Ok(inner) => Ok(Query { inner, expression: expression_record, bindings: bindings_record }),
        Err(inner) => Err(
            CompileFailure { inner, expression: expression_record, bindings: bindings_record },
        ),
    }
}

/// Calls `Display` on `oxml::XPathError`. Claimed: the text is
/// `compile_error_text` of the refused expression and bindings. What
/// that text says is left unstated.
#[verifier::external_body]
pub(crate) fn compile_failure_text(failure: &CompileFailure) -> (r: String)
    ensures
        r@ == compile_error_text(failure@.0, failure@.1),
{
    failure.inner.to_string()
}

/// Calls `oxml::XPath::evaluate`. Nothing is claimed of the value
/// itself; it is returned in a handle recording the document's source,
/// the expression and the bindings, and the items below name what is
/// read from it.
#[verifier::external_body]
pub(crate) fn evaluate(query: &Query, doc: &Document) -> (r: Evaluation)
    ensures
        r@ == (doc@, query@.0, query@.1, None::<int>),
{
    Evaluation {
        inner: query.inner.evaluate(&doc.inner),
        source: Ghost(doc@),
        expression: Ghost(query@.0),
        bindings: Ghost(query@.1),
        node: Ghost(None),
    }
}

/// Calls `oxml::xpath::Value::nodes` and copies the node-set out.
/// Claimed: there is one exactly when `selection_size` is `Some`, with
/// that many nodes. It is returned in a handle recording the value's
/// record.
#[verifier::external_body]
pub(crate) fn selection(value: &Evaluation) -> (r: Option<Selection>)
    requires
        value@.3 is None,
    ensures
        r is Some <==> selection_size(value@.0, value@.1, value@.2) is Some,
        r matches Some(s) ==> s@ == (value@.0, value@.1, value@.2) && s.size() == selection_size(
            value@.0,
            value@.1,
            value@.2,
        )->0,
{
    value.inner.nodes().map(
        |nodes| Selection {
            nodes: nodes.to_vec(),
            source: Ghost(value@.0),
            expression: Ghost(value@.1),
            bindings: Ghost(value@.2),
        },
    )
}

/// Calls `oxml::xpath::Value::to_str`. Claimed: the text is
/// `value_text` of the handle's record; and, as its source shows, a
/// whole value that is a node-set converts to the string-value of its
/// first node (the same as that node alone), or to the empty string
/// when it has none.
#[verifier::external_body]
pub(crate) fn value_string(value: &Evaluation, doc: &Document) -> (r: String)
    requires
        value@.0 == doc@,
    ensures
        r@ == value_text(value@.0, value@.1, value@.2, value@.3),
        value@.3 is None && selection_size(value@.0, value@.1, value@.2) == Some(0usize) ==> r@.len()
            == 0,
        value@.3 is None && selection_size(value@.0, value@.1, value@.2) is Some && selection_size(
            value@.0,
            value@.1,
            value@.2,
        )->0 > 0 ==> r@ == value_text(value@.0, value@.1, value@.2, Some(0int)),
{
    value.inner.to_str(&doc.inner)
}

/// Puts the `index`-th selected node alone into a node-set, so that
/// [`value_string`] gives its string-value. Converts only: builds the
/// `oxml::xpath::Value::NodeSet` variant; the handle records the
/// selection's record and the index.
#[verifier::external_body]
pub(crate) fn node_alone(selection: &Selection, index: usize) -> (r: Evaluation)
    requires
        index < selection.size(),
    ensures
        r@ == (selection@.0, selection@.1, selection@.2, Some(index as int)),
{
    Evaluation {
        inner: oxml::xpath::Value::NodeSet(vec![selection.nodes[index]]),
        source: Ghost(selection@.0),
        expression: Ghost(selection@.1),
        bindings: Ghost(selection@.2),
        node: Ghost(Some(index as int)),
    }
}

} // verus!
