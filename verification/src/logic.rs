//! What the library does: parse a document, ask XPath questions of it,
//! and answer with strings.
//!
//! Errors are `String`s. `oxml` does the parsing and the XPath work;
//! this module decides how bindings reach it, which of its answers a
//! caller gets back, and how a refusal is reported.

use crate::bindings::{bind_all, last_binding, law_later_bindings_win, lookup, parse_bindings};
use crate::decimal::{decimal, to_decimal};
pub use crate::engine::Document;
use crate::engine::{
    accepts, compile_error_text, compile_failure_text, compile_query, compiles, document_len,
    document_xml, element_name, evaluate, node_alone, node_count, open_document,
    rejection_line_column, rejection_position, rejection_reason, rejection_text,
    root_element, root_element_name, selection, selection_size, serialised,
    value_string, value_text, Binding, Query,
};
use vstd::prelude::*;
use vstd::string::*;

verus! {

/// A refusal reported as `LINE:COLUMN: ` followed by the reason.
pub open spec fn report(line: nat, column: nat, reason: Seq<char>) -> Seq<char> {
    decimal(line) + ":"@ + decimal(column) + ": "@ + reason
}

/// The report for a source `oxml` refuses: where, counted in the
/// source, and `oxml`'s own message.
pub open spec fn parse_report(source: Seq<char>) -> Seq<char> {
    report(
        rejection_position(source, source).0 as nat,
        rejection_position(source, source).1 as nat,
        rejection_text(source),
    )
}

/// What [`parse`] gives for `source`: the document, known by its
/// source, or the report of why it is not well-formed.
pub open spec fn spec_parse(source: Seq<char>) -> Result<Seq<char>, Seq<char>> {
    if accepts(source) {
        Ok(source)
    } else {
        Err(parse_report(source))
    }
}

/// What [`is_well_formed`] answers for `source`.
pub open spec fn spec_is_well_formed(source: Seq<char>) -> bool {
    accepts(source)
}

/// The bindings a query runs under, or why it cannot run: the bindings
/// must parse and the expression must compile under them.
pub open spec fn spec_compile(expression: Seq<char>, namespaces: Seq<Seq<char>>) -> Result<
    Seq<Binding>,
    Seq<char>,
> {
    match bind_all(namespaces) {
        Err(message) => Err(message),
        Ok(bindings) => if compiles(expression, bindings) {
            Ok(bindings)
        } else {
            Err(compile_error_text(expression, bindings))
        },
    }
}

/// What [`query_text`] gives: the string-value of each node of a
/// node-set, in order, or, for any other value, that value as a
/// string, alone.
pub open spec fn spec_query_text(
    source: Seq<char>,
    expression: Seq<char>,
    namespaces: Seq<Seq<char>>,
) -> Result<Seq<Seq<char>>, Seq<char>> {
    match spec_compile(expression, namespaces) {
        Err(message) => Err(message),
        Ok(bindings) => match selection_size(source, expression, bindings) {
            Some(n) => Ok(
                Seq::new(n as nat, |i: int| value_text(source, expression, bindings, Some(i))),
            ),
            None => Ok(seq![value_text(source, expression, bindings, None)]),
        },
    }
}

/// What [`query_value`] gives: the value as a string.
pub open spec fn spec_query_value(
    source: Seq<char>,
    expression: Seq<char>,
    namespaces: Seq<Seq<char>>,
) -> Result<Seq<char>, Seq<char>> {
    match spec_compile(expression, namespaces) {
        Err(message) => Err(message),
        Ok(bindings) => Ok(value_text(source, expression, bindings, None)),
    }
}

/// What [`query_count`] gives: the number of nodes of a node-set, and
/// zero for any other value.
pub open spec fn spec_query_count(
    source: Seq<char>,
    expression: Seq<char>,
    namespaces: Seq<Seq<char>>,
) -> Result<usize, Seq<char>> {
    match spec_compile(expression, namespaces) {
        Err(message) => Err(message),
        Ok(bindings) => match selection_size(source, expression, bindings) {
            Some(n) => Ok(n),
            None => Ok(0),
        },
    }
}

/// The strings of a result, by their views.
pub open spec fn texts_view(r: Result<Vec<String>, String>) -> Result<Seq<Seq<char>>, Seq<char>> {
    match r {
        Ok(texts) => Ok(texts.deep_view()),
        Err(message) => Err(message@),
    }
}

/// A string result, by its view.
pub open spec fn text_view(r: Result<String, String>) -> Result<Seq<char>, Seq<char>> {
    match r {
        Ok(text) => Ok(text@),
        Err(message) => Err(message@),
    }
}

/// A count result, its message by its view.
pub open spec fn count_view(r: Result<usize, String>) -> Result<usize, Seq<char>> {
    match r {
        Ok(n) => Ok(n),
        Err(message) => Err(message@),
    }
}

/// Writes a refusal as `LINE:COLUMN: REASON`.
pub fn describe_rejection(line: usize, column: usize, reason: &str) -> (r: String)
    ensures
        r@ == report(line as nat, column as nat, reason@),
{
    let mut out = to_decimal(line);
    out.append(":");
    let column_digits = to_decimal(column);
    out.append(column_digits.as_str());
    out.append(": ");
    out.append(reason);
    out
}

/// Parse a document, or describe why it is not well-formed.
///
/// The description leads with the line and column where the problem
/// was found, counted in characters, then `oxml`'s own message with its
/// byte offset.
pub fn parse(source: &str) -> (r: Result<Document, String>)
    ensures
        match r {
            Ok(doc) => spec_parse(source@) == Ok::<Seq<char>, Seq<char>>(doc@),
            Err(message) => {
                &&& spec_parse(source@) == Err::<Seq<char>, Seq<char>>(message@)
                &&& rejection_position(source@, source@).0 >= 1
                &&& rejection_position(source@, source@).1 >= 1
            },
        },
{
    match open_document(source) {
        Ok(doc) => Ok(doc),
        Err(rejection) => {
            let (line, column) = rejection_line_column(&rejection, source);
            let reason = rejection_reason(&rejection);
            Err(describe_rejection(line, column, reason.as_str()))
        },
    }
}

/// The local name of the root element, if there is one.
///
/// A parsed document always has one, so this is never `None`.
pub fn root_name(doc: &Document) -> (r: Option<String>)
    ensures
        r.deep_view() == Some(root_element_name(doc@)),
{
    match root_element(doc) {
        Some(root) => element_name(doc, &root),
        None => None,
    }
}

/// Compiles `expression` under the bindings `namespaces` spells.
fn compile(expression: &str, namespaces: &[String]) -> (r: Result<Query, String>)
    ensures
        match r {
            Ok(query) => spec_compile(expression@, namespaces.deep_view()) == Ok::<
                Seq<Binding>,
                Seq<char>,
            >(query@.1) && query@.0 == expression@,
            Err(message) => spec_compile(expression@, namespaces.deep_view()) == Err::<
                Seq<Binding>,
                Seq<char>,
            >(message@),
        },
{
    match parse_bindings(namespaces) {
        Err(message) => Err(message),
        Ok(bindings) => match compile_query(expression, &bindings) {
            Ok(query) => Ok(query),
            Err(failure) => Err(compile_failure_text(&failure)),
        },
    }
}

/// The strings of a query's answer: the nodes' strings when it
/// selected nodes, and otherwise the value, alone.
pub fn texts_or_value(texts: Option<Vec<String>>, value: String) -> (r: Vec<String>)
    ensures
        r.deep_view() == match texts {
            Some(texts) => texts.deep_view(),
            None => seq![value@],
        },
{
    match texts {
        Some(texts) => texts,
        None => {
            let mut alone: Vec<String> = Vec::new();
            alone.push(value);
            assert(alone.deep_view() =~= seq![value@]);
            alone
        },
    }
}

/// How many nodes a query's answer holds: the size of a node-set, and
/// zero for any other value.
pub fn count_or_zero(size: Option<usize>) -> (r: usize)
    ensures
        r == match size {
            Some(n) => n,
            None => 0,
        },
{
    match size {
        Some(n) => n,
        None => 0,
    }
}

/// The first of some strings, or the empty string when there are none.
pub open spec fn first_or_empty(texts: Seq<Seq<char>>) -> Seq<char> {
    if texts.len() > 0 {
        texts[0]
    } else {
        Seq::empty()
    }
}

/// The string-value of every matched node, or the value, alone, when the
/// expression does not select nodes.
pub fn query_text(doc: &Document, expression: &str, namespaces: &[String]) -> (r: Result<
    Vec<String>,
    String,
>)
    ensures
        texts_view(r) == spec_query_text(doc@, expression@, namespaces.deep_view()),
{
    let query = match compile(expression, namespaces) {
        Ok(query) => query,
        Err(message) => return Err(message),
    };
    let value = evaluate(&query, doc);
    let ghost bindings = query@.1;
    let texts = match selection(&value) {
        Some(nodes) => {
            let n = nodes.len();
            let mut texts: Vec<String> = Vec::new();
            let mut i: usize = 0;
            while i < n
                invariant
                    n == nodes.size(),
                    nodes@ == (doc@, expression@, bindings),
                    i <= n,
                    texts.deep_view() =~= Seq::new(
                        i as nat,
                        |k: int| value_text(doc@, expression@, bindings, Some(k)),
                    ),
                decreases n - i,
            {
                let node = node_alone(&nodes, i);
                let text = value_string(&node, doc);
                let ghost before = texts.deep_view();
                texts.push(text);
                assert(texts.deep_view() =~= before.push(
                    value_text(doc@, expression@, bindings, Some(i as int)),
                ));
                i = i + 1;
            }
            Some(texts)
        },
        None => None,
    };
    let scalar = match texts {
        Some(_) => String::new(),
        None => value_string(&value, doc),
    };
    Ok(texts_or_value(texts, scalar))
}

/// The expression's value as a string: XPath's `string()`. For a
/// node-set that is its first node's string-value, so it is the first
/// string [`query_text`] gives, and the empty string when there is
/// none.
pub fn query_value(doc: &Document, expression: &str, namespaces: &[String]) -> (r: Result<
    String,
    String,
>)
    ensures
        text_view(r) == spec_query_value(doc@, expression@, namespaces.deep_view()),
        spec_query_text(doc@, expression@, namespaces.deep_view()) is Ok ==> text_view(r) == Ok::<
            Seq<char>,
            Seq<char>,
        >(first_or_empty(spec_query_text(doc@, expression@, namespaces.deep_view())->Ok_0)),
{
    match compile(expression, namespaces) {
        Err(message) => Err(message),
        Ok(query) => {
            let value = evaluate(&query, doc);
            let text = value_string(&value, doc);
            proof {
                let bindings = query@.1;
                let texts = spec_query_text(doc@, expression@, namespaces.deep_view())->Ok_0;
                if text@.len() == 0 {
                    assert(text@ =~= Seq::<char>::empty());
                }
                match selection_size(doc@, expression@, bindings) {
                    Some(n) => {
                        assert(texts.len() == n);
                        if n > 0 {
                            assert(texts[0] == value_text(doc@, expression@, bindings, Some(0int)));
                        }
                    },
                    None => {
                        assert(texts[0] == value_text(doc@, expression@, bindings, None));
                    },
                }
            }
            Ok(text)
        },
    }
}

/// How many nodes an expression matches: zero when its value is not a
/// node-set.
pub fn query_count(doc: &Document, expression: &str, namespaces: &[String]) -> (r: Result<
    usize,
    String,
>)
    ensures
        count_view(r) == spec_query_count(doc@, expression@, namespaces.deep_view()),
{
    match compile(expression, namespaces) {
        Err(message) => Err(message),
        Ok(query) => {
            let value = evaluate(&query, doc);
            let size = match selection(&value) {
                Some(nodes) => Some(nodes.len()),
                None => None,
            };
            Ok(count_or_zero(size))
        },
    }
}

/// Whether a document is well-formed, without keeping it.
pub fn is_well_formed(source: &str) -> (r: bool)
    ensures
        r == spec_is_well_formed(source@),
{
    match open_document(source) {
        Ok(_) => true,
        Err(_) => false,
    }
}

/// The document as XML.
///
/// The output parses, and parsing and writing it again gives the same
/// text; it need not be the text the document was parsed from.
pub fn to_xml(doc: &Document) -> (r: String)
    ensures
        r@ == serialised(doc@),
        spec_parse(r@) == Ok::<Seq<char>, Seq<char>>(r@),
        serialised(r@) == r@,
{
    document_xml(doc)
}

/// The bindings a caller passed, when it passed any.
pub open spec fn given_bindings(namespaces: Option<Vec<String>>) -> Seq<Seq<char>> {
    match namespaces {
        Some(entries) => entries.deep_view(),
        None => Seq::empty(),
    }
}

impl Document {
    /// The number of nodes, including the document root.
    pub fn size(&self) -> (r: usize)
        ensures
            r == node_count(self@),
            r >= 2,
    {
        document_len(self)
    }

    /// The local name of the root element, if there is one.
    pub fn root_name(&self) -> (r: Option<String>)
        ensures
            r.deep_view() == Some(root_element_name(self@)),
    {
        root_name(self)
    }

    /// [`query_text`], with no bindings when none are given.
    pub fn query_text(&self, expression: &str, namespaces: Option<Vec<String>>) -> (r: Result<
        Vec<String>,
        String,
    >)
        ensures
            texts_view(r) == spec_query_text(self@, expression@, given_bindings(namespaces)),
    {
        let entries = match namespaces {
            Some(entries) => entries,
            None => Vec::new(),
        };
        let slice = entries.as_slice();
        assert(slice.deep_view() =~= given_bindings(namespaces));
        query_text(self, expression, slice)
    }

    /// [`query_value`], with no bindings when none are given.
    pub fn query_value(&self, expression: &str, namespaces: Option<Vec<String>>) -> (r: Result<
        String,
        String,
    >)
        ensures
            text_view(r) == spec_query_value(self@, expression@, given_bindings(namespaces)),
            spec_query_text(self@, expression@, given_bindings(namespaces)) is Ok ==> text_view(r)
                == Ok::<Seq<char>, Seq<char>>(
                first_or_empty(spec_query_text(self@, expression@, given_bindings(namespaces))->Ok_0),
            ),
    {
        let entries = match namespaces {
            Some(entries) => entries,
            None => Vec::new(),
        };
        let slice = entries.as_slice();
        assert(slice.deep_view() =~= given_bindings(namespaces));
        query_value(self, expression, slice)
    }

    /// [`query_count`], with no bindings when none are given.
    pub fn query_count(&self, expression: &str, namespaces: Option<Vec<String>>) -> (r: Result<
        usize,
        String,
    >)
        ensures
            count_view(r) == spec_query_count(self@, expression@, given_bindings(namespaces)),
    {
        let entries = match namespaces {
            Some(entries) => entries,
            None => Vec::new(),
        };
        let slice = entries.as_slice();
        assert(slice.deep_view() =~= given_bindings(namespaces));
        query_count(self, expression, slice)
    }

    /// The document as XML; see [`to_xml`].
    pub fn to_xml(&self) -> (r: String)
        ensures
            r@ == serialised(self@),
            spec_parse(r@) == Ok::<Seq<char>, Seq<char>>(r@),
            serialised(r@) == r@,
    {
        to_xml(self)
    }
}

/// `is_well_formed` agrees with `parse` about every source: it answers
/// `true` exactly when `parse` gives a document.
pub proof fn law_well_formed_agrees_with_parse(source: Seq<char>)
    ensures
        spec_is_well_formed(source) == spec_parse(source) is Ok,
{
}

/// The three query entry points agree about whether an expression can
/// be used: each fails exactly when the bindings do not parse or the
/// expression does not compile under them, and then all three give
/// the same message.
pub proof fn law_queries_agree_on_failure(
    source: Seq<char>,
    expression: Seq<char>,
    namespaces: Seq<Seq<char>>,
)
    ensures
        spec_query_text(source, expression, namespaces) is Ok <==> spec_compile(
            expression,
            namespaces,
        ) is Ok,
        spec_query_value(source, expression, namespaces) is Ok <==> spec_compile(
            expression,
            namespaces,
        ) is Ok,
        spec_query_count(source, expression, namespaces) is Ok <==> spec_compile(
            expression,
            namespaces,
        ) is Ok,
        spec_compile(expression, namespaces) is Err ==> {
            &&& spec_query_text(source, expression, namespaces)->Err_0 == spec_compile(
                expression,
                namespaces,
            )->Err_0
            &&& spec_query_value(source, expression, namespaces)->Err_0 == spec_compile(
                expression,
                namespaces,
            )->Err_0
            &&& spec_query_count(source, expression, namespaces)->Err_0 == spec_compile(
                expression,
                namespaces,
            )->Err_0
        },
{
}

/// Whether an expression can be used does not depend on the document.
pub proof fn law_failure_does_not_depend_on_the_document(
    first: Seq<char>,
    second: Seq<char>,
    expression: Seq<char>,
    namespaces: Seq<Seq<char>>,
)
    ensures
        spec_query_count(first, expression, namespaces) is Ok <==> spec_query_count(
            second,
            expression,
            namespaces,
        ) is Ok,
{
}

/// A count above zero is the number of strings `query_text` returns:
/// one per matched node.
pub proof fn law_one_text_per_counted_node(
    source: Seq<char>,
    expression: Seq<char>,
    namespaces: Seq<Seq<char>>,
)
    requires
        spec_query_count(source, expression, namespaces) matches Ok(n) && n > 0,
    ensures
        spec_query_text(source, expression, namespaces) matches Ok(texts) && texts.len()
            == spec_query_count(source, expression, namespaces)->Ok_0,
{
}

/// For a node-set, `query_text` returns one string per node and
/// `query_count` counts them, zero included.
pub proof fn law_node_sets_are_counted_and_read_whole(
    source: Seq<char>,
    expression: Seq<char>,
    namespaces: Seq<Seq<char>>,
)
    requires
        spec_compile(expression, namespaces) matches Ok(bindings) && selection_size(
            source,
            expression,
            bindings,
        ) is Some,
    ensures
        spec_query_text(source, expression, namespaces) matches Ok(texts) && texts.len()
            == spec_query_count(source, expression, namespaces)->Ok_0,
{
}

/// An expression whose value is not a node-set is not an error:
/// `query_text` gives that value as `query_value` writes it, alone, and
/// `query_count` gives zero, since nothing was matched.
pub proof fn law_other_values_come_back_alone(
    source: Seq<char>,
    expression: Seq<char>,
    namespaces: Seq<Seq<char>>,
)
    requires
        spec_compile(expression, namespaces) matches Ok(bindings) && selection_size(
            source,
            expression,
            bindings,
        ) is None,
    ensures
        spec_query_text(source, expression, namespaces) == Ok::<Seq<Seq<char>>, Seq<char>>(
            seq![spec_query_value(source, expression, namespaces)->Ok_0],
        ),
        spec_query_count(source, expression, namespaces) == Ok::<usize, Seq<char>>(0),
{
}

/// `parse` gives a document exactly for the sources `oxml` accepts, and
/// then the document of that very source; otherwise it reports where,
/// counted in the source, and why. `is_well_formed` answers exactly
/// whether `oxml` accepts the source.
pub proof fn law_parse_keeps_exactly_what_oxml_accepts(source: Seq<char>)
    ensures
        spec_parse(source) is Ok <==> accepts(source),
        spec_parse(source) is Ok ==> spec_parse(source)->Ok_0 == source,
        spec_parse(source) is Err ==> spec_parse(source)->Err_0 == decimal(
            rejection_position(source, source).0 as nat,
        ) + ":"@ + decimal(rejection_position(source, source).1 as nat) + ": "@
            + rejection_text(source),
        spec_is_well_formed(source) == accepts(source),
{
}

/// A query compiles under exactly the bindings its entries make:
/// bindings that do not parse are the error; otherwise the expression
/// is compiled under all of them, every prefix bound to the URI of its
/// last entry, and it is used exactly when `oxml` compiles it there.
pub proof fn law_queries_compile_under_every_binding(
    expression: Seq<char>,
    namespaces: Seq<Seq<char>>,
    prefix: Seq<char>,
)
    ensures
        bind_all(namespaces) is Err ==> spec_compile(expression, namespaces) == Err::<
            Seq<Binding>,
            Seq<char>,
        >(bind_all(namespaces)->Err_0),
        bind_all(namespaces) is Ok ==> (spec_compile(expression, namespaces) is Ok <==> compiles(
            expression,
            bind_all(namespaces)->Ok_0,
        )),
        bind_all(namespaces) is Ok && !compiles(expression, bind_all(namespaces)->Ok_0)
            ==> spec_compile(expression, namespaces) == Err::<Seq<Binding>, Seq<char>>(
            compile_error_text(expression, bind_all(namespaces)->Ok_0),
        ),
        spec_compile(expression, namespaces) is Ok ==> spec_compile(expression, namespaces)->Ok_0
            == bind_all(namespaces)->Ok_0,
        spec_compile(expression, namespaces) is Ok ==> lookup(
            spec_compile(expression, namespaces)->Ok_0,
            prefix,
        ) == last_binding(namespaces, prefix),
{
    if bind_all(namespaces) is Ok {
        law_later_bindings_win(namespaces, prefix);
    }
}

/// For a node-set of `n` nodes, `query_text` gives `n` strings, the
/// `index`-th being the string-value of the `index`-th node, as
/// `oxml` gives it for that node alone; and `query_count` gives `n`.
pub proof fn law_node_sets_are_read_node_by_node(
    source: Seq<char>,
    expression: Seq<char>,
    namespaces: Seq<Seq<char>>,
    index: int,
)
    requires
        bind_all(namespaces) is Ok,
        compiles(expression, bind_all(namespaces)->Ok_0),
        selection_size(source, expression, bind_all(namespaces)->Ok_0) is Some,
    ensures
        spec_query_text(source, expression, namespaces) is Ok,
        spec_query_text(source, expression, namespaces)->Ok_0.len() == selection_size(
            source,
            expression,
            bind_all(namespaces)->Ok_0,
        )->0,
        0 <= index < selection_size(source, expression, bind_all(namespaces)->Ok_0)->0 ==> spec_query_text(
            source,
            expression,
            namespaces,
        )->Ok_0[index] == value_text(source, expression, bind_all(namespaces)->Ok_0, Some(index)),
        spec_query_count(source, expression, namespaces) == Ok::<usize, Seq<char>>(
            selection_size(source, expression, bind_all(namespaces)->Ok_0)->0,
        ),
{
}

/// `query_value` is always XPath's `string()` of the whole value, as
/// `oxml` writes it, whatever its type; for a value that is not a
/// node-set, `query_text` gives exactly that string, alone, and
/// `query_count` gives zero.
pub proof fn law_values_are_written_as_oxml_writes_them(
    source: Seq<char>,
    expression: Seq<char>,
    namespaces: Seq<Seq<char>>,
)
    requires
        bind_all(namespaces) is Ok,
        compiles(expression, bind_all(namespaces)->Ok_0),
    ensures
        spec_query_value(source, expression, namespaces) == Ok::<Seq<char>, Seq<char>>(
            value_text(source, expression, bind_all(namespaces)->Ok_0, None),
        ),
        selection_size(source, expression, bind_all(namespaces)->Ok_0) is None ==> {
            &&& spec_query_text(source, expression, namespaces) == Ok::<Seq<Seq<char>>, Seq<char>>(
                seq![value_text(source, expression, bind_all(namespaces)->Ok_0, None)],
            )
            &&& spec_query_count(source, expression, namespaces) == Ok::<usize, Seq<char>>(0)
        },
{
}

/// The `Document` methods query under no bindings when given none, and
/// under exactly the entries given otherwise.
pub proof fn law_methods_default_to_no_bindings(namespaces: Option<Vec<String>>)
    ensures
        namespaces is None ==> given_bindings(namespaces).len() == 0,
        namespaces matches Some(entries) ==> given_bindings(namespaces) == entries.deep_view(),
{
}

} // verus!
