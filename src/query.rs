//! The boundary to the mq query engine: one call that parses a Markdown document,
//! evaluates the section query on its nodes, and hands the records back as `Value`s.
use vstd::prelude::*;
use crate::runner::sections_query_text;

verus! {

/// A value handed out by the query engine, as plain data.
#[derive(Debug)]
pub enum Value {
    /// A string.
    Text(String),
    /// A number, truncated toward zero and saturated to the range of `i64`.
    Number(i64),
    /// An array.
    Array(Vec<Value>),
    /// A dictionary, its entries in the engine's order.
    Dict(Vec<(String, Value)>),
    /// Any other kind of value (a boolean, a Markdown node, a function, ...).
    Other,
}

/// Why reading a document's section records failed, with the engine's message.
#[derive(Debug)]
pub enum ReadFailure {
    /// The document did not parse as Markdown.
    Markdown(String),
    /// The query failed on the document's nodes.
    Query(String),
}

/// Whether mq's Markdown parser accepts `markdown`.
pub uninterp spec fn markdown_parses(markdown: Seq<char>) -> bool;

/// The records that a fresh mq engine with its builtin module yields when it evaluates
/// `query` on the nodes of `markdown`; `None` where the evaluation fails.
pub uninterp spec fn section_records(markdown: Seq<char>, query: Seq<char>) -> Option<Seq<Value>>;

#[verifier::external_type_specification]
#[verifier::external_body]
pub struct ExRuntimeValue(mq_lang::RuntimeValue);

/// Relies on mq_lang's `parse_markdown_input`, `Engine::default`,
/// `Engine::load_builtin_module` and `Engine::eval`: the document is parsed, a fresh
/// engine with the builtin module evaluates `query` on its nodes, and the values it
/// yields are converted by `to_value`. The engine is made anew for each call, so the
/// outcome depends on the two texts alone. Only the section query is accepted: its
/// loops are bounded by the number of nodes, so the evaluation ends.
#[verifier::external_body]
pub(crate) fn read_section_records(markdown: &str, query: &str) -> (r: Result<Vec<Value>, ReadFailure>)
    requires
        exists|level: u8| #[trigger] sections_query_text(level) == query@,
    ensures
        match r {
            Ok(records) => markdown_parses(markdown@) && section_records(markdown@, query@) == Some(
                records@,
            ),
            Err(ReadFailure::Markdown(_)) => !markdown_parses(markdown@),
            Err(ReadFailure::Query(_)) => markdown_parses(markdown@) && section_records(
                markdown@,
                query@,
            ) is None,
        },
{
    let nodes = match mq_lang::parse_markdown_input(markdown) {
        Ok(nodes) => nodes,
        Err(e) => return Err(ReadFailure::Markdown(e.to_string())),
    };
    let mut engine = mq_lang::DefaultEngine::default();
    engine.load_builtin_module();
    match engine.eval(query, nodes.into_iter()) {
        Ok(values) => Ok(values.into_iter().map(|v| to_value(&v)).collect()),
        Err(e) => Err(ReadFailure::Query(e.to_string())),
    }
}

/// Relies on mq_lang's `RuntimeValue` and `Number::to_int`: converts a value of the
/// engine, variant by variant, into a `Value`. It serves `read_section_records`, whose
/// contract covers what it yields.
#[verifier::external_body]
fn to_value(v: &mq_lang::RuntimeValue) -> (r: Value) {
    match v {
        mq_lang::RuntimeValue::String(s) => Value::Text(s.to_string()),
        mq_lang::RuntimeValue::Number(n) => Value::Number(n.to_int()),
        mq_lang::RuntimeValue::Array(items) => Value::Array(items.iter().map(to_value).collect()),
        mq_lang::RuntimeValue::Dict(d) => Value::Dict(
            d.iter().map(|(k, x)| (k.to_string(), to_value(x))).collect(),
        ),
        _ => Value::Other,
    }
}

} // verus!
