//! Sections of a task document, their extraction from the query engine's records,
//! task lookup, and the runner that holds the configuration and the engine.
use vstd::prelude::*;
use crate::config::Config;
use crate::error::Error;
use crate::query::{Value, ReadFailure, markdown_parses, section_records, read_section_records};
use crate::text::{decimal, decimal_string, trim, trimmed};

verus! {

/// A fenced code block of a section.
#[derive(Debug, Clone, PartialEq)]
pub struct CodeBlock {
    /// The fence's language tag; empty where the fence names none.
    pub lang: String,
    /// The body of the block, without the fences.
    pub code: String,
}

impl View for CodeBlock {
    /// The language tag and the code.
    type V = (Seq<char>, Seq<char>);

    open spec fn view(&self) -> (Seq<char>, Seq<char>) {
        (self.lang@, self.code@)
    }
}

/// A section of the document: one task.
#[derive(Debug, Clone)]
pub struct Section {
    /// The heading's text.
    pub title: String,
    /// The heading's depth.
    pub level: u8,
    /// The code blocks of the section, in document order.
    pub codes: Vec<CodeBlock>,
    /// The prose that follows the heading, if the query found any.
    pub description: Option<String>,
}

/// A section as plain values.
pub struct SectionView {
    pub title: Seq<char>,
    pub level: u8,
    pub codes: Seq<(Seq<char>, Seq<char>)>,
    pub description: Option<Seq<char>>,
}

impl View for Section {
    type V = SectionView;

    open spec fn view(&self) -> SectionView {
        SectionView {
            title: self.title@,
            level: self.level,
            codes: self.codes@.map_values(|c: CodeBlock| c@),
            description: match self.description {
                Some(d) => Some(d@),
                None => None,
            },
        }
    }
}

impl Default for Section {
    fn default() -> (r: Self)
        ensures
            r.title@ == Seq::<char>::empty(),
            r.level == 0,
            r.codes@.len() == 0,
            r.description is None,
    {
        Section { title: String::new(), level: 0, codes: Vec::new(), description: None }
    }
}

/// The views of a sequence of sections.
pub open spec fn section_views(s: Seq<Section>) -> Seq<SectionView> {
    s.map_values(|x: Section| x@)
}

/// The value of the first entry of `entries` under `key`.
pub open spec fn field_of(entries: Seq<(String, Value)>, key: Seq<char>) -> Option<Value>
    decreases entries.len(),
{
    if entries.len() == 0 {
        None
    } else if entries[0].0@ == key {
        Some(entries[0].1)
    } else {
        field_of(entries.drop_first(), key)
    }
}

/// The string under `key`, where the entry is there and holds a string.
pub open spec fn text_of(entries: Seq<(String, Value)>, key: Seq<char>) -> Option<Seq<char>> {
    match field_of(entries, key) {
        Some(Value::Text(s)) => Some(s@),
        _ => None,
    }
}

/// A string field, or the empty string where it is missing or not a string.
pub open spec fn text_or_empty(entries: Seq<(String, Value)>, key: Seq<char>) -> Seq<char> {
    match text_of(entries, key) {
        Some(s) => s,
        None => Seq::empty(),
    }
}

/// A number as a heading level: truncated into `0..=255`.
pub open spec fn level_of_number(n: i64) -> u8 {
    if n < 0 {
        0
    } else if n > 255 {
        255
    } else {
        n as u8
    }
}

/// The code blocks that the items of a `codes` array describe: one per dictionary,
/// other items dropped.
pub open spec fn code_blocks_of(items: Seq<Value>) -> Seq<(Seq<char>, Seq<char>)>
    decreases items.len(),
{
    if items.len() == 0 {
        seq![]
    } else {
        let before = code_blocks_of(items.drop_last());
        match items.last() {
            Value::Dict(entries) => before.push(
                (text_or_empty(entries@, "lang"@), text_or_empty(entries@, "code"@)),
            ),
            _ => before,
        }
    }
}

/// The section that a record describes, with `default_level` where it gives no level.
pub open spec fn section_of(entries: Seq<(String, Value)>, default_level: u8) -> SectionView {
    SectionView {
        title: text_or_empty(entries, "title"@),
        level: match field_of(entries, "level"@) {
            Some(Value::Number(n)) => level_of_number(n),
            _ => default_level,
        },
        codes: match field_of(entries, "codes"@) {
            Some(Value::Array(items)) => code_blocks_of(items@),
            _ => seq![],
        },
        description: text_of(entries, "description"@),
    }
}

/// The sections that the query's records describe: one per dictionary, in order,
/// other records dropped.
pub open spec fn sections_of(records: Seq<Value>, default_level: u8) -> Seq<SectionView>
    decreases records.len(),
{
    if records.len() == 0 {
        seq![]
    } else {
        let before = sections_of(records.drop_last(), default_level);
        match records.last() {
            Value::Dict(entries) => before.push(section_of(entries@, default_level)),
            _ => before,
        }
    }
}

/// The first entry of `entries` under `key`.
fn field<'a>(entries: &'a Vec<(String, Value)>, key: &str) -> (r: Option<&'a Value>)
    ensures
        match r {
            Some(v) => field_of(entries@, key@) == Some(*v),
            None => field_of(entries@, key@) is None,
        },
{
    let wanted = String::from_str(key);
    let mut i: usize = 0;
    assert(entries@.skip(0) =~= entries@);
    while i < entries.len()
        invariant
            i <= entries@.len(),
            wanted@ == key@,
            field_of(entries@, key@) == field_of(entries@.skip(i as int), key@),
        decreases entries@.len() - i,
    {
        let ghost rest = entries@.skip(i as int);
        assert(rest.drop_first() =~= entries@.skip(i as int + 1));
        if entries[i].0 == wanted {
            return Some(&entries[i].1);
        }
        i = i + 1;
    }
    None
}

/// The string under `key`, if the entry is there and holds a string.
fn text_field(entries: &Vec<(String, Value)>, key: &str) -> (r: Option<String>)
    ensures
        match r {
            Some(s) => text_of(entries@, key@) == Some(s@),
            None => text_of(entries@, key@) is None,
        },
{
    match field(entries, key) {
        Some(Value::Text(s)) => Some(s.clone()),
        _ => None,
    }
}

fn text_field_or_empty(entries: &Vec<(String, Value)>, key: &str) -> (r: String)
    ensures
        r@ == text_or_empty(entries@, key@),
{
    match text_field(entries, key) {
        Some(s) => s,
        None => String::new(),
    }
}

/// Reads a number as a heading level, truncated into `0..=255`.
pub fn level_from_number(n: i64) -> (r: u8)
    ensures
        r == level_of_number(n),
{
    if n < 0 {
        0
    } else if n > 255 {
        255
    } else {
        n as u8
    }
}

/// The code blocks described by the items of a `codes` array.
pub fn parse_code_blocks(arr: &Vec<Value>) -> (r: Vec<CodeBlock>)
    ensures
        r@.map_values(|c: CodeBlock| c@) == code_blocks_of(arr@),
{
    let mut blocks: Vec<CodeBlock> = Vec::new();
    let mut i: usize = 0;
    while i < arr.len()
        invariant
            i <= arr@.len(),
            blocks@.map_values(|c: CodeBlock| c@) == code_blocks_of(arr@.take(i as int)),
        decreases arr@.len() - i,
    {
        assert(arr@.take(i as int + 1).drop_last() =~= arr@.take(i as int));
        let ghost before = blocks@;
        match &arr[i] {
            Value::Dict(entries) => {
                let lang = text_field_or_empty(entries, "lang");
                let code = text_field_or_empty(entries, "code");
                blocks.push(CodeBlock { lang, code });
                assert(blocks@.map_values(|c: CodeBlock| c@) =~= before.map_values(
                    |c: CodeBlock| c@,
                ).push((lang@, code@)));
            },
            _ => {},
        }
        i = i + 1;
    }
    assert(arr@.take(arr@.len() as int) =~= arr@);
    blocks
}

/// The section described by one record, with `default_level` where it gives no level.
pub fn parse_section(dict: &Vec<(String, Value)>, default_level: u8) -> (r: Section)
    ensures
        r@ == section_of(dict@, default_level),
{
    let title = text_field_or_empty(dict, "title");
    let level = match field(dict, "level") {
        Some(Value::Number(n)) => level_from_number(*n),
        _ => default_level,
    };
    let codes = match field(dict, "codes") {
        Some(Value::Array(items)) => parse_code_blocks(items),
        _ => Vec::new(),
    };
    let description = text_field(dict, "description");
    let r = Section { title, level, codes, description };
    assert(r@.title == section_of(dict@, default_level).title);
    assert(r@.level == section_of(dict@, default_level).level);
    assert(r@.codes == section_of(dict@, default_level).codes);
    assert(r@.description == section_of(dict@, default_level).description);
    r
}

/// The sections described by the query's records, with `default_level` where a
/// record gives no level.
pub fn parse_sections(records: &Vec<Value>, default_level: u8) -> (r: Vec<Section>)
    ensures
        section_views(r@) == sections_of(records@, default_level),
{
    let mut sections: Vec<Section> = Vec::new();
    let mut i: usize = 0;
    while i < records.len()
        invariant
            i <= records@.len(),
            section_views(sections@) == sections_of(records@.take(i as int), default_level),
        decreases records@.len() - i,
    {
        assert(records@.take(i as int + 1).drop_last() =~= records@.take(i as int));
        let ghost before = sections@;
        match &records[i] {
            Value::Dict(entries) => {
                let section = parse_section(entries, default_level);
                sections.push(section);
                assert(section_views(sections@) =~= section_views(before).push(section@));
            },
            _ => {},
        }
        i = i + 1;
    }
    assert(records@.take(records@.len() as int) =~= records@);
    sections
}

/// The mq program that groups a document's nodes into one record per task section.
/// `sections_with_code(nodes, level)` yields, for each heading at `level`, a dictionary
/// with the heading's `title` and `level`, the fenced `codes` up to the next heading at
/// `level` or above (each a `lang` and a `code`), and a `description`: the trimmed text
/// of the first node after the heading, unless that node is a heading or a code block.
pub const SECTIONS_QUERY: &'static str = r#"def _mx_is_prose(node): is_code(node) == false && _md_heading_level(node) == 0;
def _mx_description(body):
  if (is_empty(body)):
    None
  else:
    do
      let head = first(body)
      | if (_mx_is_prose(head)): trim(to_text(head)) else: None
    end
end
def _mx_code_block(node): {lang: attr(node, "lang"), code: attr(node, "value")};
def sections_with_code(md_nodes, level):
  if (is_empty(md_nodes)):
    []
  else:
    do
      let n = len(md_nodes)
      | let starts = do foreach (i, range(n - 1)): if (_md_heading_level(md_nodes[i]) == level): i; | compact();
      | let stops = do foreach (j, range(n - 1)): let depth = _md_heading_level(md_nodes[j]) | if (depth > 0 && depth <= level): j; | compact();
      | let stops_with_end = stops + n
      | let count = len(starts)
      | var result = []
      | var k = 0
      | while (k < count):
          let start = starts[k]
          | let stop = first(filter(stops_with_end, fn(b): b > start;))
          | let body = md_nodes[start + 1:stop]
          | let codes = map(filter(body, fn(x): is_code(x);), _mx_code_block)
          | result += [{title: to_text(md_nodes[start]), level: level, codes: codes, description: _mx_description(body)}]
          | k += 1
          | result
        end
      | result
    end
end"#;

/// The query that evaluates `SECTIONS_QUERY` over all nodes, at heading depth `level`.
pub open spec fn sections_query_text(level: u8) -> Seq<char> {
    SECTIONS_QUERY@ + "\n | nodes | sections_with_code("@ + decimal(level as nat) + ")"@
}

/// Builds the section query for heading depth `level`.
pub fn sections_query(level: u8) -> (r: String)
    ensures
        r@ == sections_query_text(level),
{
    let mut query = String::from_str(SECTIONS_QUERY);
    query.append("\n | nodes | sections_with_code(");
    let digits = decimal_string(level as u128);
    query.append(digits.as_str());
    query.append(")");
    query
}

/// The line that lists a task: its title alone where it has no description or a blank
/// one; else its title, `": "`, and its description without surrounding whitespace.
pub open spec fn task_summary_text(section: SectionView) -> Seq<char> {
    match section.description {
        Some(d) => if trimmed(d).len() == 0 {
            section.title
        } else {
            section.title + ": "@ + trimmed(d)
        },
        None => section.title,
    }
}

/// The line that lists `section` as a task.
pub fn task_summary(section: &Section) -> (r: String)
    ensures
        r@ == task_summary_text(section@),
{
    let mut line = section.title.clone();
    match &section.description {
        Some(d) => {
            let t = trim(d.as_str());
            if t.unicode_len() > 0 {
                line.append(": ");
                line.append(t.as_str());
            }
        },
        None => {},
    }
    line
}

/// The first section titled `title`, by its index.
pub open spec fn first_titled(sections: Seq<Section>, title: Seq<char>) -> Option<int>
    decreases sections.len(),
{
    if sections.len() == 0 {
        None
    } else if sections[0].title@ == title {
        Some(0)
    } else {
        match first_titled(sections.drop_first(), title) {
            Some(i) => Some(i + 1),
            None => None,
        }
    }
}

/// Task runner: reads documents into sections and decides how their blocks run,
/// under one configuration.
pub struct Runner {
    config: Config,
}

impl Runner {
    /// The configuration that the runner was made with.
    pub closed spec fn spec_config(&self) -> Config {
        self.config
    }

    /// Creates a runner with `config`.
    pub fn new(config: Config) -> (r: Self)
        ensures
            r.spec_config() == config,
    {
        Runner { config }
    }

    /// Creates a runner with the default configuration.
    pub fn with_default_config() -> (r: Self)
        ensures
            crate::config::holds_builtin_runtimes(r.spec_config().runtimes@),
            crate::config::has_unique_tags(r.spec_config().runtimes@),
            r.spec_config().heading_level == 2,
    {
        Runner::new(Config::default())
    }

    /// The runner's configuration.
    pub fn config(&self) -> (r: &Config)
        ensures
            *r == self.spec_config(),
    {
        &self.config
    }

    /// Reads `markdown` into sections: the document is parsed, the section query for
    /// the configured heading level is evaluated on its nodes, and each record the
    /// query yields becomes a section. A document that does not parse is a `Markdown`
    /// error; a query that fails is a `Query` error. Nothing is kept between calls.
    pub fn extract_sections(&mut self, markdown: &str) -> (r: Result<Vec<Section>, Error>)
        ensures
            final(self).spec_config() == old(self).spec_config(),
            !markdown_parses(markdown@) ==> (r matches Err(e) && e is Markdown),
            markdown_parses(markdown@) ==> match section_records(
                markdown@,
                sections_query_text(old(self).spec_config().heading_level),
            ) {
                Some(records) => r matches Ok(sections) && section_views(sections@)
                    == sections_of(records, old(self).spec_config().heading_level),
                None => r matches Err(e) && e is Query,
            },
    {
        let level = self.config.heading_level;
        let query = sections_query(level);
        assert(sections_query_text(level) == query@);
        match read_section_records(markdown, query.as_str()) {
            Ok(records) => Ok(parse_sections(&records, level)),
            Err(ReadFailure::Markdown(msg)) => {
                let mut text = String::from_str("Failed to parse markdown: ");
                text.append(msg.as_str());
                Err(Error::Markdown(text))
            },
            Err(ReadFailure::Query(msg)) => {
                let mut text = String::from_str("Failed to execute query: ");
                text.append(msg.as_str());
                Err(Error::Query(text))
            },
        }
    }

    /// The first section of `sections` whose title is `title`, exactly.
    pub fn find_section<'a>(&self, sections: &'a [Section], title: &str) -> (r: Option<&'a Section>)
        ensures
            match first_titled(sections@, title@) {
                Some(i) => r == Some(&sections@[i]),
                None => r is None,
            },
    {
        let wanted = String::from_str(title);
        let mut i: usize = 0;
        while i < sections.len()
            invariant
                i <= sections@.len(),
                wanted@ == title@,
                forall|j: int| 0 <= j < i ==> sections@[j].title@ != title@,
            decreases sections@.len() - i,
        {
            if sections[i].title == wanted {
                proof {
                    lemma_first_titled_at(sections@, title@, i as int);
                }
                return Some(&sections[i]);
            }
            i = i + 1;
        }
        proof {
            lemma_first_titled_at(sections@, title@, sections@.len() as int);
        }
        None
    }

    /// The section of task `task_name` among `sections`: the first titled so; where
    /// none is, a `SectionNotFound` error naming the task.
    pub fn section_for_task<'a>(&self, sections: &'a [Section], task_name: &str) -> (r: Result<
        &'a Section,
        Error,
    >)
        ensures
            match first_titled(sections@, task_name@) {
                Some(i) => r == Ok::<&Section, Error>(&sections@[i]),
                None => r matches Err(Error::SectionNotFound(t)) && t@ == task_name@,
            },
    {
        match self.find_section(sections, task_name) {
            Some(section) => Ok(section),
            None => Err(Error::SectionNotFound(String::from_str(task_name))),
        }
    }
}

/// Lookup is first-match-wins: where the section at `i` is titled `title`, the section
/// found is at `i` or before it, carries that title, and no section before it does.
/// The result depends on the sections and the title alone, so repeated lookups agree.
pub proof fn lemma_first_titled_earliest(sections: Seq<Section>, title: Seq<char>, i: int)
    requires
        0 <= i < sections.len(),
        sections[i].title@ == title,
    ensures
        first_titled(sections, title) matches Some(k) && {
            &&& 0 <= k <= i
            &&& sections[k].title@ == title
            &&& forall|j: int| 0 <= j < k ==> sections[j].title@ != title
        },
    decreases i,
{
    if sections[0].title@ != title {
        let rest = sections.drop_first();
        lemma_first_titled_earliest(rest, title, i - 1);
        let k = first_titled(rest, title)->0;
        assert forall|j: int| 0 <= j < k + 1 implies sections[j].title@ != title by {
            if j > 0 {
                assert(sections[j] == rest[j - 1]);
            }
        }
    }
}

/// Whether `v` is a section record that lists no code block: a dictionary whose
/// `codes` entry is missing, not an array, or an empty array.
pub open spec fn is_code_free_record(v: Value) -> bool {
    v matches Value::Dict(entries) && match field_of(entries@, "codes"@) {
        Some(Value::Array(items)) => items@.len() == 0,
        _ => true,
    }
}

/// Records of sections without code give as many sections, each without code.
pub proof fn lemma_code_free_records(records: Seq<Value>, default_level: u8)
    requires
        forall|i: int| 0 <= i < records.len() ==> is_code_free_record(#[trigger] records[i]),
    ensures
        sections_of(records, default_level).len() == records.len(),
        forall|i: int|
            0 <= i < records.len() ==> (#[trigger] sections_of(records, default_level)[i]).codes.len()
                == 0,
    decreases records.len(),
{
    if records.len() > 0 {
        let before = records.drop_last();
        assert forall|i: int| 0 <= i < before.len() implies is_code_free_record(
            #[trigger] before[i],
        ) by {
            assert(before[i] == records[i]);
        }
        lemma_code_free_records(before, default_level);
        assert(is_code_free_record(records[records.len() - 1]));
    }
}

/// Where no section before `i` is titled `title` and the one at `i` is (or `i` is the
/// end), `first_titled` gives `i` (or nothing).
proof fn lemma_first_titled_at(sections: Seq<Section>, title: Seq<char>, i: int)
    requires
        0 <= i <= sections.len(),
        forall|j: int| 0 <= j < i ==> sections[j].title@ != title,
        i < sections.len() ==> sections[i].title@ == title,
    ensures
        first_titled(sections, title) == if i < sections.len() {
            Some(i)
        } else {
            None::<int>
        },
    decreases i,
{
    if i > 0 {
        let rest = sections.drop_first();
        assert forall|j: int| 0 <= j < i - 1 implies rest[j].title@ != title by {
            assert(rest[j] == sections[j + 1]);
        }
        lemma_first_titled_at(rest, title, i - 1);
    }
}

} // verus!
