use mx::query::Value;
use mx::runner::{
    level_from_number, parse_code_blocks, parse_section, parse_sections, sections_query, task_summary,
    CodeBlock, Section, SECTIONS_QUERY,
};
use mx::{Config, Runner};

#[test]
fn test_runner_creation() {
    let runner = Runner::with_default_config();
    assert_eq!(runner.config().heading_level, 2);
}

#[test]
fn runner_test_extract_sections() {
    let markdown = r#"# Title

## Task 1

```bash
echo "hello"
```

## Task 2

```python
print("world")
```
"#;

    let mut runner = Runner::with_default_config();
    let sections = runner.extract_sections(markdown).unwrap();

    assert_eq!(sections.len(), 2);
    assert_eq!(sections[0].title, "Task 1");
    assert_eq!(sections[0].codes.len(), 1);
    assert_eq!(sections[0].codes[0].lang, "bash");
}

#[test]
fn test_find_section() {
    let sections = vec![
        Section {
            title: "Task 1".to_string(),
            level: 2,
            ..Default::default()
        },
        Section {
            title: "Task 2".to_string(),
            level: 2,
            ..Default::default()
        },
    ];

    let runner = Runner::with_default_config();
    let found = runner.find_section(&sections, "Task 1");
    assert!(found.is_some());
    assert_eq!(found.unwrap().title, "Task 1");

    let not_found = runner.find_section(&sections, "Task 3");
    assert!(not_found.is_none());
}

#[test]
fn integration_test_test_extract_sections() {
    let markdown = r#"# Test Document

## Build

```bash
echo "building..."
```

## Test

```bash
echo "testing..."
```
"#;

    let config = Config::default();
    let mut runner = Runner::new(config);

    let sections = runner.extract_sections(markdown).unwrap();

    assert_eq!(sections.len(), 2);
    assert_eq!(sections[0].title, "Build");
    assert_eq!(sections[1].title, "Test");
}

#[test]
fn test_custom_heading_level() {
    let markdown = r#"# Title

### Task 1

```bash
echo "hello"
```

### Task 2

```python
print("world")
```
"#;

    let config = mx::Config {
        heading_level: 3,
        ..Default::default()
    };
    let mut runner = Runner::new(config);
    let sections = runner.extract_sections(markdown).unwrap();

    assert_eq!(sections.len(), 2);
    assert_eq!(sections[0].title, "Task 1");
    assert_eq!(sections[1].title, "Task 2");
    assert_eq!(
        sections[1].codes[0],
        CodeBlock {
            lang: "python".to_string(),
            code: "print(\"world\")".to_string()
        }
    );
}

#[test]
fn extract_two_sections_with_exact_blocks() {
    let markdown = "# Title\n\n## Task 1\n\n```bash\necho \"hello\"\n```\n\n## Task 2\n\n```python\nprint(\"world\")\n```\n";
    let mut runner = Runner::with_default_config();
    let sections = runner.extract_sections(markdown).unwrap();
    assert_eq!(sections.len(), 2);
    assert_eq!(sections[0].title, "Task 1");
    assert_eq!(sections[1].title, "Task 2");
    assert_eq!(sections[0].level, 2);
    assert_eq!(
        sections[0].codes,
        vec![CodeBlock { lang: "bash".to_string(), code: "echo \"hello\"".to_string() }]
    );
    assert_eq!(
        sections[1].codes,
        vec![CodeBlock { lang: "python".to_string(), code: "print(\"world\")".to_string() }]
    );
}

#[test]
fn headings_without_code_give_empty_sections() {
    let markdown = "# Doc\n\n## A\n\nSome text.\n\n## B\n\n## C\n\nMore text.\n";
    let mut runner = Runner::with_default_config();
    let sections = runner.extract_sections(markdown).unwrap();
    assert_eq!(sections.len(), 3);
    for s in &sections {
        assert!(s.codes.is_empty());
    }
    assert_eq!(sections[0].title, "A");
    assert_eq!(sections[2].title, "C");
}

#[test]
fn code_under_deeper_headings_belongs_to_the_task() {
    let markdown = "## Task\n\nRuns it.\n\n### Step\n\n```sh\necho one\n```\n\n## Next\n\n```bash\necho two\n```\n";
    let mut runner = Runner::with_default_config();
    let sections = runner.extract_sections(markdown).unwrap();
    assert_eq!(sections.len(), 2);
    assert_eq!(sections[0].codes.len(), 1);
    assert_eq!(sections[0].codes[0].lang, "sh");
    assert_eq!(sections[0].description.as_deref(), Some("Runs it."));
    assert_eq!(sections[1].codes[0].code, "echo two");
}

#[test]
fn document_without_task_headings_has_no_sections() {
    let mut runner = Runner::with_default_config();
    let sections = runner.extract_sections("# Only a title\n\ntext\n").unwrap();
    assert!(sections.is_empty());
    let sections = runner.extract_sections("").unwrap();
    assert!(sections.is_empty());
}

#[test]
fn find_section_takes_the_first_of_equal_titles() {
    let sections = vec![
        Section { title: "Build".to_string(), level: 2, description: Some("first".to_string()), ..Default::default() },
        Section { title: "build".to_string(), level: 2, ..Default::default() },
        Section { title: "Build".to_string(), level: 3, description: Some("second".to_string()), ..Default::default() },
    ];
    let runner = Runner::with_default_config();
    let a = runner.find_section(&sections, "Build").unwrap();
    let b = runner.find_section(&sections, "Build").unwrap();
    assert!(std::ptr::eq(a, &sections[0]));
    assert!(std::ptr::eq(a, b));
    assert_eq!(a.description.as_deref(), Some("first"));
    let c = runner.find_section(&sections, "build").unwrap();
    assert!(std::ptr::eq(c, &sections[1]));
    assert!(runner.find_section(&sections, "BUILD").is_none());
    assert!(runner.find_section(&[], "Build").is_none());
}

fn dict(entries: Vec<(&str, Value)>) -> Value {
    Value::Dict(entries.into_iter().map(|(k, v)| (k.to_string(), v)).collect())
}

fn text(s: &str) -> Value {
    Value::Text(s.to_string())
}

#[test]
fn records_become_sections_with_defaults() {
    let records = vec![
        dict(vec![
            ("title", text("Build")),
            ("level", Value::Number(3)),
            ("codes", Value::Array(vec![
                dict(vec![("lang", text("bash")), ("code", text("make"))]),
                text("not a block"),
                dict(vec![("code", text("plain"))]),
            ])),
            ("description", text("Builds it")),
        ]),
        text("dropped"),
        dict(vec![("title", Value::Number(1)), ("codes", text("no array"))]),
        Value::Other,
    ];
    let sections = parse_sections(&records, 2);
    assert_eq!(sections.len(), 2);
    assert_eq!(sections[0].title, "Build");
    assert_eq!(sections[0].level, 3);
    assert_eq!(
        sections[0].codes,
        vec![
            CodeBlock { lang: "bash".to_string(), code: "make".to_string() },
            CodeBlock { lang: "".to_string(), code: "plain".to_string() },
        ]
    );
    assert_eq!(sections[0].description.as_deref(), Some("Builds it"));
    assert_eq!(sections[1].title, "");
    assert_eq!(sections[1].level, 2);
    assert!(sections[1].codes.is_empty());
    assert!(sections[1].description.is_none());
}

#[test]
fn record_fields_take_the_first_entry() {
    let record = vec![
        ("title".to_string(), text("first")),
        ("title".to_string(), text("second")),
    ];
    assert_eq!(parse_section(&record, 4).title, "first");
    assert_eq!(parse_section(&record, 4).level, 4);
    assert!(parse_code_blocks(&vec![Value::Other]).is_empty());
}

#[test]
fn levels_are_clamped() {
    assert_eq!(level_from_number(-3), 0);
    assert_eq!(level_from_number(0), 0);
    assert_eq!(level_from_number(6), 6);
    assert_eq!(level_from_number(255), 255);
    assert_eq!(level_from_number(1000), 255);
}

#[test]
fn sections_query_names_the_level() {
    let q = sections_query(3);
    assert!(q.starts_with(SECTIONS_QUERY));
    assert!(q.ends_with("\n | nodes | sections_with_code(3)"));
    assert!(sections_query(12).ends_with("sections_with_code(12)"));
}

#[test]
fn task_summary_lists_title_and_description() {
    let s = Section { title: "Build".to_string(), description: Some("Compiles".to_string()), ..Default::default() };
    assert_eq!(task_summary(&s), "Build: Compiles");
    let t = Section { title: "Test".to_string(), ..Default::default() };
    assert_eq!(task_summary(&t), "Test");
    let blank = Section { title: "Lint".to_string(), description: Some(" \n\t ".to_string()), ..Default::default() };
    assert_eq!(task_summary(&blank), "Lint");
    let padded = Section { title: "Docs".to_string(), description: Some("  Builds docs.\n".to_string()), ..Default::default() };
    assert_eq!(task_summary(&padded), "Docs: Builds docs.");
}

#[test]
fn missing_task_is_section_not_found() {
    let sections = vec![Section { title: "Build".to_string(), ..Default::default() }];
    let runner = Runner::with_default_config();
    assert!(std::ptr::eq(runner.section_for_task(&sections, "Build").unwrap(), &sections[0]));
    match runner.section_for_task(&sections, "Deploy") {
        Err(mx::Error::SectionNotFound(t)) => assert_eq!(t, "Deploy"),
        other => panic!("unexpected {:?}", other),
    }
}

#[test]
fn task_lines_of_a_document_without_descriptions() {
    let markdown = "# Test Document\n\n## Task 1\n\n```bash\necho \"hello\"\n```\n\n## Task 2\n\n```python\nprint(\"world\")\n```\n";
    let mut runner = Runner::new(Config::default());
    let sections = runner.extract_sections(markdown).unwrap();
    let lines: Vec<String> = sections.iter().map(task_summary).collect();
    assert_eq!(lines, vec!["Task 1".to_string(), "Task 2".to_string()]);
}

#[test]
fn repeated_extraction_gives_the_same_sections() {
    let markdown = "## A\n\nFirst.\n\n```sh\necho a\n```\n\n## B\n\n```js\nconsole.log(1)\n```\n";
    let mut runner = Runner::with_default_config();
    let first = runner.extract_sections(markdown).unwrap();
    let second = runner.extract_sections(markdown).unwrap();
    assert_eq!(first.len(), second.len());
    for (x, y) in first.iter().zip(second.iter()) {
        assert_eq!(x.title, y.title);
        assert_eq!(x.level, y.level);
        assert_eq!(x.codes, y.codes);
        assert_eq!(x.description, y.description);
    }
}
