use ltxbuild::grammar::classify_line;
use ltxbuild::messages::{BuildReport, Message, MessageKind};
use ltxbuild::parse::{parse_log, LogParser};

fn lines(v: &[&str]) -> Vec<String> {
    v.iter().map(|s| s.to_string()).collect()
}

fn info_of(m: &Message) -> &ltxbuild::messages::MessageInfo {
    match m {
        Message::Error(i) => i,
        Message::Warning(i) => i,
        Message::Badbox(i) => i,
        Message::Info(i) => i,
    }
}

#[test]
fn underfull_vbox_while_output_active() {
    let r = parse_log(&lines(&[
        "Underfull \\vbox (badness 1234) has occurred while \\output is active []",
    ]));
    assert_eq!(r.badboxes, 1);
    assert_eq!(r.errors, 0);
    assert_eq!(r.warnings, 0);
    assert_eq!(r.info, 0);
    assert_eq!(r.messages.len(), 1);
    let m = info_of(&r.messages[0]);
    assert_eq!(m.details.direction.as_deref(), Some("v"));
    assert_eq!(m.details.by.as_deref(), Some("1234"));
    assert!(m.details.line.is_none());
    assert!(m.details.start_line.is_none());
    assert!(m.details.end_line.is_none());
}

#[test]
fn overfull_hbox_with_line_range() {
    let r = parse_log(&lines(&[
        "Overfull \\hbox (54.95697pt too wide) in paragraph at lines 397--397",
    ]));
    assert_eq!(r.badboxes, 1);
    assert_eq!(r.messages.len(), 1);
    let m = info_of(&r.messages[0]);
    assert_eq!(m.details.direction.as_deref(), Some("h"));
    assert_eq!(m.details.by.as_deref(), Some("54.95697pt too wide"));
    assert_eq!(m.details.start_line.as_deref(), Some("397"));
    assert_eq!(m.details.end_line.as_deref(), Some("397"));
    assert!(m.details.line.is_none());
}

#[test]
fn overfull_hbox_with_single_line() {
    let r = parse_log(&lines(&[
        "Overfull \\hbox (3.0pt too wide) detected at line 123",
    ]));
    assert_eq!(r.badboxes, 1);
    let m = info_of(&r.messages[0]);
    assert_eq!(m.details.direction.as_deref(), Some("h"));
    assert_eq!(m.details.by.as_deref(), Some("3.0pt too wide"));
    assert_eq!(m.details.line.as_deref(), Some("123"));
    assert!(m.details.start_line.is_none());
    assert!(m.details.end_line.is_none());
}

#[test]
fn bare_error_undefined_control_sequence() {
    let r = parse_log(&lines(&["! Undefined control sequence."]));
    assert_eq!(r.errors, 1);
    assert_eq!(r.warnings, 0);
    assert_eq!(r.badboxes, 0);
    assert_eq!(r.info, 0);
    assert_eq!(r.messages.len(), 1);
    let m = info_of(&r.messages[0]);
    assert_eq!(m.details.message.as_deref(), Some("Undefined control sequence."));
    assert!(m.details.type_tag.is_none());
    assert!(m.details.component.is_none());
    assert!(m.details.package.is_none());
    assert!(m.details.class.is_none());
    assert!(m.details.extra.is_none());
    assert!(matches!(r.messages[0], Message::Error(_)));
}

#[test]
fn package_error_with_component() {
    let r = parse_log(&lines(&[
        "! Package babel Error: Unknown option `latin'. Either you misspelled it",
    ]));
    assert_eq!(r.errors, 1);
    assert_eq!(r.messages.len(), 1);
    let m = info_of(&r.messages[0]);
    assert_eq!(m.details.package.as_deref(), Some("babel"));
    assert_eq!(m.details.type_tag.as_deref(), Some("Package"));
    assert!(m.details.message.as_deref().unwrap().starts_with("Unknown option"));
}

#[test]
fn single_warning_increments_one_counter_once() {
    let r = parse_log(&lines(&[
        "LaTeX Warning: Citation `foo' on page 1 undefined on input line 5.",
    ]));
    assert_eq!(r.warnings, 1);
    assert_eq!(r.errors, 0);
    assert_eq!(r.badboxes, 0);
    assert_eq!(r.info, 0);
    assert_eq!(r.messages.len(), 1);
    assert_eq!(r.missing_references, 1);
    let m = info_of(&r.messages[0]);
    assert!(m.details.component.is_none());
    assert!(m
        .details
        .message
        .as_deref()
        .unwrap()
        .starts_with("Citation `foo'"));
    assert!(matches!(r.messages[0], Message::Warning(_)));
}

#[test]
fn plain_latex_warning_without_component() {
    let r = parse_log(&lines(&[
        "LaTeX Warning: There were undefined references.",
    ]));
    assert_eq!(r.warnings, 1);
    assert_eq!(r.missing_references, 1);
    let m = info_of(&r.messages[0]);
    assert_eq!(m.details.type_tag.as_deref(), Some("LaTeX"));
    assert!(m.details.component.is_none());
    assert_eq!(
        m.details.message.as_deref(),
        Some("There were undefined references.")
    );
}

#[test]
fn warning_without_undefined_text_is_not_missing_reference() {
    let r = parse_log(&lines(&[
        "LaTeX Warning: Label(s) may have changed. Rerun to get cross-references right.",
    ]));
    assert_eq!(r.warnings, 1);
    assert_eq!(r.missing_references, 0);
}

#[test]
fn continuation_extends_previous_message() {
    let r = parse_log(&lines(&[
        "Package hyperref Warning: Option `pdfauthor' has already been used,",
        "(hyperref)                 setting the option has no effect on input line 5.",
    ]));
    assert_eq!(r.warnings, 1);
    assert_eq!(r.errors, 0);
    assert_eq!(r.messages.len(), 1);
    let m = info_of(&r.messages[0]);
    assert_eq!(m.details.package.as_deref(), Some("hyperref"));
    let msg = m.details.message.as_deref().unwrap();
    assert!(msg.starts_with("Option `pdfauthor' has already been used,"));
    assert!(msg.ends_with("setting the option has no effect on input line 5."));
    assert!(m.full.starts_with("Package hyperref Warning:"));
    assert!(m.full.ends_with("on input line 5."));
}

#[test]
fn continuation_prefix_must_match_component() {
    let r = parse_log(&lines(&[
        "Package hyperref Warning: Option `pdfauthor' has already been used,",
        "(babel)                 this line belongs to nobody",
    ]));
    // The echoed name does not match, so the second line is just dropped.
    assert_eq!(r.warnings, 1);
    assert_eq!(r.messages.len(), 1);
    let m = info_of(&r.messages[0]);
    assert_eq!(
        m.details.message.as_deref(),
        Some("Option `pdfauthor' has already been used,")
    );
}

#[test]
fn error_collects_two_context_lines() {
    let r = parse_log(&lines(&[
        "! Undefined control sequence.",
        "l.5 \\foo",
        "<recently read> \\foo",
        "LaTeX Warning: Citation `x' on page 1 undefined on input line 2.",
    ]));
    assert_eq!(r.errors, 1);
    assert_eq!(r.warnings, 1);
    assert_eq!(r.messages.len(), 2);
    let e = info_of(&r.messages[0]);
    assert_eq!(e.context_lines.len(), 2);
    assert_eq!(e.context_lines[0], "l.5 \\foo");
    assert_eq!(e.context_lines[1], "<recently read> \\foo");
}

#[test]
fn warning_collects_no_context() {
    let r = parse_log(&lines(&[
        "LaTeX Warning: There were undefined references.",
        "some stray line",
    ]));
    assert_eq!(r.warnings, 1);
    assert_eq!(r.messages.len(), 1);
    assert!(info_of(&r.messages[0]).context_lines.is_empty());
}

#[test]
fn info_with_extra_token() {
    let r = parse_log(&lines(&[
        "Package frenchb Info (french): something was adjusted",
    ]));
    assert_eq!(r.info, 1);
    let m = info_of(&r.messages[0]);
    assert_eq!(m.details.package.as_deref(), Some("frenchb"));
    assert_eq!(m.details.extra.as_deref(), Some("french"));
    assert_eq!(m.details.message.as_deref(), Some("something was adjusted"));
    assert!(matches!(r.messages[0], Message::Info(_)));
}

#[test]
fn class_warning_uses_class_key() {
    let r = parse_log(&lines(&[
        "Class scrbook Warning: deprecated option used",
    ]));
    assert_eq!(r.warnings, 1);
    let m = info_of(&r.messages[0]);
    assert_eq!(m.details.class.as_deref(), Some("scrbook"));
    assert!(m.details.package.is_none());
    assert!(m.details.component.is_none());
}

#[test]
fn lowercase_pdftex_warning_is_recognized() {
    let r = parse_log(&lines(&[
        "pdfTeX warning (dest): name{fig:x} has been referenced but does not exist",
    ]));
    assert_eq!(r.warnings, 1);
    let m = info_of(&r.messages[0]);
    assert_eq!(m.details.type_tag.as_deref(), Some("pdfTeX"));
    assert_eq!(m.details.extra.as_deref(), Some("dest"));
}

#[test]
fn garbage_lines_are_dropped_silently() {
    let r = parse_log(&lines(&[
        "This is pdfTeX, Version 3.14159265",
        "(./test.tex",
        "[1{/var/lib/texmf/fonts/map}]",
        "Output written on test.pdf (1 page, 12345 bytes).",
    ]));
    assert_eq!(r.errors, 0);
    assert_eq!(r.warnings, 0);
    assert_eq!(r.badboxes, 0);
    assert_eq!(r.info, 0);
    assert_eq!(r.messages.len(), 0);
    assert_eq!(r.missing_references, 0);
}

#[test]
fn malformed_badbox_is_not_counted() {
    let r = parse_log(&lines(&[
        // The underfull amount must be a badness integer.
        "Underfull \\vbox (12pt too short) has occurred while \\output is active []",
        // The parenthesis never closes.
        "Overfull \\hbox (54.9pt too wide in paragraph at lines 1--2",
    ]));
    assert_eq!(r.badboxes, 0);
    assert_eq!(r.messages.len(), 0);
}

#[test]
fn counters_always_match_message_kinds() {
    let r = parse_log(&lines(&[
        "! Undefined control sequence.",
        "l.1 \\x",
        "",
        "LaTeX Warning: Reference `a' on page 1 undefined on input line 2.",
        "Overfull \\hbox (1.0pt too wide) in paragraph at lines 3--4",
        "LaTeX Info: nothing of note",
        "! Package babel Error: Unknown option `x'. choose another",
    ]));
    let mut errors = 0;
    let mut warnings = 0;
    let mut badboxes = 0;
    let mut info = 0;
    for m in &r.messages {
        match m {
            Message::Error(_) => errors += 1,
            Message::Warning(_) => warnings += 1,
            Message::Badbox(_) => badboxes += 1,
            Message::Info(_) => info += 1,
        }
    }
    assert_eq!(r.errors, errors);
    assert_eq!(r.warnings, warnings);
    assert_eq!(r.badboxes, badboxes);
    assert_eq!(r.info, info);
    assert_eq!(r.errors, 2);
    assert_eq!(r.warnings, 1);
    assert_eq!(r.badboxes, 1);
    assert_eq!(r.info, 1);
}

#[test]
fn classify_line_matches_parser_behaviour() {
    let c = classify_line("! Undefined control sequence.");
    assert!(matches!(c, Some((MessageKind::Error, _))));
    let c = classify_line("LaTeX Warning: There were undefined references.");
    assert!(matches!(c, Some((MessageKind::Warning, _))));
    let c = classify_line("just noise");
    assert!(c.is_none());
}

#[test]
fn streaming_parser_matches_batch_parser() {
    let input = [
        "! Undefined control sequence.",
        "l.5 \\foo",
        "ctx",
        "LaTeX Warning: There were undefined references.",
    ];
    let mut p = LogParser::new();
    for l in input {
        p.process_line(l);
    }
    let streamed = p.report;
    let batch = parse_log(&lines(&input));
    assert_eq!(streamed.errors, batch.errors);
    assert_eq!(streamed.warnings, batch.warnings);
    assert_eq!(streamed.messages.len(), batch.messages.len());
}

#[test]
fn empty_report_is_all_zero() {
    let r = BuildReport::new();
    assert_eq!(r.errors, 0);
    assert_eq!(r.warnings, 0);
    assert_eq!(r.badboxes, 0);
    assert_eq!(r.info, 0);
    assert_eq!(r.missing_references, 0);
    assert!(r.messages.is_empty());
}

#[test]
fn message_accessors_work() {
    let r = parse_log(&lines(&[
        "Package babel Warning: something undefined happened",
    ]));
    let name = r.messages[0].get_component_name();
    assert_eq!(name.map(|s| s.as_str()), Some("babel"));
    let mut m = match &r.messages[0] {
        Message::Warning(i) => Message::Warning(i.clone()),
        _ => unreachable!(),
    };
    m.extend_message(" and more");
    m.add_context("ctx".to_string());
    let i = info_of(&m);
    assert!(i.details.message.as_deref().unwrap().ends_with(" and more"));
    assert_eq!(i.context_lines, vec!["ctx".to_string()]);
}
