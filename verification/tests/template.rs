use voice_channel_manager::template::{parse_template, CompileError, Parser, Template, TemplatePart};

fn literal(text: &str) -> TemplatePart {
    TemplatePart::String(text.to_string())
}

#[test]
fn parses_plain_text() {
    let expected = Template { parts: vec![literal("Röstkanal")] };
    assert_eq!(expected, parse_template("Röstkanal").unwrap());
}

#[test]
fn parses_number_placeholder() {
    let expected = Template {
        parts: vec![literal("Röstkanal "), TemplatePart::ChannelNumber, literal("#")],
    };
    assert_eq!(expected, parse_template("Röstkanal {#}#").unwrap());
}

#[test]
fn parses_escaped_braces() {
    let expected = Template { parts: vec![literal("Röstkanal {#}#")] };
    assert_eq!(expected, parse_template("Röstkanal {{#}}#").unwrap());
}

#[test]
fn parses_placeholder_between_escaped_braces() {
    let expected = Template {
        parts: vec![literal("Röstkanal {"), TemplatePart::ChannelNumber, literal("}#")],
    };
    assert_eq!(expected, parse_template("Röstkanal {{{#}}}#").unwrap());
}

#[test]
fn escaping_yields_one_literal() {
    let expected = Template { parts: vec![literal("a{b}c")] };
    assert_eq!(expected, parse_template("a{{b}}c").unwrap());
}

#[test]
fn empty_pattern_has_no_parts() {
    assert_eq!(Template { parts: vec![] }, parse_template("").unwrap());
}

#[test]
fn parses_all_four_placeholders() {
    let expected = Template {
        parts: vec![
            TemplatePart::ChannelNumber,
            TemplatePart::ChildrenInTotal,
            TemplatePart::Occupants,
            TemplatePart::Capacity,
        ],
    };
    assert_eq!(expected, parse_template("{#}{%}{@}{^}").unwrap());
}

#[test]
fn parses_scenario_pattern() {
    let expected = Template {
        parts: vec![
            literal("Room "),
            TemplatePart::ChannelNumber,
            literal(" of "),
            TemplatePart::ChildrenInTotal,
        ],
    };
    assert_eq!(expected, parse_template("Room {#} of {%}").unwrap());
}

#[test]
fn escapes_at_the_start_and_back_to_back() {
    assert_eq!(Template { parts: vec![literal("{a}")] }, parse_template("{{a}}").unwrap());
    assert_eq!(Template { parts: vec![literal("}{")] }, parse_template("}}{{").unwrap());
    assert_eq!(Template { parts: vec![literal("{{")] }, parse_template("{{{{").unwrap());
}

#[test]
fn single_closing_brace_is_literal() {
    assert_eq!(Template { parts: vec![literal("a}b")] }, parse_template("a}b").unwrap());
    assert_eq!(Template { parts: vec![literal("}}")] }, parse_template("}}}").unwrap());
}

#[test]
fn neighbouring_literals_are_one_part() {
    let template = parse_template("a{{}}b{{{#}}}c}}d").unwrap();
    assert_eq!(
        template,
        Template {
            parts: vec![literal("a{}b{"), TemplatePart::ChannelNumber, literal("}c}d")],
        }
    );
    for pair in template.parts.windows(2) {
        assert!(!(matches!(pair[0], TemplatePart::String(_)) && matches!(pair[1], TemplatePart::String(_))));
    }
}

#[test]
fn reports_invalid_content_with_position() {
    assert_eq!(
        parse_template("ab\nc{x}"),
        Err(CompileError::InvalidContent { line: 2, column: 3, found: 'x' })
    );
    assert_eq!(
        parse_template("{é}"),
        Err(CompileError::InvalidContent { line: 1, column: 2, found: 'é' })
    );
    assert_eq!(
        parse_template("é{}"),
        Err(CompileError::InvalidContent { line: 1, column: 3, found: '}' })
    );
}

#[test]
fn reports_unclosed_brace_at_the_brace() {
    assert_eq!(parse_template("abc{"), Err(CompileError::Unclosed { line: 1, column: 4 }));
    assert_eq!(parse_template("a\n\nbc{#"), Err(CompileError::Unclosed { line: 3, column: 3 }));
    assert_eq!(parse_template("{"), Err(CompileError::Unclosed { line: 1, column: 1 }));
}

#[test]
fn reports_missing_close() {
    assert_eq!(
        parse_template("x{#y}"),
        Err(CompileError::ExpectedClose { line: 1, column: 4, found: 'y' })
    );
    assert_eq!(
        parse_template("{%\n}"),
        Err(CompileError::ExpectedClose { line: 1, column: 3, found: '\n' })
    );
}

#[test]
fn reports_the_first_error() {
    assert_eq!(
        parse_template("{a}{"),
        Err(CompileError::InvalidContent { line: 1, column: 2, found: 'a' })
    );
}

#[test]
fn error_messages_name_the_place() {
    let unclosed = CompileError::Unclosed { line: 3, column: 14 };
    assert_eq!(unclosed.message(), "no '}' closes the '{' at 3:14");
    assert_eq!(unclosed.line(), 3);
    assert_eq!(unclosed.column(), 14);
    let invalid = CompileError::InvalidContent { line: 1, column: 2, found: 'x' };
    assert_eq!(
        invalid.message(),
        "no placeholder is named 'x' at 1:2: expected one of '#', '%', '@', '^'"
    );
    let missing = CompileError::ExpectedClose { line: 10, column: 200, found: 'y' };
    assert_eq!(missing.message(), "expected '}' but found 'y' at 10:200");
}

#[test]
fn parser_reads_characters_and_bytes() {
    let mut parser = Parser::new("é{");
    assert_eq!(parser.current_char(), Some('é'));
    assert_eq!(parser.current_byte(), Some(0xC3));
    assert!(parser.starts_with("é{"));
    assert!(parser.starts_with(""));
    assert!(!parser.starts_with("{"));
    assert!(!parser.starts_with("é{x"));
    parser.advance();
    assert_eq!(parser.current_char(), Some('{'));
    assert_eq!(parser.current_byte(), Some(b'{'));
    parser.advance();
    assert_eq!(parser.current_char(), None);
    assert_eq!(parser.current_byte(), None);
    parser.advance();
    assert_eq!(parser.current_char(), None);
}

#[test]
fn parser_lead_bytes_of_wide_characters() {
    assert_eq!(Parser::new("a").current_byte(), Some(b'a'));
    assert_eq!(Parser::new("ß").current_byte(), Some("ß".as_bytes()[0]));
    assert_eq!(Parser::new("€").current_byte(), Some("€".as_bytes()[0]));
    assert_eq!(Parser::new("😀").current_byte(), Some("😀".as_bytes()[0]));
}

#[test]
fn parser_methods_read_one_unit_each() {
    let mut parser = Parser::new("ab{{c{#}d");
    assert_eq!(parser.parse_string(), literal("ab{c"));
    assert_eq!(parser.current_char(), Some('{'));
    assert_eq!(parser.parse_braces(), Ok(TemplatePart::ChannelNumber));
    assert_eq!(parser.current_char(), Some('d'));
    assert_eq!(parser.parse(), Ok(Template {
        parts: vec![literal("d")],
    }));
}

#[test]
fn parser_reads_placeholder_content() {
    let mut parser = Parser::new("{%}");
    parser.advance();
    assert_eq!(parser.parse_template_content(), Ok(TemplatePart::ChildrenInTotal));
    assert_eq!(parser.current_char(), Some('}'));
    let mut parser = Parser::new("{");
    parser.advance();
    assert_eq!(
        parser.parse_template_content(),
        Err(CompileError::Unclosed { line: 1, column: 1 })
    );
    let mut parser = Parser::new("{?");
    parser.advance();
    assert_eq!(
        parser.parse_template_content(),
        Err(CompileError::InvalidContent { line: 1, column: 2, found: '?' })
    );
}

#[test]
fn parse_keeps_parts_found_before() {
    let mut parser = Parser::new("{#}x");
    let first = parser.parse_braces().unwrap();
    assert_eq!(first, TemplatePart::ChannelNumber);
    assert_eq!(parser.parse(), Ok(Template { parts: vec![literal("x")] }));
}
