use glare::parser::{Literal, Parser, SimpleType, Variable};
use glare::tokenizer::{Tokenizer, TokenizerSpec, TokenizerSpecType};

#[test]
fn tab_ok() {
    // 3 tabs
    let mut tokenizer = Tokenizer::new("            ");
    let mut parser = Parser::new(&mut tokenizer);

    assert!(match parser.parse_identation() {
        Ok(result) => result.count == 3,
        Err(_) => false,
    });
}

#[test]
fn tab_err() {
    let mut tokenizer = Tokenizer::new("Number");
    let mut parser = Parser::new(&mut tokenizer);

    assert!(parser.parse_identation().is_err())
}

#[test]
fn string_literal_ok() {
    let mut tokenizer = Tokenizer::new("`Literal string`");
    let mut parser = Parser::new(&mut tokenizer);

    assert!(match parser.parse_literal() {
        Ok(value) => match value {
            Literal::StringLiteral(value) => value == "Literal string",
            Literal::NumberLiteral(_) => false,
        },
        _ => false,
    })
}

#[test]
fn number_literal_ok() {
    let mut tokenizer = Tokenizer::new("42");
    let mut parser = Parser::new(&mut tokenizer);

    assert!(match parser.parse_literal() {
        Ok(value) => match value {
            Literal::StringLiteral(_) => false,
            Literal::NumberLiteral(value) => value == 42,
        },
        _ => false,
    })
}

#[test]
fn literal_err() {
    let mut tokenizer = Tokenizer::new("# Comment");
    let mut parser = Parser::new(&mut tokenizer);

    assert!(parser.parse_literal().is_err())
}

#[test]
fn declaration_ok() {
    let declaration = "test = 42";
    let mut tokenizer = Tokenizer::new(declaration);
    let mut parser = Parser::new(&mut tokenizer);

    assert!(match parser.parse_declaration() {
        Ok(declaration) => match (
            declaration.variable,
            declaration.union_type,
            declaration.literal
        ) {
            (Variable { name }, None, Literal::NumberLiteral(literal)) =>
                name == "test" && literal == 42,
            _ => false,
        },
        Err(_) => false,
    })
}

#[test]
fn declaration_type_ok() {
    let declaration = "test: String | str = `Testing declaration`";
    let mut tokenizer = Tokenizer::new(declaration);
    let mut parser = Parser::new(&mut tokenizer);

    assert!(match parser.parse_declaration() {
        Ok(declaration) => match (
            declaration.variable,
            declaration.union_type,
            declaration.literal
        ) {
            (Variable { name }, Some(union_type), Literal::StringLiteral(literal)) =>
                name == "test"
                    && union_type.has_type(SimpleType::String)
                    && union_type.has_type(SimpleType::Str)
                    && literal == "Testing declaration",
            _ => false,
        },
        Err(_) => false,
    })
}

#[test]
fn declaration_err() {
    let mut tokenizer = Tokenizer::new("1234abcd");
    let mut parser = Parser::new(&mut tokenizer);

    assert!(parser.parse_variable().is_err())
}

#[test]
fn variable_ok() {
    let variable_name = "abcd1234";
    let mut tokenizer = Tokenizer::new(variable_name);
    let mut parser = Parser::new(&mut tokenizer);

    assert!(match parser.parse_variable() {
        Ok(variable) => variable.name == variable_name,
        Err(_) => false,
    })
}

#[test]
fn variabe_err() {
    let mut tokenizer = Tokenizer::new("1234abcd");
    let mut parser = Parser::new(&mut tokenizer);

    assert!(parser.parse_variable().is_err())
}

#[test]
fn pipe_ok() {
    let mut tokenizer = Tokenizer::new("|");
    let mut parser = Parser::new(&mut tokenizer);

    assert!(parser.parse_pipe().is_ok())
}

#[test]
fn pipe_pipe_err() {
    let mut tokenizer = Tokenizer::new("# Comment");
    let mut parser = Parser::new(&mut tokenizer);

    assert!(parser.parse_pipe().is_err())
}

#[test]
fn union_type_ok() {
    let mut tokenizer = Tokenizer::new("String | str | Number");
    let mut parser = Parser::new(&mut tokenizer);
    let parsed = parser.parse_union_type();

    assert!(match parsed {
        Ok(parsed) =>
            parsed.has_type(SimpleType::String)
                && parsed.has_type(SimpleType::Str)
                && parsed.has_type(SimpleType::Number),
        Err(_) => false,
    })
}

#[test]
fn union_types_pipe_err() {
    let mut tokenizer = Tokenizer::new("String | str | ");
    let mut parser = Parser::new(&mut tokenizer);

    assert!(parser.parse_union_type().is_err())
}

fn message<T>(result: Result<T, String>) -> String {
    match result {
        Ok(_) => panic!("the rule succeeded"),
        Err(message) => message,
    }
}

#[test]
fn union_type_keeps_the_order_of_the_source() {
    let mut tokenizer = Tokenizer::new("String | str | Number");
    let mut parser = Parser::new(&mut tokenizer);
    let parsed = parser.parse_union_type().unwrap();
    assert_eq!(
        parsed.types,
        vec![SimpleType::String, SimpleType::Str, SimpleType::Number]
    );
    assert!(!parsed.has_type(SimpleType::List));
    assert!(!parsed.has_type(SimpleType::NoneType));
}

#[test]
fn union_type_keeps_duplicates() {
    let mut tokenizer = Tokenizer::new("str|str | () | None|str");
    let mut parser = Parser::new(&mut tokenizer);
    let parsed = parser.parse_union_type().unwrap();
    assert_eq!(
        parsed.types,
        vec![
            SimpleType::Str,
            SimpleType::Str,
            SimpleType::Empty,
            SimpleType::NoneType,
            SimpleType::Str
        ]
    );
}

#[test]
fn union_type_of_one_type() {
    let mut tokenizer = Tokenizer::new("Never");
    let mut parser = Parser::new(&mut tokenizer);
    assert_eq!(parser.parse_union_type().unwrap().types, vec![SimpleType::Never]);
}

#[test]
fn union_type_leaves_what_follows_in_place() {
    let mut tokenizer = Tokenizer::new("List 42");
    let mut parser = Parser::new(&mut tokenizer);
    assert_eq!(parser.parse_union_type().unwrap().types, vec![SimpleType::List]);
    assert!(matches!(
        parser.parse_literal(),
        Ok(Literal::NumberLiteral(42))
    ));
}

#[test]
fn union_type_with_trailing_pipe_names_what_is_missing() {
    let mut tokenizer = Tokenizer::new("String | str | ");
    let mut parser = Parser::new(&mut tokenizer);
    assert_eq!(
        message(parser.parse_union_type()),
        "Expected valid simple type (got EOF)"
    );
}

#[test]
fn simple_type_of_each_name() {
    for (name, simple_type) in [
        ("Number", SimpleType::Number),
        ("str", SimpleType::Str),
        ("String", SimpleType::String),
        ("None", SimpleType::NoneType),
        ("()", SimpleType::Empty),
        ("Never", SimpleType::Never),
        ("List", SimpleType::List),
    ] {
        assert_eq!(SimpleType::try_from(name.to_string()), Ok(simple_type));
        let mut tokenizer = Tokenizer::new(name);
        let mut parser = Parser::new(&mut tokenizer);
        assert_eq!(parser.parse_simple_type(), Ok(simple_type));
    }
}

#[test]
fn type_name_that_names_no_type() {
    assert_eq!(
        SimpleType::try_from("Array".to_string()),
        Err("The type Array is not valid".to_string())
    );
    assert_eq!(
        SimpleType::try_from("number".to_string()),
        Err("The type number is not valid".to_string())
    );
    let mut tokenizer = Tokenizer::new("Array");
    let mut parser = Parser::new(&mut tokenizer);
    assert_eq!(
        message(parser.parse_simple_type()),
        "The type Array is not valid"
    );
}

#[test]
fn simple_type_messages() {
    let mut tokenizer = Tokenizer::new("x");
    let mut parser = Parser::new(&mut tokenizer);
    assert_eq!(
        message(parser.parse_simple_type()),
        "Expected valid simple type (got variable 'x')"
    );
    let mut tokenizer = Tokenizer::new("");
    let mut parser = Parser::new(&mut tokenizer);
    assert_eq!(
        message(parser.parse_simple_type()),
        "Expected valid simple type (got EOF)"
    );
}

#[test]
fn literal_messages() {
    let mut tokenizer = Tokenizer::new("|");
    let mut parser = Parser::new(&mut tokenizer);
    assert_eq!(
        message(parser.parse_literal()),
        "Expected valid literal value (got pipe)"
    );
    let mut tokenizer = Tokenizer::new("  ");
    let mut parser = Parser::new(&mut tokenizer);
    assert_eq!(
        message(parser.parse_literal()),
        "Expected valid literal value (got EOF)"
    );
    let mut tokenizer = Tokenizer::new("99999999999999999999");
    let mut parser = Parser::new(&mut tokenizer);
    assert_eq!(
        message(parser.parse_literal()),
        "99999999999999999999 is too large for type 'Number'"
    );
}

#[test]
fn pipe_messages() {
    let mut tokenizer = Tokenizer::new("42");
    let mut parser = Parser::new(&mut tokenizer);
    assert_eq!(message(parser.parse_pipe()), "Expected pipe (got number '42')");
    let mut tokenizer = Tokenizer::new("");
    let mut parser = Parser::new(&mut tokenizer);
    assert_eq!(message(parser.parse_pipe()), "Expected pipe (got EOF)");
}

#[test]
fn identation_counts_tabs_and_runs_of_four_blanks() {
    let mut tokenizer = Tokenizer::new("\t\t\t");
    let mut parser = Parser::new(&mut tokenizer);
    assert_eq!(parser.parse_identation().unwrap().count, 3);

    let mut tokenizer = Tokenizer::new("\t");
    let mut parser = Parser::new(&mut tokenizer);
    assert_eq!(parser.parse_identation().unwrap().count, 1);

    let mut tokenizer = Tokenizer::new("\t    \tx = 1");
    let mut parser = Parser::new(&mut tokenizer);
    assert_eq!(parser.parse_identation().unwrap().count, 3);
    assert_eq!(parser.parse_variable().unwrap().name, "x");
}

#[test]
fn identation_messages() {
    let mut tokenizer = Tokenizer::new("Number");
    let mut parser = Parser::new(&mut tokenizer);
    assert_eq!(
        message(parser.parse_identation()),
        "Expected identation (got type 'Number')"
    );
    let mut tokenizer = Tokenizer::new("");
    let mut parser = Parser::new(&mut tokenizer);
    assert_eq!(
        message(parser.parse_identation()),
        "Expected identation (got EOF)"
    );
}

#[test]
fn variable_messages() {
    let mut tokenizer = Tokenizer::new("1234abcd");
    let mut parser = Parser::new(&mut tokenizer);
    assert_eq!(
        message(parser.parse_variable()),
        "Expected variable (got number '1234')"
    );
    let mut tokenizer = Tokenizer::new("# nothing");
    let mut parser = Parser::new(&mut tokenizer);
    assert_eq!(message(parser.parse_variable()), "Expected variable (got EOF)");
}

#[test]
fn declaration_with_annotation_keeps_the_types_in_order() {
    let mut tokenizer = Tokenizer::new("test: String | str = `Testing declaration`");
    let mut parser = Parser::new(&mut tokenizer);
    let declaration = parser.parse_declaration().unwrap();
    assert_eq!(declaration.variable.name, "test");
    assert_eq!(
        declaration.union_type.unwrap().types,
        vec![SimpleType::String, SimpleType::Str]
    );
    assert!(matches!(
        declaration.literal,
        Literal::StringLiteral(text) if text == "Testing declaration"
    ));
}

#[test]
fn declaration_messages() {
    for (source, expected) in [
        ("test 42", "Expected colon or equal (got number '42')"),
        ("test", "Expected colon or equal (got EOF)"),
        ("test | 1", "Expected colon or equal (got pipe)"),
        ("test: String 42", "Expected equal (got number '42')"),
        ("test: String", "Expected equal (got EOF)"),
        ("test: String | = 1", "Expected valid simple type (got equal)"),
        ("test: = 1", "Expected valid simple type (got equal)"),
        ("test: Array = 1", "The type Array is not valid"),
        ("test = ", "Expected valid literal value (got EOF)"),
        ("test = other", "Expected valid literal value (got variable 'other')"),
        ("test: str = :", "Expected valid literal value (got colon)"),
        (
            "test = 99999999999999999999",
            "99999999999999999999 is too large for type 'Number'",
        ),
        ("42 = 1", "Expected variable (got number '42')"),
        ("", "Expected variable (got EOF)"),
    ] {
        let mut tokenizer = Tokenizer::new(source);
        let mut parser = Parser::new(&mut tokenizer);
        assert_eq!(message(parser.parse_declaration()), expected, "{}", source);
    }
}

#[test]
fn declarations_one_after_another() {
    let mut tokenizer = Tokenizer::new("a = 1 # first\nb: Number = 2\nc = 'three'");
    let mut parser = Parser::new(&mut tokenizer);
    let first = parser.parse_declaration().unwrap();
    let second = parser.parse_declaration().unwrap();
    let third = parser.parse_declaration().unwrap();
    assert_eq!(first.variable.name, "a");
    assert!(first.union_type.is_none());
    assert!(matches!(first.literal, Literal::NumberLiteral(1)));
    assert_eq!(second.variable.name, "b");
    assert_eq!(second.union_type.unwrap().types, vec![SimpleType::Number]);
    assert!(matches!(second.literal, Literal::NumberLiteral(2)));
    assert_eq!(third.variable.name, "c");
    assert!(matches!(third.literal, Literal::StringLiteral(text) if text == "three"));
    assert_eq!(message(parser.parse_declaration()), "Expected variable (got EOF)");
}

fn types_and_blanks(source: &str) -> Tokenizer<'_> {
    Tokenizer::with_specs(
        source,
        vec![
            TokenizerSpec::new(r"^\s+", TokenizerSpecType::Skip),
            TokenizerSpec::new(r"^(?:Number|str)", TokenizerSpecType::SimpleType),
            TokenizerSpec::new(r"^\|", TokenizerSpecType::Pipe),
        ],
    )
}

#[test]
fn lexical_error_is_handed_on_as_its_message() {
    let mut tokenizer = types_and_blanks("$");
    let mut parser = Parser::new(&mut tokenizer);
    assert_eq!(
        message(parser.parse_simple_type()),
        "Unexpected symbol $ (at index 0)"
    );
    let mut tokenizer = types_and_blanks("str | $");
    let mut parser = Parser::new(&mut tokenizer);
    assert_eq!(
        message(parser.parse_union_type()),
        "Unexpected symbol $ (at index 6)"
    );
}

#[test]
fn union_type_ends_before_what_cannot_be_read() {
    let mut tokenizer = types_and_blanks("Number $");
    let mut parser = Parser::new(&mut tokenizer);
    assert_eq!(
        parser.parse_union_type().unwrap().types,
        vec![SimpleType::Number]
    );
    assert_eq!(message(parser.parse_pipe()), "Unexpected symbol $ (at index 7)");
}
