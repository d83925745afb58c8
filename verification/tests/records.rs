use macrotk::assemble::{assemble, find_field, read_value, resolve, FieldSpec, FieldType, Value};
use macrotk::cursor::{Cursor, Path};
use macrotk::derive::{
    check_flags, derive_from_meta, duplicate_key, parse_paths, read_attribute, unexpected_key,
    AttrArgs, Attribute, Data, DeriveInput, Derived, Field, Fields, NamedField,
};
use macrotk::stream::{MetaStream, Name};
use macrotk::token::{Delim, Diagnostic, Span, Token};

fn sp(i: usize) -> Span {
    Span::new(i, i + 1)
}

fn field(name: &str, ty: FieldType, use_default: bool) -> FieldSpec {
    FieldSpec { name: String::from(name), ty, use_default }
}

fn run(tokens: &Vec<Token>, schema: &Vec<FieldSpec>) -> Result<Vec<Value>, Diagnostic> {
    let mut stream = MetaStream::new(Cursor::new(tokens, sp(99)));
    assemble(&mut stream, schema)
}

fn pair(name: &str, lit: &str, at: usize) -> Vec<Token> {
    vec![
        Token::ident(name, sp(at)),
        Token::punct('=', sp(at + 1)),
        Token::literal(lit, sp(at + 2)),
    ]
}

fn attr(name: &str, tokens: Vec<Token>, span: Span) -> Attribute {
    shaped(name, AttrArgs::Group { tokens, trailing: None }, span)
}

fn shaped(name: &str, args: AttrArgs, span: Span) -> Attribute {
    Attribute { path: Path { segments: vec![String::from(name)], span }, args, span }
}

#[test]
fn required_string_field() {
    let schema = vec![field("keyword", FieldType::Str, false)];
    let tokens = pair("keyword", "\"hi\"", 0);
    assert_eq!(run(&tokens, &schema), Ok(vec![Value::Str(String::from("hi"))]));
}

#[test]
fn defaulted_flag_on_empty_body() {
    let schema = vec![field("flag", FieldType::Bool, true)];
    let tokens: Vec<Token> = Vec::new();
    assert_eq!(run(&tokens, &schema), Ok(vec![Value::Bool(false)]));
}

#[test]
fn defaults_of_every_type() {
    let inner = vec![field("n", FieldType::Int, false), field("s", FieldType::Str, false)];
    let schema = vec![
        field("s", FieldType::Str, true),
        field("n", FieldType::Int, true),
        field("r", FieldType::Record(inner), true),
    ];
    let tokens: Vec<Token> = Vec::new();
    let want = vec![
        Value::Str(String::new()),
        Value::Int(0),
        Value::Record(vec![Value::Int(0), Value::Str(String::new())]),
    ];
    assert_eq!(run(&tokens, &schema), Ok(want));
    assert_eq!(FieldType::Bool.default_of(), Value::Bool(false));
}

#[test]
fn missing_required_field_is_named() {
    let schema = vec![
        field("a", FieldType::Int, true),
        field("keyword", FieldType::Str, false),
        field("z", FieldType::Str, false),
    ];
    let tokens: Vec<Token> = Vec::new();
    assert_eq!(run(&tokens, &schema), Err(Diagnostic::new(sp(99), "missing value for keyword")));
}

#[test]
fn duplicate_name_is_an_error_at_the_second() {
    let schema = vec![field("keyword", FieldType::Str, false)];
    let mut tokens = pair("keyword", "\"hi\"", 0);
    tokens.push(Token::punct(',', sp(3)));
    tokens.extend(pair("keyword", "\"bye\"", 4));
    assert_eq!(run(&tokens, &schema), Err(Diagnostic::new(sp(4), "duplicate key")));
}

#[test]
fn unknown_key_is_an_error_at_the_name() {
    let schema = vec![field("keyword", FieldType::Str, true)];
    let tokens = pair("unknownkey", "1", 0);
    assert_eq!(run(&tokens, &schema), Err(Diagnostic::new(sp(0), "unexpected key")));
}

#[test]
fn nested_record_is_assembled() {
    let inner = vec![field("keyword", FieldType::Str, false)];
    let schema = vec![field("inner", FieldType::Record(inner), false), field("n", FieldType::Int, true)];
    let mut tokens = vec![
        Token::ident("inner", sp(0)),
        Token::punct('=', sp(1)),
        Token::open(Delim::Brace, sp(2)),
    ];
    tokens.extend(pair("keyword", "\"x\"", 3));
    tokens.push(Token::close(Delim::Brace, sp(6)));
    tokens.push(Token::punct(',', sp(7)));
    tokens.extend(pair("n", "5", 8));
    let want = vec![Value::Record(vec![Value::Str(String::from("x"))]), Value::Int(5)];
    assert_eq!(run(&tokens, &schema), Ok(want));
}

#[test]
fn nested_record_reports_its_own_errors() {
    let inner = vec![field("keyword", FieldType::Str, false)];
    let schema = vec![field("inner", FieldType::Record(inner), false)];
    let tokens = vec![
        Token::ident("inner", sp(0)),
        Token::punct('=', sp(1)),
        Token::open(Delim::Brace, sp(2)),
        Token::close(Delim::Brace, sp(3)),
    ];
    assert_eq!(run(&tokens, &schema), Err(Diagnostic::new(sp(99), "missing value for keyword")));
    let unclosed = vec![
        Token::ident("inner", sp(0)),
        Token::punct('=', sp(1)),
        Token::open(Delim::Brace, sp(2)),
        Token::ident("keyword", sp(3)),
        Token::punct('=', sp(4)),
        Token::literal("\"x\"", sp(5)),
        Token::close(Delim::Paren, sp(6)),
    ];
    assert_eq!(run(&unclosed, &schema), Err(Diagnostic::new(sp(6), "expected `}`")));
    let flat = pair("inner", "1", 0);
    assert_eq!(run(&flat, &schema), Err(Diagnostic::new(sp(2), "expected `{`")));
}

#[test]
fn malformed_integer_is_a_diagnostic() {
    let schema = vec![field("count", FieldType::Int, false)];
    let tokens = pair("count", "\"notanumber\"", 0);
    assert_eq!(run(&tokens, &schema), Err(Diagnostic::new(sp(2), "expected integer literal")));
}

#[test]
fn fields_come_in_declared_order() {
    let schema = vec![
        field("a", FieldType::Int, false),
        field("b", FieldType::Bool, false),
        field("c", FieldType::Str, false),
    ];
    let mut tokens = pair("c", "\"z\"", 0);
    tokens.push(Token::punct(',', sp(3)));
    tokens.extend(vec![
        Token::ident("b", sp(4)),
        Token::punct('=', sp(5)),
        Token::ident("true", sp(6)),
        Token::punct(',', sp(7)),
    ]);
    tokens.extend(pair("a", "1", 8));
    tokens.push(Token::punct(',', sp(11)));
    let want = vec![Value::Int(1), Value::Bool(true), Value::Str(String::from("z"))];
    assert_eq!(run(&tokens, &schema), Ok(want));
}

#[test]
fn missing_comma_between_fields() {
    let schema = vec![field("a", FieldType::Int, false), field("b", FieldType::Int, false)];
    let mut tokens = pair("a", "1", 0);
    tokens.extend(pair("b", "2", 3));
    assert_eq!(run(&tokens, &schema), Err(Diagnostic::new(sp(3), "expected `,`")));
}

#[test]
fn pieces_of_the_assembler() {
    let schema = vec![field("a", FieldType::Int, false), field("a", FieldType::Str, false)];
    assert_eq!(find_field(&schema, &Name::from_text("a", sp(0))), Some(0));
    assert_eq!(find_field(&schema, &Name::from_text("b", sp(0))), None);
    let slots = vec![Some(Value::Int(3)), None];
    assert_eq!(resolve(&schema, &slots, sp(9)), Err(Diagnostic::new(sp(9), "missing value for a")));
    let full = vec![Some(Value::Int(3)), Some(Value::Str(String::from("s")))];
    assert_eq!(
        resolve(&schema, &full, sp(9)),
        Ok(vec![Value::Int(3), Value::Str(String::from("s"))])
    );
    let tokens = vec![Token::ident("true", sp(0))];
    let mut cur = Cursor::new(&tokens, sp(99));
    assert_eq!(read_value(&mut cur, &FieldType::Bool), Ok(Value::Bool(true)));
    assert_eq!(cur.pos, 1);
    assert_eq!(Value::Int(3).clone(), Value::Int(3));
}

#[test]
fn default_attribute_sets_the_policy() {
    let plain = Field { ident: String::from("keyword"), attrs: Vec::new() };
    assert_eq!(
        NamedField::new(&plain),
        Ok(NamedField { use_default: false, ident: String::from("keyword") })
    );
    let flagged = Field {
        ident: String::from("flag"),
        attrs: vec![
            attr("doc", vec![Token::literal("\"x\"", sp(0))], sp(10)),
            attr("macrotk", vec![Token::ident("default", sp(0)), Token::punct(',', sp(1))], sp(11)),
        ],
    };
    assert_eq!(
        NamedField::new(&flagged),
        Ok(NamedField { use_default: true, ident: String::from("flag") })
    );
}

#[test]
fn unknown_flag_is_an_error() {
    let bad = Field {
        ident: String::from("flag"),
        attrs: vec![attr("macrotk", vec![Token::ident("defualt", sp(3))], sp(11))],
    };
    assert_eq!(NamedField::new(&bad), Err(Diagnostic::new(sp(3), "unexpected: defualt")));
    let long = Field {
        ident: String::from("flag"),
        attrs: vec![attr(
            "macrotk",
            vec![
                Token::ident("default", sp(0)),
                Token::punct(',', sp(1)),
                Token::ident("a", sp(2)),
                Token::path_sep(sp(3)),
                Token::ident("b", sp(4)),
            ],
            sp(11),
        )],
    };
    assert_eq!(NamedField::new(&long), Err(Diagnostic::new(Span::new(2, 5), "unexpected: a :: b")));
    let syntax = Field {
        ident: String::from("flag"),
        attrs: vec![attr(
            "macrotk",
            vec![Token::ident("nope", sp(0)), Token::literal("1", sp(1))],
            sp(11),
        )],
    };
    assert_eq!(NamedField::new(&syntax), Err(Diagnostic::new(sp(1), "expected `,`")));
}

#[test]
fn flags_are_paths_in_a_list() {
    let tokens = vec![
        Token::ident("default", sp(0)),
        Token::punct(',', sp(1)),
        Token::ident("default", sp(2)),
    ];
    let mut cur = Cursor::new(&tokens, sp(99));
    let paths = parse_paths(&mut cur).unwrap();
    assert_eq!(paths.len(), 2);
    assert_eq!(check_flags(&paths), Ok(true));
    assert_eq!(check_flags(&Vec::new()), Ok(false));
    let bad = vec![Token::literal("1", sp(0))];
    let mut cur = Cursor::new(&bad, sp(99));
    assert_eq!(parse_paths(&mut cur), Err(Diagnostic::new(sp(0), "expected identifier")));
}

#[test]
fn only_structs_with_named_fields_derive() {
    let e = DeriveInput { ident: String::from("E"), data: Data::Enum(sp(1)) };
    assert_eq!(derive_from_meta(&e), Err(Diagnostic::new(sp(1), "only structs are supported")));
    let u = DeriveInput { ident: String::from("U"), data: Data::Union(sp(2)) };
    assert_eq!(derive_from_meta(&u), Err(Diagnostic::new(sp(2), "only structs are supported")));
    let t = DeriveInput { ident: String::from("T"), data: Data::Struct(Fields::Unnamed(sp(3))) };
    assert_eq!(
        derive_from_meta(&t),
        Err(Diagnostic::new(sp(3), "struct can only have named fields"))
    );
    let n = DeriveInput { ident: String::from("N"), data: Data::Struct(Fields::Unit(sp(4))) };
    assert_eq!(
        derive_from_meta(&n),
        Err(Diagnostic::new(sp(4), "struct can only have named fields"))
    );
}

#[test]
fn from_meta_derive() {
    let input = DeriveInput {
        ident: String::from("Args"),
        data: Data::Struct(Fields::Named(vec![
            Field { ident: String::from("keyword"), attrs: Vec::new() },
            Field {
                ident: String::from("flag"),
                attrs: vec![attr("macrotk", vec![Token::ident("default", sp(0))], sp(11))],
            },
        ])),
    };
    let derived = derive_from_meta(&input).unwrap();
    let want = Derived {
        record_name: String::from("Args"),
        fields: vec![
            NamedField { use_default: false, ident: String::from("keyword") },
            NamedField { use_default: true, ident: String::from("flag") },
        ],
    };
    assert_eq!(derived, want);

    let types = vec![FieldType::Str, FieldType::Bool];
    let schema: Vec<FieldSpec> = derived
        .fields
        .into_iter()
        .zip(types)
        .map(|(f, ty)| FieldSpec { name: f.ident, ty, use_default: f.use_default })
        .collect();
    let tokens = pair("keyword", "\"hi\"", 0);
    assert_eq!(run(&tokens, &schema), Ok(vec![Value::Str(String::from("hi")), Value::Bool(false)]));
    let none: Vec<Token> = Vec::new();
    assert_eq!(run(&none, &schema), Err(Diagnostic::new(sp(99), "missing value for keyword")));
}

#[test]
fn first_field_in_error_decides() {
    let input = DeriveInput {
        ident: String::from("Args"),
        data: Data::Struct(Fields::Named(vec![
            Field {
                ident: String::from("a"),
                attrs: vec![attr("macrotk", vec![Token::ident("x", sp(0))], sp(11))],
            },
            Field {
                ident: String::from("b"),
                attrs: vec![attr("macrotk", vec![Token::ident("y", sp(1))], sp(12))],
            },
        ])),
    };
    assert_eq!(derive_from_meta(&input), Err(Diagnostic::new(sp(0), "unexpected: x")));
}

#[test]
fn arguments_must_be_one_group() {
    let bare = shaped("macrotk", AttrArgs::Missing, sp(11));
    assert_eq!(
        read_attribute(&bare),
        Err(Diagnostic::new(
            sp(11),
            "expected attribute arguments in parentheses: #[macrotk(...)]"
        ))
    );
    let equals = shaped("macrotk", AttrArgs::Equals(sp(3)), sp(11));
    assert_eq!(
        read_attribute(&equals),
        Err(Diagnostic::new(sp(3), "expected parentheses: #[macrotk(...)]"))
    );
    let other = shaped("macrotk", AttrArgs::Other(sp(4)), sp(11));
    assert_eq!(
        read_attribute(&other),
        Err(Diagnostic::new(sp(4), "unexpected token in attribute arguments"))
    );
    let trailing = shaped(
        "macrotk",
        AttrArgs::Group { tokens: vec![Token::ident("default", sp(0))], trailing: Some(sp(5)) },
        sp(11),
    );
    assert_eq!(
        read_attribute(&trailing),
        Err(Diagnostic::new(sp(5), "unexpected token in attribute arguments"))
    );
    let empty = attr("macrotk", Vec::new(), sp(11));
    assert_eq!(read_attribute(&empty), Ok(false));
    let stray = attr(
        "macrotk",
        vec![Token::ident("default", sp(0)), Token::close(Delim::Paren, sp(1))],
        sp(11),
    );
    assert_eq!(read_attribute(&stray), Err(Diagnostic::new(sp(1), "unexpected token")));
    let field = Field { ident: String::from("flag"), attrs: vec![bare] };
    assert_eq!(
        NamedField::new(&field),
        Err(Diagnostic::new(
            sp(11),
            "expected attribute arguments in parentheses: #[macrotk(...)]"
        ))
    );
    let unrelated = Field {
        ident: String::from("flag"),
        attrs: vec![shaped("doc", AttrArgs::Equals(sp(3)), sp(11))],
    };
    assert_eq!(
        NamedField::new(&unrelated),
        Ok(NamedField { use_default: false, ident: String::from("flag") })
    );
}

#[test]
fn key_errors_stand_at_the_name() {
    let name = Name::from_text("k", sp(6));
    assert_eq!(unexpected_key(&name), Diagnostic::new(sp(6), "unexpected key"));
    assert_eq!(duplicate_key(&name), Diagnostic::new(sp(6), "duplicate key"));
}

#[test]
fn number_that_does_not_fit_is_an_error_at_the_literal() {
    let schema = vec![field("count", FieldType::Int, false)];
    let tokens = pair("count", "9223372036854775808", 0);
    assert_eq!(
        run(&tokens, &schema),
        Err(Diagnostic::new(sp(2), "number too large to fit in target type"))
    );
}
