use sanatio::decl::{Attr, DeclBody, DiagKind, FieldDecl, Site, StructDecl};
use sanatio::pipeline::convert_results;
use sanatio::schema::parse_decl;
use sanatio::synth::synthesize;
use sanatio::tokens::Tok;

fn id(s: &str) -> Tok {
    Tok::Ident(s.to_string())
}

fn punct(s: &str) -> Tok {
    Tok::Punct(s.to_string(), false)
}

fn validate(args: Vec<Tok>) -> Attr {
    Attr {
        path: "validate".to_string(),
        args: Some(args),
    }
}

fn field(name: &str, ty: Vec<Tok>, attrs: Vec<Attr>) -> FieldDecl {
    FieldDecl {
        name: name.to_string(),
        ty,
        attrs,
    }
}

fn decl(name: &str, attrs: Vec<Attr>, fields: Vec<FieldDecl>) -> StructDecl {
    StructDecl {
        name: name.to_string(),
        attrs,
        body: DeclBody::Named(fields),
    }
}

#[test]
fn plain_validator_defaults_wire_to_target() {
    let d = decl(
        "Data",
        vec![],
        vec![field("lat", vec![id("f32")], vec![validate(vec![id("latitude")])])],
    );
    let spec = parse_decl(&d).unwrap();
    assert_eq!(spec.name, "Data");
    assert_eq!(spec.fields.len(), 1);
    assert_eq!(spec.fields[0].name, "lat");
    assert_eq!(spec.fields[0].validator, vec![id("latitude")]);
    assert_eq!(spec.fields[0].wire, vec![id("f32")]);
    assert_eq!(spec.fields[0].target, vec![id("f32")]);
    assert!(!spec.fields[0].optional_wrap);
    assert!(spec.struct_validator.is_none());
}

#[test]
fn wire_type_override_is_kept() {
    let d = decl(
        "Data",
        vec![],
        vec![field(
            "sex",
            vec![id("i16")],
            vec![validate(vec![id("sex"), punct(","), id("String")])],
        )],
    );
    let spec = parse_decl(&d).unwrap();
    assert_eq!(spec.fields[0].validator, vec![id("sex")]);
    assert_eq!(spec.fields[0].wire, vec![id("String")]);
    assert_eq!(spec.fields[0].target, vec![id("i16")]);
}

#[test]
fn commas_inside_generics_do_not_split() {
    let over = vec![
        id("HashMap"),
        punct("<"),
        id("K"),
        punct(","),
        id("V"),
        punct(">"),
    ];
    let mut args = vec![id("check"), punct(",")];
    args.extend(over.iter().cloned());
    let d = decl("Data", vec![], vec![field("m", vec![id("M")], vec![validate(args)])]);
    let spec = parse_decl(&d).unwrap();
    assert_eq!(spec.fields[0].wire, over);
}

#[test]
fn arrow_in_wire_type_does_not_split() {
    let over = vec![
        id("fn"),
        punct("("),
        punct(")"),
        Tok::Punct("-".to_string(), true),
        punct(">"),
        punct("("),
        id("A"),
        punct(","),
        id("B"),
        punct(")"),
    ];
    let mut args = vec![id("check"), punct(",")];
    args.extend(over.iter().cloned());
    let d = decl("Data", vec![], vec![field("m", vec![id("M")], vec![validate(args)])]);
    let spec = parse_decl(&d).unwrap();
    assert_eq!(spec.fields[0].wire, over);
}

#[test]
fn optional_marker_unwraps_validator() {
    let d = decl(
        "Data",
        vec![],
        vec![field(
            "link",
            vec![id("Option"), punct("<"), id("Url"), punct(">")],
            vec![validate(vec![id("opt"), punct("("), id("secure_url"), punct(")")])],
        )],
    );
    let spec = parse_decl(&d).unwrap();
    assert!(spec.fields[0].optional_wrap);
    assert_eq!(spec.fields[0].validator, vec![id("secure_url")]);
    assert_eq!(
        spec.fields[0].wire,
        vec![id("Option"), punct("<"), id("Url"), punct(">")]
    );
}

#[test]
fn optional_marker_wraps_wire_override() {
    let d = decl(
        "Data",
        vec![],
        vec![field(
            "link",
            vec![id("Option"), punct("<"), id("Url"), punct(">")],
            vec![validate(vec![
                id("opt"),
                punct("("),
                id("secure_url"),
                punct(")"),
                punct(","),
                id("String"),
            ])],
        )],
    );
    let spec = parse_decl(&d).unwrap();
    assert!(spec.fields[0].optional_wrap);
    assert_eq!(
        spec.fields[0].wire,
        vec![id("Option"), punct("<"), id("String"), punct(">")]
    );
}

#[test]
fn missing_validation_is_fatal_at_the_field() {
    let d = decl("Data", vec![], vec![field("a", vec![id("u8")], vec![])]);
    let diag = parse_decl(&d).unwrap_err();
    assert_eq!(diag.kind, DiagKind::MissingValidation);
    assert_eq!(diag.site, Site::Field(0));
}

#[test]
fn duplicate_validation_points_at_last_duplicate() {
    let d = decl(
        "Data",
        vec![],
        vec![field(
            "a",
            vec![id("u8")],
            vec![
                validate(vec![id("pass")]),
                validate(vec![id("pass")]),
                validate(vec![id("pass")]),
            ],
        )],
    );
    let diag = parse_decl(&d).unwrap_err();
    assert_eq!(diag.kind, DiagKind::DuplicateValidation);
    assert_eq!(diag.site, Site::FieldAttr(0, 2));
}

#[test]
fn too_many_arguments_is_fatal() {
    let d = decl(
        "Data",
        vec![],
        vec![field(
            "a",
            vec![id("u8")],
            vec![validate(vec![id("v"), punct(","), id("T"), punct(","), id("X")])],
        )],
    );
    let diag = parse_decl(&d).unwrap_err();
    assert_eq!(diag.kind, DiagKind::TooManyArguments);
}

#[test]
fn empty_argument_list_misses_the_validator() {
    let d = decl("Data", vec![], vec![field("a", vec![id("u8")], vec![validate(vec![])])]);
    let diag = parse_decl(&d).unwrap_err();
    assert_eq!(diag.kind, DiagKind::MissingValidator);
    assert_eq!(diag.site, Site::FieldAttr(0, 0));
}

#[test]
fn annotation_without_arguments_is_fatal() {
    let bare = Attr {
        path: "validate".to_string(),
        args: None,
    };
    let d = decl("Data", vec![], vec![field("a", vec![id("u8")], vec![bare])]);
    let diag = parse_decl(&d).unwrap_err();
    assert_eq!(diag.kind, DiagKind::MissingArguments);
    assert_eq!(diag.message(), "missing validation arguments");
}

#[test]
fn trailing_empty_argument_is_malformed() {
    let d = decl(
        "Data",
        vec![],
        vec![field("a", vec![id("u8")], vec![validate(vec![id("v"), punct(",")])])],
    );
    let diag = parse_decl(&d).unwrap_err();
    assert_eq!(diag.kind, DiagKind::MalformedArguments);
}

#[test]
fn optional_marker_needs_an_inner_validator() {
    let d = decl(
        "Data",
        vec![],
        vec![field(
            "a",
            vec![id("u8")],
            vec![validate(vec![id("opt"), punct("("), punct(")")])],
        )],
    );
    let diag = parse_decl(&d).unwrap_err();
    assert_eq!(diag.kind, DiagKind::MissingValidator);
}

#[test]
fn shape_mismatch_is_fatal() {
    let d = StructDecl {
        name: "Data".to_string(),
        attrs: vec![],
        body: DeclBody::Other,
    };
    let diag = parse_decl(&d).unwrap_err();
    assert_eq!(diag.kind, DiagKind::ShapeMismatch);
    assert_eq!(diag.site, Site::StructName);
}

#[test]
fn duplicate_struct_validation_points_at_last() {
    let d = decl(
        "Data",
        vec![validate(vec![id("check")]), validate(vec![id("check")])],
        vec![field("a", vec![id("u8")], vec![validate(vec![id("pass")])])],
    );
    let diag = parse_decl(&d).unwrap_err();
    assert_eq!(diag.kind, DiagKind::DuplicateStructValidation);
    assert_eq!(diag.site, Site::StructAttr(1));
}

#[test]
fn passthrough_metadata_reaches_the_raw_record() {
    let d = decl(
        "Data",
        vec![],
        vec![field(
            "a",
            vec![id("u8")],
            vec![
                Attr {
                    path: "serde".to_string(),
                    args: Some(vec![id("default")]),
                },
                validate(vec![id("pass")]),
            ],
        )],
    );
    let spec = parse_decl(&d).unwrap();
    assert_eq!(spec.fields[0].passthrough.len(), 1);
    let text = synthesize(&spec);
    assert!(text.contains("#[serde(default )]"));
}

#[test]
fn synthesized_text_runs_validators_in_declaration_order() {
    let d = decl(
        "Data",
        vec![validate(vec![id("cross_check")])],
        vec![
            field("lat", vec![id("f32")], vec![validate(vec![id("latitude")])]),
            field(
                "link",
                vec![id("Option"), punct("<"), id("Url"), punct(">")],
                vec![validate(vec![id("opt"), punct("("), id("secure_url"), punct(")")])],
            ),
        ],
    );
    let spec = parse_decl(&d).unwrap();
    let text = synthesize(&spec);
    assert!(text.contains("impl<'de> serde::Deserialize<'de> for Data {"));
    assert!(text.contains("struct RawRecord {"));
    assert!(text.contains("lat: (latitude )(raw.lat)?,"));
    assert!(text.contains("link: (sanatio::opt(secure_url ))(raw.link)?,"));
    let lat_at = text.find("(latitude )(raw.lat)").unwrap();
    let link_at = text.find("(sanatio::opt(secure_url ))(raw.link)").unwrap();
    assert!(lat_at < link_at);
    assert!(text.contains("let value = (cross_check )(value)?;"));
    let fields_done = text.find("};").unwrap();
    let cross_at = text.find("(cross_check )(value)").unwrap();
    assert!(fields_done < cross_at);
}

#[test]
fn conversion_reports_the_earliest_error() {
    let rs: Vec<Result<i32, String>> =
        vec![Ok(1), Err("first bad".to_string()), Err("second bad".to_string())];
    assert_eq!(convert_results(rs), Err("first bad".to_string()));
}

#[test]
fn conversion_composes_successes_in_order() {
    let rs: Vec<Result<i32, String>> = vec![Ok(1), Ok(2), Ok(3)];
    assert_eq!(convert_results(rs), Ok(vec![1, 2, 3]));
}
