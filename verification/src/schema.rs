//! The resolved validation schema: the specification each field's
//! declaration compiles to, and the parser and resolver that build it.
//!
//! The argument grammar of a field-level declaration is, in order: a
//! validator reference (required, possibly wrapped in the optional-marker
//! call), then an optional wire-type override. Anything further is fatal.

use vstd::prelude::*;

use crate::decl::{first_validate_from, last_validate_from, lemma_first_validate,
    n_validate_from, passthrough_from, Attr, AttrView, DeclBody, DeclBodyView, DiagKind,
    Diagnostic, FieldDecl, FieldDeclView, Site, StructDecl, StructDeclView, collect_passthrough,
    count_validate, find_first_validate, find_last_validate};
use crate::tokens::{comma_at_depth0, comma_scan, extend_toks, subtoks, text_is, Tok, TokView};

verus! {

/// The resolved specification of one field.
#[derive(Debug)]
pub struct FieldSpec {
    /// The field's name.
    pub name: String,
    /// The type the raw record holds before validation.
    pub wire: Vec<Tok>,
    /// The field's declared type in the final structure.
    pub target: Vec<Tok>,
    /// The validator reference, without any optional marker.
    pub validator: Vec<Tok>,
    /// Whether the validator is lifted over an absent value.
    pub optional_wrap: bool,
    /// Metadata copied verbatim onto the raw-record field.
    pub passthrough: Vec<Attr>,
}

pub ghost struct FieldSpecView {
    pub name: Seq<char>,
    pub wire: Seq<TokView>,
    pub target: Seq<TokView>,
    pub validator: Seq<TokView>,
    pub optional_wrap: bool,
    pub passthrough: Seq<AttrView>,
}

impl DeepView for FieldSpec {
    type V = FieldSpecView;

    open spec fn deep_view(&self) -> FieldSpecView {
        FieldSpecView {
            name: self.name@,
            wire: self.wire.deep_view(),
            target: self.target.deep_view(),
            validator: self.validator.deep_view(),
            optional_wrap: self.optional_wrap,
            passthrough: self.passthrough.deep_view(),
        }
    }
}

/// The resolved specification of a whole structure.
#[derive(Debug)]
pub struct StructSpec {
    pub name: String,
    /// One entry per declared field, in declaration order.
    pub fields: Vec<FieldSpec>,
    /// The structure-level validator, when one is declared.
    pub struct_validator: Option<Vec<Tok>>,
}

pub ghost struct StructSpecView {
    pub name: Seq<char>,
    pub fields: Seq<FieldSpecView>,
    pub struct_validator: Option<Seq<TokView>>,
}

impl DeepView for StructSpec {
    type V = StructSpecView;

    open spec fn deep_view(&self) -> StructSpecView {
        StructSpecView {
            name: self.name@,
            fields: self.fields.deep_view(),
            struct_validator: self.struct_validator.deep_view(),
        }
    }
}

/// What one argument list resolves to.
pub ghost struct ArgShapeView {
    pub validator: Seq<TokView>,
    pub wire: Seq<TokView>,
    pub optional_wrap: bool,
}

/// The validator segment carries the optional marker: `opt ( ... )`.
pub open spec fn opt_marked(seg: Seq<TokView>) -> bool {
    &&& seg.len() >= 3
    &&& seg[0] matches TokView::Ident(s) && s == "opt"@
    &&& seg[1] matches TokView::Punct(p, _) && p == "("@
    &&& seg[seg.len() - 1] matches TokView::Punct(q, _) && q == ")"@
}

/// A type wrapped in the optional container.
pub open spec fn option_wrapped(inner: Seq<TokView>) -> Seq<TokView> {
    seq![TokView::Ident("Option"@), TokView::Punct("<"@, false)] + inner + seq![
        TokView::Punct(">"@, false),
    ]
}

/// Resolution of an argument list already split at its one top-level comma:
/// `vseg` is the validator segment, `wire` the wire-type override.
pub open spec fn resolve_segments(
    vseg: Seq<TokView>,
    wire: Option<Seq<TokView>>,
    declared: Seq<TokView>,
) -> Result<ArgShapeView, DiagKind> {
    if vseg.len() == 0 {
        Err(DiagKind::MissingValidator)
    } else if wire matches Some(w) && w.len() == 0 {
        Err(DiagKind::MalformedArguments)
    } else if opt_marked(vseg) {
        let inner = vseg.subrange(2, vseg.len() - 1);
        if inner.len() == 0 {
            Err(DiagKind::MissingValidator)
        } else {
            Ok(
                ArgShapeView {
                    validator: inner,
                    wire: match wire {
                        None => declared,
                        Some(w) => option_wrapped(w),
                    },
                    optional_wrap: true,
                },
            )
        }
    } else {
        Ok(
            ArgShapeView {
                validator: vseg,
                wire: match wire {
                    None => declared,
                    Some(w) => w,
                },
                optional_wrap: false,
            },
        )
    }
}

/// Resolution of one field-level argument list against the field's declared
/// type.
pub open spec fn resolve_args_spec(args: Seq<TokView>, declared: Seq<TokView>) -> Result<
    ArgShapeView,
    DiagKind,
> {
    if args.len() == 0 {
        Err(DiagKind::MissingValidator)
    } else {
        match comma_at_depth0(args, 0, 0) {
            None => resolve_segments(args, None, declared),
            Some(c) => if comma_at_depth0(args, c + 1, 0) is Some {
                Err(DiagKind::TooManyArguments)
            } else {
                resolve_segments(
                    args.subrange(0, c),
                    Some(args.subrange(c + 1, args.len() as int)),
                    declared,
                )
            },
        }
    }
}

/// The resolved specification of the field at position `idx`.
pub open spec fn parse_field_spec(f: FieldDeclView, idx: usize) -> Result<
    FieldSpecView,
    Diagnostic,
> {
    let c = n_validate_from(f.attrs, 0);
    if c == 0 {
        Err(Diagnostic { kind: DiagKind::MissingValidation, site: Site::Field(idx) })
    } else if c >= 2 {
        Err(
            Diagnostic {
                kind: DiagKind::DuplicateValidation,
                site: Site::FieldAttr(idx, last_validate_from(f.attrs, 0) as usize),
            },
        )
    } else {
        let ai = first_validate_from(f.attrs, 0);
        match f.attrs[ai].args {
            None => Err(
                Diagnostic {
                    kind: DiagKind::MissingArguments,
                    site: Site::FieldAttr(idx, ai as usize),
                },
            ),
            Some(args) => match resolve_args_spec(args, f.ty) {
                Err(k) => Err(Diagnostic { kind: k, site: Site::FieldAttr(idx, ai as usize) }),
                Ok(shape) => Ok(
                    FieldSpecView {
                        name: f.name,
                        wire: shape.wire,
                        target: f.ty,
                        validator: shape.validator,
                        optional_wrap: shape.optional_wrap,
                        passthrough: passthrough_from(f.attrs, 0),
                    },
                ),
            },
        }
    }
}

/// The resolved specifications of the fields from position `i` on.
pub open spec fn parse_fields_spec(fs: Seq<FieldDeclView>, i: int) -> Result<
    Seq<FieldSpecView>,
    Diagnostic,
>
    decreases fs.len() - i,
    when 0 <= i <= fs.len()
{
    if i >= fs.len() {
        Ok(Seq::empty())
    } else {
        match parse_field_spec(fs[i], i as usize) {
            Err(d) => Err(d),
            Ok(f) => match parse_fields_spec(fs, i + 1) {
                Err(d) => Err(d),
                Ok(rest) => Ok(seq![f] + rest),
            },
        }
    }
}

/// The structure-level validator, when the structure-level annotations
/// declare exactly one; a diagnostic when they declare it badly.
pub open spec fn struct_validator_spec(attrs: Seq<AttrView>) -> Result<
    Option<Seq<TokView>>,
    Diagnostic,
> {
    let c = n_validate_from(attrs, 0);
    if c == 0 {
        Ok(None)
    } else if c >= 2 {
        Err(
            Diagnostic {
                kind: DiagKind::DuplicateStructValidation,
                site: Site::StructAttr(last_validate_from(attrs, 0) as usize),
            },
        )
    } else {
        let ai = first_validate_from(attrs, 0);
        match attrs[ai].args {
            None => Err(
                Diagnostic { kind: DiagKind::MissingArguments, site: Site::StructAttr(ai as usize) },
            ),
            Some(ts) => if ts.len() == 0 {
                Err(
                    Diagnostic {
                        kind: DiagKind::MissingValidator,
                        site: Site::StructAttr(ai as usize),
                    },
                )
            } else if comma_at_depth0(ts, 0, 0) is Some {
                Err(
                    Diagnostic {
                        kind: DiagKind::TooManyArguments,
                        site: Site::StructAttr(ai as usize),
                    },
                )
            } else {
                Ok(Some(ts))
            },
        }
    }
}

/// What a whole declaration compiles to: its structure specification, or
/// the first diagnostic, following declaration order.
pub open spec fn parse_decl_spec(d: StructDeclView) -> Result<StructSpecView, Diagnostic> {
    match d.body {
        DeclBodyView::Other => Err(
            Diagnostic { kind: DiagKind::ShapeMismatch, site: Site::StructName },
        ),
        DeclBodyView::Named(fs) => match struct_validator_spec(d.attrs) {
            Err(e) => Err(e),
            Ok(sv) => match parse_fields_spec(fs, 0) {
                Err(e) => Err(e),
                Ok(fspecs) => Ok(
                    StructSpecView { name: d.name, fields: fspecs, struct_validator: sv },
                ),
            },
        },
    }
}

/// An argument list, resolved; the exec twin of `resolve_args_spec`.
fn resolve_segments_exec(
    vseg: Vec<Tok>,
    wire: Option<Vec<Tok>>,
    declared: &Vec<Tok>,
) -> (r: Result<(Vec<Tok>, Vec<Tok>, bool), DiagKind>)
    ensures
        ({
            let s = resolve_segments(vseg.deep_view(), wire.deep_view(), declared.deep_view());
            match r {
                Ok(sh) => s matches Ok(sv) && sh.0.deep_view() == sv.validator
                    && sh.1.deep_view() == sv.wire && sh.2 == sv.optional_wrap,
                Err(k) => s == Err::<ArgShapeView, DiagKind>(k),
            }
        }),
{
    if vseg.len() == 0 {
        return Err(DiagKind::MissingValidator);
    }
    let wire_empty = match &wire {
        Some(w) => w.len() == 0,
        None => false,
    };
    if wire_empty {
        return Err(DiagKind::MalformedArguments);
    }
    let marked = is_opt_marked(&vseg);
    if marked {
        let inner = subtoks(&vseg, 2, vseg.len() - 1);
        if inner.len() == 0 {
            return Err(DiagKind::MissingValidator);
        }
        let w2 = match wire {
            None => subtoks(declared, 0, declared.len()),
            Some(w) => {
                let mut acc: Vec<Tok> = Vec::new();
                acc.push(Tok::Ident("Option".to_owned()));
                acc.push(Tok::Punct("<".to_owned(), false));
                proof {
                    let head = seq![TokView::Ident("Option"@), TokView::Punct("<"@, false)];
                    assert forall|k: int| 0 <= k < acc@.len() implies acc.deep_view()[k]
                        == head[k] by {
                        assert(acc.deep_view()[k] == acc@[k].deep_view());
                    }
                    assert(acc.deep_view() =~= head);
                }
                extend_toks(&mut acc, &w);
                let ghost pre = acc@;
                let ghost pre_deep = acc.deep_view();
                let closer = Tok::Punct(">".to_owned(), false);
                acc.push(closer);
                proof {
                    let goal = option_wrapped(w.deep_view());
                    assert(pre_deep.len() == pre.len());
                    assert forall|k: int| 0 <= k < acc@.len() implies acc.deep_view()[k]
                        == goal[k] by {
                        assert(acc.deep_view()[k] == acc@[k].deep_view());
                        if k < pre.len() {
                            assert(acc@[k] == pre[k]);
                            assert(acc@[k].deep_view() == pre_deep[k]);
                        } else {
                            assert(acc@[k] == closer);
                        }
                    }
                    assert(acc.deep_view() =~= goal);
                }
                acc
            },
        };
        proof {
            assert(declared.deep_view().subrange(0, declared.deep_view().len() as int)
                =~= declared.deep_view());
        }
        Ok((inner, w2, true))
    } else {
        let w2 = match wire {
            None => subtoks(declared, 0, declared.len()),
            Some(w) => w,
        };
        proof {
            assert(declared.deep_view().subrange(0, declared.deep_view().len() as int)
                =~= declared.deep_view());
        }
        Ok((vseg, w2, false))
    }
}

/// Resolves one field's declaration; the exec twin of `parse_field_spec`.
pub fn parse_field(f: &FieldDecl, idx: usize) -> (r: Result<FieldSpec, Diagnostic>)
    ensures
        ({
            let s = parse_field_spec(f.deep_view(), idx);
            match r {
                Ok(out) => s matches Ok(sv) && out.deep_view() == sv,
                Err(e) => s == Err::<FieldSpecView, Diagnostic>(e),
            }
        }),
{
    let c = count_validate(&f.attrs, 0);
    if c == 0 {
        return Err(Diagnostic { kind: DiagKind::MissingValidation, site: Site::Field(idx) });
    }
    if c >= 2 {
        let last = find_last_validate(&f.attrs, 0);
        return Err(
            Diagnostic { kind: DiagKind::DuplicateValidation, site: Site::FieldAttr(idx, last) },
        );
    }
    let ai = find_first_validate(&f.attrs, 0);
    proof {
        lemma_first_validate(f.attrs.deep_view(), 0);
    }
    let a = &f.attrs[ai];
    match &a.args {
        None => Err(
            Diagnostic { kind: DiagKind::MissingArguments, site: Site::FieldAttr(idx, ai) },
        ),
        Some(args) => match resolve_args(args, &f.ty) {
            Err(k) => Err(Diagnostic { kind: k, site: Site::FieldAttr(idx, ai) }),
            Ok((validator, wire, optional_wrap)) => {
                let target = subtoks(&f.ty, 0, f.ty.len());
                let passthrough = collect_passthrough(&f.attrs, 0);
                proof {
                    assert(f.ty.deep_view().subrange(0, f.ty.deep_view().len() as int)
                        =~= f.ty.deep_view());
                }
                Ok(
                    FieldSpec {
                        name: f.name.clone(),
                        wire,
                        target,
                        validator,
                        optional_wrap,
                        passthrough,
                    },
                )
            },
        },
    }
}

/// Resolves the fields from position `i` on, stopping at the first
/// diagnostic; the exec twin of `parse_fields_spec`.
pub fn parse_fields(fields: &Vec<FieldDecl>, i: usize) -> (r: Result<Vec<FieldSpec>, Diagnostic>)
    requires
        i <= fields.len(),
    ensures
        ({
            let s = parse_fields_spec(fields.deep_view(), i as int);
            match r {
                Ok(out) => s matches Ok(sv) && out.deep_view() == sv,
                Err(e) => s == Err::<Seq<FieldSpecView>, Diagnostic>(e),
            }
        }),
    decreases fields.len() - i,
{
    if i == fields.len() {
        let out: Vec<FieldSpec> = Vec::new();
        proof {
            assert(out.deep_view() =~= Seq::<FieldSpecView>::empty());
        }
        Ok(out)
    } else {
        match parse_field(&fields[i], i) {
            Err(e) => Err(e),
            Ok(fspec) => match parse_fields(fields, i + 1) {
                Err(e) => Err(e),
                Ok(mut rest) => {
                    let ghost fv = fspec.deep_view();
                    let ghost pre = rest@;
                    let ghost pre_deep = rest.deep_view();
                    rest.insert(0, fspec);
                    proof {
                        let goal = seq![fv] + pre_deep;
                        assert(pre_deep.len() == pre.len());
                        assert forall|k: int| 0 <= k < rest@.len() implies rest.deep_view()[k]
                            == goal[k] by {
                            assert(rest.deep_view()[k] == rest@[k].deep_view());
                            if k >= 1 {
                                assert(rest@[k] == pre[k - 1]);
                                assert(rest@[k].deep_view() == pre_deep[k - 1]);
                            }
                        }
                        assert(rest.deep_view() =~= goal);
                    }
                    Ok(rest)
                },
            },
        }
    }
}

/// Scans the structure-level annotations for at most one validation
/// declaration; the exec twin of `struct_validator_spec`.
pub fn struct_validator(attrs: &Vec<Attr>) -> (r: Result<Option<Vec<Tok>>, Diagnostic>)
    ensures
        ({
            let s = struct_validator_spec(attrs.deep_view());
            match r {
                Ok(sv) => s matches Ok(sx) && sv.deep_view() == sx,
                Err(e) => s == Err::<Option<Seq<TokView>>, Diagnostic>(e),
            }
        }),
{
    let c = count_validate(attrs, 0);
    if c == 0 {
        return Ok(None);
    }
    if c >= 2 {
        let last = find_last_validate(attrs, 0);
        return Err(
            Diagnostic { kind: DiagKind::DuplicateStructValidation, site: Site::StructAttr(last) },
        );
    }
    let ai = find_first_validate(attrs, 0);
    proof {
        lemma_first_validate(attrs.deep_view(), 0);
    }
    match &attrs[ai].args {
        None => Err(Diagnostic { kind: DiagKind::MissingArguments, site: Site::StructAttr(ai) }),
        Some(ts) => {
            if ts.len() == 0 {
                return Err(
                    Diagnostic { kind: DiagKind::MissingValidator, site: Site::StructAttr(ai) },
                );
            }
            match comma_scan(ts, 0) {
                Some(_) => Err(
                    Diagnostic { kind: DiagKind::TooManyArguments, site: Site::StructAttr(ai) },
                ),
                None => {
                    let copy = subtoks(ts, 0, ts.len());
                    proof {
                        assert(ts.deep_view().subrange(0, ts.deep_view().len() as int)
                            =~= ts.deep_view());
                    }
                    Ok(Some(copy))
                },
            }
        },
    }
}

/// Compiles one declaration into its structure specification, or stops at
/// the first diagnostic; the exec twin of `parse_decl_spec`.
pub fn parse_decl(d: &StructDecl) -> (r: Result<StructSpec, Diagnostic>)
    ensures
        ({
            let s = parse_decl_spec(d.deep_view());
            match r {
                Ok(out) => s matches Ok(sv) && out.deep_view() == sv,
                Err(e) => s == Err::<StructSpecView, Diagnostic>(e),
            }
        }),
{
    let fields = match &d.body {
        DeclBody::Other => {
            return Err(Diagnostic { kind: DiagKind::ShapeMismatch, site: Site::StructName });
        },
        DeclBody::Named(fs) => fs,
    };
    let sv = match struct_validator(&d.attrs) {
        Err(e) => {
            return Err(e);
        },
        Ok(sv) => sv,
    };
    let fspecs = match parse_fields(fields, 0) {
        Err(e) => {
            return Err(e);
        },
        Ok(x) => x,
    };
    Ok(StructSpec { name: d.name.clone(), fields: fspecs, struct_validator: sv })
}

/// Declaration order is load-bearing: a resolved schema lists exactly one
/// field specification per declared field, at the declared position, under
/// the declared name and with the declared target type.
pub proof fn lemma_fields_in_declaration_order(fs: Seq<FieldDeclView>, i: int)
    requires
        0 <= i <= fs.len(),
        parse_fields_spec(fs, i) is Ok,
    ensures
        parse_fields_spec(fs, i)->Ok_0.len() == fs.len() - i,
        forall|k: int|
            i <= k < fs.len() ==> (#[trigger] fs[k]).name == parse_fields_spec(fs, i)->Ok_0[k
                - i].name && fs[k].ty == parse_fields_spec(fs, i)->Ok_0[k - i].target,
    decreases fs.len() - i,
{
    if i < fs.len() {
        lemma_fields_in_declaration_order(fs, i + 1);
    }
}

/// A compiled schema preserves declaration order: same field count, and
/// each schema entry carries the name of the field declared at its
/// position.
pub proof fn lemma_schema_preserves_order(d: StructDeclView)
    requires
        parse_decl_spec(d) is Ok,
        d.body is Named,
    ensures
        parse_decl_spec(d)->Ok_0.fields.len() == d.body->Named_0.len(),
        forall|k: int|
            0 <= k < d.body->Named_0.len() ==> (#[trigger] d.body->Named_0[k]).name
                == parse_decl_spec(d)->Ok_0.fields[k].name,
{
    lemma_fields_in_declaration_order(d.body->Named_0, 0);
}

/// Whether the validator segment carries the optional marker.
fn is_opt_marked(seg: &Vec<Tok>) -> (r: bool)
    ensures
        r == opt_marked(seg.deep_view()),
{
    if seg.len() < 3 {
        return false;
    }
    let head_ok = match &seg[0] {
        Tok::Ident(s) => text_is(s, "opt"),
        _ => false,
    };
    let open_ok = match &seg[1] {
        Tok::Punct(s, _) => text_is(s, "("),
        _ => false,
    };
    let close_ok = match &seg[seg.len() - 1] {
        Tok::Punct(s, _) => text_is(s, ")"),
        _ => false,
    };
    head_ok && open_ok && close_ok
}

/// Resolves one field-level argument list; the exec twin of
/// `resolve_args_spec`.
pub fn resolve_args(args: &Vec<Tok>, declared: &Vec<Tok>) -> (r: Result<
    (Vec<Tok>, Vec<Tok>, bool),
    DiagKind,
>)
    ensures
        ({
            let s = resolve_args_spec(args.deep_view(), declared.deep_view());
            match r {
                Ok(sh) => s matches Ok(sv) && sh.0.deep_view() == sv.validator
                    && sh.1.deep_view() == sv.wire && sh.2 == sv.optional_wrap,
                Err(k) => s == Err::<ArgShapeView, DiagKind>(k),
            }
        }),
{
    if args.len() == 0 {
        return Err(DiagKind::MissingValidator);
    }
    match comma_scan(args, 0) {
        None => resolve_segments_exec(subtoks(args, 0, args.len()), None, declared),
        Some(c) => {
            let c2 = comma_scan(args, c + 1);
            if c2.is_some() {
                Err(DiagKind::TooManyArguments)
            } else {
                resolve_segments_exec(
                    subtoks(args, 0, c),
                    Some(subtoks(args, c + 1, args.len())),
                    declared,
                )
            }
        },
    }
}

} // verus!
