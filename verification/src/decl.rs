//! The declaration tree a structure presents to the compiler, and the
//! diagnostics the compiler can raise against it.

use vstd::prelude::*;

use crate::tokens::{clone_tok, lemma_dv_insert0, lemma_vec_deep_view, text_is, Tok, TokView};

verus! {

/// One annotation attached to a structure or to a field: a path and, when
/// present, a parenthesised argument token list.
#[derive(Debug, PartialEq, Eq, Clone)]
pub struct Attr {
    pub path: String,
    pub args: Option<Vec<Tok>>,
}

pub ghost struct AttrView {
    pub path: Seq<char>,
    pub args: Option<Seq<TokView>>,
}

impl DeepView for Attr {
    type V = AttrView;

    open spec fn deep_view(&self) -> AttrView {
        AttrView { path: self.path@, args: self.args.deep_view() }
    }
}

/// One declared field: its name, its declared (target) type and its
/// annotations, in source order.
pub struct FieldDecl {
    pub name: String,
    pub ty: Vec<Tok>,
    pub attrs: Vec<Attr>,
}

pub ghost struct FieldDeclView {
    pub name: Seq<char>,
    pub ty: Seq<TokView>,
    pub attrs: Seq<AttrView>,
}

impl DeepView for FieldDecl {
    type V = FieldDeclView;

    open spec fn deep_view(&self) -> FieldDeclView {
        FieldDeclView { name: self.name@, ty: self.ty.deep_view(), attrs: self.attrs.deep_view() }
    }
}

/// The shape of the declared data type: a structure with named fields, or
/// anything else, which the compiler rejects.
pub enum DeclBody {
    Named(Vec<FieldDecl>),
    Other,
}

pub ghost enum DeclBodyView {
    Named(Seq<FieldDeclView>),
    Other,
}

impl DeepView for DeclBody {
    type V = DeclBodyView;

    open spec fn deep_view(&self) -> DeclBodyView {
        match self {
            DeclBody::Named(fs) => DeclBodyView::Named(fs.deep_view()),
            DeclBody::Other => DeclBodyView::Other,
        }
    }
}

/// A whole declared structure: name, structure-level annotations, body.
pub struct StructDecl {
    pub name: String,
    pub attrs: Vec<Attr>,
    pub body: DeclBody,
}

pub ghost struct StructDeclView {
    pub name: Seq<char>,
    pub attrs: Seq<AttrView>,
    pub body: DeclBodyView,
}

impl DeepView for StructDecl {
    type V = StructDeclView;

    open spec fn deep_view(&self) -> StructDeclView {
        StructDeclView {
            name: self.name@,
            attrs: self.attrs.deep_view(),
            body: self.body.deep_view(),
        }
    }
}

/// What went wrong with a declaration.
#[derive(Clone, Copy, PartialEq, Eq, Structural, Debug)]
pub enum DiagKind {
    /// The declared type is not a structure with named fields.
    ShapeMismatch,
    /// More than one structure-level validation declaration.
    DuplicateStructValidation,
    /// A field without a validation declaration.
    MissingValidation,
    /// A field with more than one validation declaration.
    DuplicateValidation,
    /// A validation declaration without an argument list.
    MissingArguments,
    /// An argument list without a validator reference.
    MissingValidator,
    /// An argument list with an empty argument.
    MalformedArguments,
    /// An argument list with more than two arguments.
    TooManyArguments,
}

/// Where a diagnostic is anchored: the declaration site it points at.
#[derive(Clone, Copy, PartialEq, Eq, Structural, Debug)]
pub enum Site {
    /// The structure's name.
    StructName,
    /// A structure-level annotation, by position.
    StructAttr(usize),
    /// A field, by position.
    Field(usize),
    /// An annotation of a field: field position, annotation position.
    FieldAttr(usize, usize),
}

/// A fatal, location-bound report: compilation stops on the first one.
#[derive(Clone, Copy, PartialEq, Eq, Structural, Debug)]
pub struct Diagnostic {
    pub kind: DiagKind,
    pub site: Site,
}

/// The human-readable text of each diagnostic kind.
pub open spec fn kind_text(k: DiagKind) -> Seq<char> {
    match k {
        DiagKind::ShapeMismatch => "validation only works on structures with named fields"@,
        DiagKind::DuplicateStructValidation => "cannot have more than one final validation step"@,
        DiagKind::MissingValidation => "missing a validation"@,
        DiagKind::DuplicateValidation => "cannot have more than one validation step"@,
        DiagKind::MissingArguments => "missing validation arguments"@,
        DiagKind::MissingValidator => "missing validation function"@,
        DiagKind::MalformedArguments => "empty validation argument"@,
        DiagKind::TooManyArguments => "too many validation arguments"@,
    }
}

impl Diagnostic {
    /// The diagnostic's message.
    pub fn message(&self) -> (r: String)
        ensures
            r@ == kind_text(self.kind),
    {
        match self.kind {
            DiagKind::ShapeMismatch => "validation only works on structures with named fields"
                .to_owned(),
            DiagKind::DuplicateStructValidation =>
                "cannot have more than one final validation step".to_owned(),
            DiagKind::MissingValidation => "missing a validation".to_owned(),
            DiagKind::DuplicateValidation => "cannot have more than one validation step".to_owned(),
            DiagKind::MissingArguments => "missing validation arguments".to_owned(),
            DiagKind::MissingValidator => "missing validation function".to_owned(),
            DiagKind::MalformedArguments => "empty validation argument".to_owned(),
            DiagKind::TooManyArguments => "too many validation arguments".to_owned(),
        }
    }
}

/// The annotation is a validation declaration.
pub open spec fn is_validate(a: AttrView) -> bool {
    a.path == "validate"@
}

/// The annotation is pass-through metadata for the raw-record stage.
pub open spec fn is_passthrough(a: AttrView) -> bool {
    a.path == "serde"@
}

/// How many validation declarations stand at or after position `i`.
pub open spec fn n_validate_from(attrs: Seq<AttrView>, i: int) -> nat
    decreases attrs.len() - i,
    when 0 <= i <= attrs.len()
{
    if i >= attrs.len() {
        0
    } else {
        (if is_validate(attrs[i]) {
            1nat
        } else {
            0nat
        }) + n_validate_from(attrs, i + 1)
    }
}

/// Position of the first validation declaration at or after `i`; the list's
/// length when there is none.
pub open spec fn first_validate_from(attrs: Seq<AttrView>, i: int) -> int
    decreases attrs.len() - i,
    when 0 <= i <= attrs.len()
{
    if i >= attrs.len() {
        attrs.len() as int
    } else if is_validate(attrs[i]) {
        i
    } else {
        first_validate_from(attrs, i + 1)
    }
}

/// Position of the last validation declaration at or after `i`; `-1` when
/// there is none.
pub open spec fn last_validate_from(attrs: Seq<AttrView>, i: int) -> int
    decreases attrs.len() - i,
    when 0 <= i <= attrs.len()
{
    if i >= attrs.len() {
        -1
    } else {
        let rest = last_validate_from(attrs, i + 1);
        if rest >= 0 {
            rest
        } else if is_validate(attrs[i]) {
            i
        } else {
            -1
        }
    }
}

/// The pass-through annotations at or after `i`, in order.
pub open spec fn passthrough_from(attrs: Seq<AttrView>, i: int) -> Seq<AttrView>
    decreases attrs.len() - i,
    when 0 <= i <= attrs.len()
{
    if i >= attrs.len() {
        Seq::empty()
    } else if is_passthrough(attrs[i]) {
        seq![attrs[i]] + passthrough_from(attrs, i + 1)
    } else {
        passthrough_from(attrs, i + 1)
    }
}

fn is_validate_exec(a: &Attr) -> (r: bool)
    ensures
        r == is_validate(a.deep_view()),
{
    text_is(&a.path, "validate")
}

fn is_passthrough_exec(a: &Attr) -> (r: bool)
    ensures
        r == is_passthrough(a.deep_view()),
{
    text_is(&a.path, "serde")
}

/// How many validation declarations stand at or after `i`.
pub fn count_validate(attrs: &Vec<Attr>, i: usize) -> (c: usize)
    requires
        i <= attrs.len(),
    ensures
        c as int == n_validate_from(attrs.deep_view(), i as int),
        c <= attrs.len() - i,
    decreases attrs.len() - i,
{
    if i == attrs.len() {
        0
    } else {
        let rest = count_validate(attrs, i + 1);
        if is_validate_exec(&attrs[i]) {
            rest + 1
        } else {
            rest
        }
    }
}

/// Position of the first validation declaration at or after `i`.
pub fn find_first_validate(attrs: &Vec<Attr>, i: usize) -> (r: usize)
    requires
        i <= attrs.len(),
    ensures
        r as int == first_validate_from(attrs.deep_view(), i as int),
        i <= r <= attrs.len(),
    decreases attrs.len() - i,
{
    if i == attrs.len() {
        i
    } else if is_validate_exec(&attrs[i]) {
        i
    } else {
        find_first_validate(attrs, i + 1)
    }
}

/// Position of the last validation declaration at or after `i`; only called
/// where one exists.
pub fn find_last_validate(attrs: &Vec<Attr>, i: usize) -> (r: usize)
    requires
        i <= attrs.len(),
        n_validate_from(attrs.deep_view(), i as int) > 0,
    ensures
        r as int == last_validate_from(attrs.deep_view(), i as int),
        i <= r < attrs.len(),
    decreases attrs.len() - i,
{
    let later = count_validate(attrs, i + 1);
    if later > 0 {
        find_last_validate(attrs, i + 1)
    } else {
        proof {
            lemma_last_is_only(attrs.deep_view(), i as int);
        }
        i
    }
}

proof fn lemma_last_is_only(attrs: Seq<AttrView>, i: int)
    requires
        0 <= i < attrs.len(),
        n_validate_from(attrs, i) > 0,
        n_validate_from(attrs, i + 1) == 0,
    ensures
        is_validate(attrs[i]),
        last_validate_from(attrs, i) == i,
        last_validate_from(attrs, i + 1) == -1,
    decreases attrs.len() - i,
{
    lemma_no_validate_no_last(attrs, i + 1);
}

/// Where at least one validation declaration stands, the first one is in
/// range and is a validation declaration.
pub proof fn lemma_first_validate(attrs: Seq<AttrView>, i: int)
    requires
        0 <= i <= attrs.len(),
        n_validate_from(attrs, i) > 0,
    ensures
        i <= first_validate_from(attrs, i) < attrs.len(),
        is_validate(attrs[first_validate_from(attrs, i)]),
    decreases attrs.len() - i,
{
    if i < attrs.len() && !is_validate(attrs[i]) {
        lemma_first_validate(attrs, i + 1);
    }
}

proof fn lemma_no_validate_no_last(attrs: Seq<AttrView>, i: int)
    requires
        0 <= i <= attrs.len(),
        n_validate_from(attrs, i) == 0,
    ensures
        last_validate_from(attrs, i) == -1,
    decreases attrs.len() - i,
{
    if i < attrs.len() {
        lemma_no_validate_no_last(attrs, i + 1);
    }
}

/// A copy of one annotation, with the same shape.
pub fn clone_attr(a: &Attr) -> (r: Attr)
    ensures
        r.deep_view() == a.deep_view(),
{
    let args = match &a.args {
        None => None,
        Some(ts) => {
            let mut out: Vec<Tok> = Vec::new();
            let mut i: usize = 0;
            while i < ts.len()
                invariant
                    i <= ts.len(),
                    out.deep_view() =~= ts.deep_view().subrange(0, i as int),
                decreases ts.len() - i,
            {
                let ghost pre = out@;
                let ghost pre_deep = out.deep_view();
                let x = clone_tok(&ts[i]);
                out.push(x);
                i += 1;
                proof {
                    assert(pre_deep.len() == pre.len());
                    assert forall|k: int| 0 <= k < out@.len() implies out.deep_view()[k]
                        == ts.deep_view()[k] by {
                        assert(out.deep_view()[k] == out@[k].deep_view());
                        if k < pre.len() {
                            assert(out@[k] == pre[k]);
                            assert(out@[k].deep_view() == pre_deep[k]);
                        } else {
                            assert(out@[k] == x);
                        }
                    }
                    assert(out.deep_view() =~= ts.deep_view().subrange(0, i as int));
                }
            }
            proof {
                assert(out.deep_view() =~= ts.deep_view());
            }
            Some(out)
        },
    };
    Attr { path: a.path.clone(), args }
}

/// The pass-through annotations of a field, in order, as fresh copies.
pub fn collect_passthrough(attrs: &Vec<Attr>, i: usize) -> (r: Vec<Attr>)
    requires
        i <= attrs.len(),
    ensures
        r.deep_view() == passthrough_from(attrs.deep_view(), i as int),
    decreases attrs.len() - i,
{
    if i == attrs.len() {
        Vec::new()
    } else {
        let mut rest = collect_passthrough(attrs, i + 1);
        if is_passthrough_exec(&attrs[i]) {
            let ghost pre = rest@;
            let a = clone_attr(&attrs[i]);
            rest.insert(0, a);
            proof {
                lemma_vec_deep_view(rest);
                lemma_dv_insert0(pre, a);
                assert(rest.deep_view() =~= passthrough_from(attrs.deep_view(), i as int));
            }
            rest
        } else {
            rest
        }
    }
}

} // verus!
