//! The code synthesizer: turns a resolved structure specification into the
//! source text of a deserialization capability.
//!
//! The emitted text declares a raw record mirroring each field's wire type
//! and pass-through metadata, a fallible conversion that runs each field's
//! validator in declaration order with short-circuit on the first failure,
//! then the structure-level validator, and the glue that deserializes the
//! raw record first and converts afterwards.

use vstd::prelude::*;

use crate::decl::{Attr, AttrView};
use crate::schema::{FieldSpec, FieldSpecView, StructSpec, StructSpecView};
use crate::tokens::{append_toks_text, toks_text, Tok, TokView};

verus! {

/// Source text of one annotation, re-emitted verbatim.
pub open spec fn attr_text(a: AttrView) -> Seq<char> {
    match a.args {
        None => "#["@ + a.path + "]\n"@,
        Some(ts) => "#["@ + a.path + "("@ + toks_text(ts) + ")]\n"@,
    }
}

/// Source text of the annotations from position `i` on.
pub open spec fn attrs_text_from(attrs: Seq<AttrView>, i: int) -> Seq<char>
    decreases attrs.len() - i,
    when 0 <= i <= attrs.len()
{
    if i >= attrs.len() {
        Seq::empty()
    } else {
        attr_text(attrs[i]) + attrs_text_from(attrs, i + 1)
    }
}

/// Source text of one raw-record field: pass-through metadata, then the
/// field under its wire type.
pub open spec fn raw_field_text(f: FieldSpecView) -> Seq<char> {
    attrs_text_from(f.passthrough, 0) + f.name + ": "@ + toks_text(f.wire) + ",\n"@
}

/// Source text of the raw-record fields from position `i` on.
pub open spec fn raw_fields_text_from(fs: Seq<FieldSpecView>, i: int) -> Seq<char>
    decreases fs.len() - i,
    when 0 <= i <= fs.len()
{
    if i >= fs.len() {
        Seq::empty()
    } else {
        raw_field_text(fs[i]) + raw_fields_text_from(fs, i + 1)
    }
}

/// Source text of one conversion step: the field's validator, lifted over
/// an absent value when the optional marker was declared, applied to the
/// raw value, with `?` for the short-circuit.
pub open spec fn conv_field_text(f: FieldSpecView) -> Seq<char> {
    if f.optional_wrap {
        f.name + ": (sanatio::opt("@ + toks_text(f.validator) + "))(raw."@ + f.name + ")?,\n"@
    } else {
        f.name + ": ("@ + toks_text(f.validator) + ")(raw."@ + f.name + ")?,\n"@
    }
}

/// Source text of the conversion steps from position `i` on, in declaration
/// order.
pub open spec fn conv_fields_text_from(fs: Seq<FieldSpecView>, i: int) -> Seq<char>
    decreases fs.len() - i,
    when 0 <= i <= fs.len()
{
    if i >= fs.len() {
        Seq::empty()
    } else {
        conv_field_text(fs[i]) + conv_fields_text_from(fs, i + 1)
    }
}

/// Source text of the structure-level validation step, when one is
/// declared.
pub open spec fn struct_validation_text(sv: Option<Seq<TokView>>) -> Seq<char> {
    match sv {
        None => Seq::empty(),
        Some(ts) => "let value = ("@ + toks_text(ts) + ")(value)?;\n"@,
    }
}

/// The whole emitted capability for one structure specification.
pub open spec fn synth_text(s: StructSpecView) -> Seq<char> {
    "impl<'de> serde::Deserialize<'de> for "@ + s.name + " {\n"@
        + "fn deserialize<D>(deserializer: D) -> core::result::Result<Self, D::Error>\n"@
        + "where D: serde::Deserializer<'de>, {\n"@ + "#[derive(serde::Deserialize)]\n"@
        + "struct RawRecord {\n"@ + raw_fields_text_from(s.fields, 0) + "}\n"@
        + "impl core::convert::TryFrom<RawRecord> for "@ + s.name + " {\n"@
        + "type Error = std::string::String;\n"@
        + "fn try_from(raw: RawRecord) -> core::result::Result<Self, Self::Error> {\n"@
        + "let value = Self {\n"@ + conv_fields_text_from(s.fields, 0) + "};\n"@
        + struct_validation_text(s.struct_validator) + "core::result::Result::Ok(value)\n}\n}\n"@
        + "core::result::Result::and_then(<RawRecord as serde::Deserialize>::deserialize(deserializer), |raw| core::convert::TryFrom::try_from(raw).map_err(serde::de::Error::custom))\n}\n}\n"@
}

fn append_attr_text(out: &mut String, a: &Attr)
    ensures
        final(out)@ == old(out)@ + attr_text(a.deep_view()),
{
    out.append("#[");
    out.append(a.path.as_str());
    match &a.args {
        None => {
            out.append("]\n");
        },
        Some(ts) => {
            out.append("(");
            append_toks_text(out, ts);
            out.append(")]\n");
        },
    }
    proof {
        assert(out@ =~= old(out)@ + attr_text(a.deep_view()));
    }
}

fn append_attrs_text(out: &mut String, attrs: &Vec<Attr>, i: usize)
    requires
        i <= attrs.len(),
    ensures
        final(out)@ == old(out)@ + attrs_text_from(attrs.deep_view(), i as int),
    decreases attrs.len() - i,
{
    if i < attrs.len() {
        append_attr_text(out, &attrs[i]);
        append_attrs_text(out, attrs, i + 1);
    }
    proof {
        assert(out@ =~= old(out)@ + attrs_text_from(attrs.deep_view(), i as int));
    }
}

fn append_raw_fields(out: &mut String, fs: &Vec<FieldSpec>, i: usize)
    requires
        i <= fs.len(),
    ensures
        final(out)@ == old(out)@ + raw_fields_text_from(fs.deep_view(), i as int),
    decreases fs.len() - i,
{
    if i < fs.len() {
        let f = &fs[i];
        append_attrs_text(out, &f.passthrough, 0);
        out.append(f.name.as_str());
        out.append(": ");
        append_toks_text(out, &f.wire);
        out.append(",\n");
        proof {
            assert(out@ =~= old(out)@ + raw_field_text(fs.deep_view()[i as int]));
        }
        append_raw_fields(out, fs, i + 1);
    }
    proof {
        assert(out@ =~= old(out)@ + raw_fields_text_from(fs.deep_view(), i as int));
    }
}

fn append_conv_fields(out: &mut String, fs: &Vec<FieldSpec>, i: usize)
    requires
        i <= fs.len(),
    ensures
        final(out)@ == old(out)@ + conv_fields_text_from(fs.deep_view(), i as int),
    decreases fs.len() - i,
{
    if i < fs.len() {
        let f = &fs[i];
        out.append(f.name.as_str());
        if f.optional_wrap {
            out.append(": (sanatio::opt(");
        } else {
            out.append(": (");
        }
        append_toks_text(out, &f.validator);
        if f.optional_wrap {
            out.append("))(raw.");
        } else {
            out.append(")(raw.");
        }
        out.append(f.name.as_str());
        out.append(")?,\n");
        proof {
            assert(out@ =~= old(out)@ + conv_field_text(fs.deep_view()[i as int]));
        }
        append_conv_fields(out, fs, i + 1);
    }
    proof {
        assert(out@ =~= old(out)@ + conv_fields_text_from(fs.deep_view(), i as int));
    }
}

/// Emits the deserialization capability for one resolved structure
/// specification, as source text.
pub fn synthesize(s: &StructSpec) -> (r: String)
    ensures
        r@ == synth_text(s.deep_view()),
{
    let mut out = String::new();
    out.append("impl<'de> serde::Deserialize<'de> for ");
    out.append(s.name.as_str());
    out.append(" {\n");
    out.append("fn deserialize<D>(deserializer: D) -> core::result::Result<Self, D::Error>\n");
    out.append("where D: serde::Deserializer<'de>, {\n");
    out.append("#[derive(serde::Deserialize)]\n");
    out.append("struct RawRecord {\n");
    append_raw_fields(&mut out, &s.fields, 0);
    out.append("}\n");
    out.append("impl core::convert::TryFrom<RawRecord> for ");
    out.append(s.name.as_str());
    out.append(" {\n");
    out.append("type Error = std::string::String;\n");
    out.append("fn try_from(raw: RawRecord) -> core::result::Result<Self, Self::Error> {\n");
    out.append("let value = Self {\n");
    append_conv_fields(&mut out, &s.fields, 0);
    out.append("};\n");
    match &s.struct_validator {
        None => {},
        Some(ts) => {
            out.append("let value = (");
            append_toks_text(&mut out, ts);
            out.append(")(value)?;\n");
        },
    }
    out.append("core::result::Result::Ok(value)\n}\n}\n");
    out.append(
        "core::result::Result::and_then(<RawRecord as serde::Deserialize>::deserialize(deserializer), |raw| core::convert::TryFrom::try_from(raw).map_err(serde::de::Error::custom))\n}\n}\n",
    );
    proof {
        assert(out@ =~= synth_text(s.deep_view()));
    }
    out
}

} // verus!
