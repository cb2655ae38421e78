use vstd::prelude::*;

use crate::decl::{FnDecl, Param, TypeDecl, TypeKind};
use crate::meta::{is_doc_attr, text_eq, Attr};

verus! {

/// The doc annotations among `attrs`, in order, each followed by a space.
pub open spec fn docs_text(attrs: Seq<Attr>) -> Seq<char>
    decreases attrs.len(),
{
    if attrs.len() == 0 {
        Seq::empty()
    } else if is_doc_attr(attrs.last()) {
        docs_text(attrs.drop_last()) + attrs.last().text@ + " "@
    } else {
        docs_text(attrs.drop_last())
    }
}

pub open spec fn keyword_text(k: TypeKind) -> Seq<char> {
    match k {
        TypeKind::Struct => "struct "@,
        TypeKind::Enum => "enum "@,
    }
}

/// A parameter as it stands in an emitted signature. Inside an impl block a receiver
/// becomes an explicit reference to the block's type.
pub open spec fn param_text(p: Param, self_ty: Option<Seq<char>>) -> Seq<char> {
    match p {
        Param::Receiver { mutable } => match self_ty {
            Some(t) => if mutable {
                "self: &mut "@ + t
            } else {
                "self: &"@ + t
            },
            None => if mutable {
                "&mut self"@
            } else {
                "&self"@
            },
        },
        Param::Typed(s) => s@,
    }
}

/// The parameters, separated by `, `.
pub open spec fn params_text(ps: Seq<Param>, self_ty: Option<Seq<char>>) -> Seq<char>
    decreases ps.len(),
{
    if ps.len() == 0 {
        Seq::empty()
    } else if ps.len() == 1 {
        param_text(ps[0], self_ty)
    } else {
        params_text(ps.drop_last(), self_ty) + ", "@ + param_text(ps.last(), self_ty)
    }
}

/// The full definition of a shared struct or enum, without visibility.
pub open spec fn shared_fragment(t: TypeDecl, rename: Seq<char>) -> Seq<char> {
    "    #[derive(Serialize,Deserialize)] "@ + rename + docs_text(t.attrs@) + keyword_text(t.kind)
        + t.name@ + t.body@ + "\n"@
}

/// The opaque type declaration of a struct or enum that is not shared.
pub open spec fn opaque_fragment(t: TypeDecl, rename: Seq<char>) -> Seq<char> {
    "        type "@ + rename + t.name@ + ";\n"@
}

/// The signature of a function without body or visibility.
pub open spec fn fn_fragment(f: FnDecl, rename: Seq<char>, self_ty: Option<Seq<char>>) -> Seq<char> {
    "        "@ + rename + docs_text(f.attrs@) + f.qualifiers@ + "fn "@ + f.name@ + "("@
        + params_text(f.params@, self_ty) + ")"@ + f.output@ + f.where_clause@ + ";\n"@
}

pub fn push_docs(out: &mut String, attrs: &Vec<Attr>)
    ensures
        final(out)@ == old(out)@ + docs_text(attrs@),
{
    let n = attrs.len();
    for i in 0..n
        invariant
            n == attrs@.len(),
            out@ == old(out)@ + docs_text(attrs@.take(i as int)),
    {
        let a = &attrs[i];
        assert(attrs@.take(i + 1).drop_last() =~= attrs@.take(i as int));
        if text_eq(&a.path, "doc") {
            out.append(a.text.as_str());
            out.append(" ");
        }
    }
    assert(attrs@.take(n as int) =~= attrs@);
}

fn push_param(out: &mut String, p: &Param, self_ty: Option<&String>)
    ensures
        final(out)@ == old(out)@ + param_text(
            *p,
            match self_ty {
                Some(t) => Some(t@),
                None => None,
            },
        ),
{
    match p {
        Param::Receiver { mutable } => match self_ty {
            Some(t) => {
                if *mutable {
                    out.append("self: &mut ");
                } else {
                    out.append("self: &");
                }
                out.append(t.as_str());
            },
            None => {
                if *mutable {
                    out.append("&mut self");
                } else {
                    out.append("&self");
                }
            },
        },
        Param::Typed(s) => {
            out.append(s.as_str());
        },
    }
}

pub fn push_params(out: &mut String, ps: &Vec<Param>, self_ty: Option<&String>)
    ensures
        final(out)@ == old(out)@ + params_text(
            ps@,
            match self_ty {
                Some(t) => Some(t@),
                None => None,
            },
        ),
{
    let ghost ty = match self_ty {
        Some(t) => Some(t@),
        None => None,
    };
    let n = ps.len();
    for i in 0..n
        invariant
            n == ps@.len(),
            ty == match self_ty {
                Some(t) => Some(t@),
                None => None,
            },
            out@ == old(out)@ + params_text(ps@.take(i as int), ty),
    {
        assert(ps@.take(i + 1).drop_last() =~= ps@.take(i as int));
        if i > 0 {
            out.append(", ");
        }
        push_param(out, &ps[i], self_ty);
    }
    assert(ps@.take(n as int) =~= ps@);
}

/// Renders a shared struct or enum.
pub fn render_shared(t: &TypeDecl, rename: &String) -> (r: String)
    ensures
        r@ == shared_fragment(*t, rename@),
{
    let mut out = String::from_str("    #[derive(Serialize,Deserialize)] ");
    out.append(rename.as_str());
    push_docs(&mut out, &t.attrs);
    match t.kind {
        TypeKind::Struct => out.append("struct "),
        TypeKind::Enum => out.append("enum "),
    }
    out.append(t.name.as_str());
    out.append(t.body.as_str());
    out.append("\n");
    out
}

/// Renders the opaque declaration of a struct or enum.
pub fn render_opaque(t: &TypeDecl, rename: &String) -> (r: String)
    ensures
        r@ == opaque_fragment(*t, rename@),
{
    let mut out = String::from_str("        type ");
    out.append(rename.as_str());
    out.append(t.name.as_str());
    out.append(";\n");
    out
}

/// Renders a function signature; `self_ty` is the enclosing impl block's type, if any.
pub fn render_fn(f: &FnDecl, rename: &String, self_ty: Option<&String>) -> (r: String)
    ensures
        r@ == fn_fragment(
            *f,
            rename@,
            match self_ty {
                Some(t) => Some(t@),
                None => None,
            },
        ),
{
    let mut out = String::from_str("        ");
    out.append(rename.as_str());
    push_docs(&mut out, &f.attrs);
    out.append(f.qualifiers.as_str());
    out.append("fn ");
    out.append(f.name.as_str());
    out.append("(");
    push_params(&mut out, &f.params, self_ty);
    out.append(")");
    out.append(f.output.as_str());
    out.append(f.where_clause.as_str());
    out.append(";\n");
    out
}

} // verus!
