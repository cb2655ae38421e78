use vstd::prelude::*;

use crate::binding_state::BindingView;
use crate::builder::scaffold_text;
use crate::merge::{
    find_from, indent_start, interior, lemma_find_first, lemma_find_from, lemma_find_in_prefix,
    lemma_find_shift, line_break, line_end, locate, matches_at, merged, region_end, shared_start,
    surface_start, MergeError,
};
use crate::decl::{Decl, FnDecl, Param, TypeDecl};
use crate::meta::{meta_of, rename_text, Attr};
use crate::render::{opaque_fragment, param_text, params_text, shared_fragment};
use crate::scan::{
    scan, emit_decl, emit_items, emit_method, emit_methods, emit_type, note_malformed, skipped,
};

verus! {

pub open spec fn is_prefix(a: Seq<char>, b: Seq<char>) -> bool {
    a.len() <= b.len() && b.take(a.len() as int) == a
}

/// Every buffer of `b` starts with the corresponding buffer of `a`.
pub open spec fn extends(a: BindingView, b: BindingView) -> bool {
    &&& is_prefix(a.shared, b.shared)
    &&& is_prefix(a.surface, b.surface)
    &&& a.diagnostics.len() <= b.diagnostics.len()
    &&& b.diagnostics.take(a.diagnostics.len() as int) == a.diagnostics
}

proof fn lemma_extends_trans(a: BindingView, b: BindingView, c: BindingView)
    requires
        extends(a, b),
        extends(b, c),
    ensures
        extends(a, c),
{
    assert(c.shared.take(a.shared.len() as int) =~= c.shared.take(b.shared.len() as int).take(
        a.shared.len() as int,
    ));
    assert(c.surface.take(a.surface.len() as int) =~= c.surface.take(b.surface.len() as int).take(
        a.surface.len() as int,
    ));
    assert(c.diagnostics.take(a.diagnostics.len() as int) =~= c.diagnostics.take(
        b.diagnostics.len() as int,
    ).take(a.diagnostics.len() as int));
}

proof fn lemma_extends_refl(a: BindingView)
    ensures
        extends(a, a),
{
    assert(a.shared.take(a.shared.len() as int) =~= a.shared);
    assert(a.surface.take(a.surface.len() as int) =~= a.surface);
    assert(a.diagnostics.take(a.diagnostics.len() as int) =~= a.diagnostics);
}

proof fn lemma_note_extends(st: BindingView, attrs: Seq<Attr>, loc: Seq<char>)
    ensures
        extends(st, note_malformed(st, attrs, loc)),
{
    lemma_extends_refl(st);
    let r = note_malformed(st, attrs, loc);
    if r != st {
        assert(r.diagnostics.take(st.diagnostics.len() as int) =~= st.diagnostics);
        assert(r.shared.take(st.shared.len() as int) =~= st.shared);
        assert(r.surface.take(st.surface.len() as int) =~= st.surface);
    }
}

proof fn lemma_append_extends(st: BindingView, r: BindingView, t: Seq<char>, shared: bool)
    requires
        r.diagnostics == st.diagnostics,
        shared ==> r.shared == st.shared + t && r.surface == st.surface,
        !shared ==> r.surface == st.surface + t && r.shared == st.shared,
    ensures
        extends(st, r),
{
    assert(r.shared.take(st.shared.len() as int) =~= st.shared);
    assert(r.surface.take(st.surface.len() as int) =~= st.surface);
    assert(r.diagnostics.take(st.diagnostics.len() as int) =~= st.diagnostics);
}

proof fn lemma_type_extends(st: BindingView, t: TypeDecl)
    ensures
        extends(st, emit_type(st, t)),
{
    lemma_extends_refl(st);
    if t.is_pub {
        let st1 = note_malformed(st, t.attrs@, t.location@);
        lemma_note_extends(st, t.attrs@, t.location@);
        lemma_extends_refl(st1);
        match meta_of(t.attrs@) {
            None => {},
            Some(m) => if !m.skip {
                if m.shared {
                    lemma_append_extends(st1, emit_type(st, t), shared_fragment(t, rename_text(m.cxx_name)), true);
                } else {
                    lemma_append_extends(st1, emit_type(st, t), opaque_fragment(t, rename_text(m.cxx_name)), false);
                }
            },
        }
        lemma_extends_trans(st, st1, emit_type(st, t));
    }
}

proof fn lemma_method_extends(st: BindingView, f: FnDecl, ty: Seq<char>)
    ensures
        extends(st, emit_method(st, f, ty)),
{
    lemma_extends_refl(st);
    if f.is_pub {
        let st1 = note_malformed(st, f.attrs@, f.location@);
        let r = emit_method(st, f, ty);
        lemma_note_extends(st, f.attrs@, f.location@);
        lemma_extends_refl(st1);
        if r != st1 {
            assert(r.surface.take(st1.surface.len() as int) =~= st1.surface);
            assert(r.shared.take(st1.shared.len() as int) =~= st1.shared);
            assert(r.diagnostics.take(st1.diagnostics.len() as int) =~= st1.diagnostics);
        }
        lemma_extends_trans(st, st1, r);
    }
}

proof fn lemma_methods_extend(st: BindingView, ms: Seq<FnDecl>, ty: Seq<char>)
    ensures
        extends(st, emit_methods(st, ms, ty)),
    decreases ms.len(),
{
    if ms.len() == 0 {
        lemma_extends_refl(st);
    } else {
        let mid = emit_methods(st, ms.drop_last(), ty);
        lemma_methods_extend(st, ms.drop_last(), ty);
        lemma_method_extends(mid, ms.last(), ty);
        lemma_extends_trans(st, mid, emit_methods(st, ms, ty));
    }
}

proof fn lemma_decl_extends(st: BindingView, d: Decl, depth: nat)
    ensures
        extends(st, emit_decl(st, d, depth)),
    decreases depth, 0nat,
{
    lemma_extends_refl(st);
    match d {
        Decl::Type(t) => lemma_type_extends(st, t),
        Decl::Function(f) => {
            let r = emit_decl(st, d, depth);
            if f.is_pub {
                let st1 = note_malformed(st, f.attrs@, f.location@);
                lemma_note_extends(st, f.attrs@, f.location@);
                lemma_extends_refl(st1);
                if r != st1 {
                    assert(r.surface.take(st1.surface.len() as int) =~= st1.surface);
                    assert(r.shared.take(st1.shared.len() as int) =~= st1.shared);
                    assert(r.diagnostics.take(st1.diagnostics.len() as int) =~= st1.diagnostics);
                }
                lemma_extends_trans(st, st1, r);
            }
        },
        Decl::Impl(i) => {
            let st1 = note_malformed(st, i.attrs@, i.location@);
            lemma_note_extends(st, i.attrs@, i.location@);
            if !skipped(i.attrs@) {
                lemma_methods_extend(st1, i.methods@, i.self_ty@);
                lemma_extends_trans(st, st1, emit_decl(st, d, depth));
            }
        },
        Decl::Module(m) => {
            let st1 = note_malformed(st, m.attrs@, m.location@);
            lemma_note_extends(st, m.attrs@, m.location@);
            if !skipped(m.attrs@) {
                if depth == 0 {
                    let r = emit_decl(st, d, depth);
                    assert(r.surface.take(st1.surface.len() as int) =~= st1.surface);
                    assert(r.shared.take(st1.shared.len() as int) =~= st1.shared);
                    assert(r.diagnostics.take(st1.diagnostics.len() as int) =~= st1.diagnostics);
                } else {
                    lemma_items_extend(st1, m.items@, (depth - 1) as nat);
                }
                lemma_extends_trans(st, st1, emit_decl(st, d, depth));
            }
        },
        Decl::Other => {},
    }
}

proof fn lemma_items_extend(st: BindingView, items: Seq<Decl>, depth: nat)
    ensures
        extends(st, emit_items(st, items, depth)),
    decreases depth, items.len() + 1,
{
    if items.len() == 0 {
        lemma_extends_refl(st);
    } else {
        let mid = emit_items(st, items.drop_last(), depth);
        lemma_items_extend(st, items.drop_last(), depth);
        lemma_decl_extends(mid, items.last(), depth);
        lemma_extends_trans(st, mid, emit_items(st, items, depth));
    }
}

proof fn lemma_items_concat(st: BindingView, xs: Seq<Decl>, ys: Seq<Decl>, depth: nat)
    ensures
        emit_items(st, xs + ys, depth) == emit_items(emit_items(st, xs, depth), ys, depth),
    decreases ys.len(),
{
    if ys.len() == 0 {
        assert(xs + ys =~= xs);
    } else {
        assert((xs + ys).drop_last() =~= xs + ys.drop_last());
        assert((xs + ys).last() == ys.last());
        lemma_items_concat(st, xs, ys.drop_last(), depth);
    }
}

/// Declarations are handled in source order: what the declarations `xs` produce comes,
/// unchanged, before anything that the declarations `ys` after them produce.
pub proof fn lemma_order_preserved(st: BindingView, xs: Seq<Decl>, ys: Seq<Decl>, depth: nat)
    ensures
        emit_items(st, xs + ys, depth) == emit_items(emit_items(st, xs, depth), ys, depth),
        extends(emit_items(st, xs, depth), emit_items(st, xs + ys, depth)),
{
    lemma_items_concat(st, xs, ys, depth);
    lemma_items_extend(emit_items(st, xs, depth), ys, depth);
}

/// A struct, enum or free function that is not public produces nothing, whatever its
/// annotations say.
pub proof fn lemma_private_ignored(st: BindingView, d: Decl, depth: nat)
    requires
        (d is Type && !d->Type_0.is_pub) || (d is Function && !d->Function_0.is_pub),
    ensures
        emit_decl(st, d, depth) == st,
{
}

/// A declaration annotated `skip` adds nothing to either buffer, whatever its other
/// options; inside a skipped module or impl block nothing does.
pub proof fn lemma_skip_emits_nothing(st: BindingView, d: Decl, depth: nat)
    requires
        match d {
            Decl::Type(t) => skipped(t.attrs@),
            Decl::Function(f) => skipped(f.attrs@),
            Decl::Impl(i) => skipped(i.attrs@),
            Decl::Module(m) => skipped(m.attrs@),
            Decl::Other => true,
        },
    ensures
        emit_decl(st, d, depth).shared == st.shared,
        emit_decl(st, d, depth).surface == st.surface,
{
}

/// A method annotated `skip` adds nothing to either buffer.
pub proof fn lemma_skipped_method(st: BindingView, f: FnDecl, ty: Seq<char>)
    requires
        skipped(f.attrs@),
    ensures
        emit_method(st, f, ty).shared == st.shared,
        emit_method(st, f, ty).surface == st.surface,
{
}

/// A public annotated struct or enum marked `shared` adds its full definition to the shared
/// buffer only; without `shared` it adds only its opaque declaration, to the surface buffer.
pub proof fn lemma_shared_or_opaque(st: BindingView, t: TypeDecl)
    requires
        t.is_pub,
        meta_of(t.attrs@) is Some,
        !meta_of(t.attrs@)->0.skip,
    ensures
        ({
            let m = meta_of(t.attrs@)->0;
            let r = emit_type(st, t);
            if m.shared {
                r.shared == st.shared + shared_fragment(t, rename_text(m.cxx_name))
                    && r.surface == st.surface
            } else {
                r.surface == st.surface + opaque_fragment(t, rename_text(m.cxx_name))
                    && r.shared == st.shared
            }
        }),
{
}

proof fn lemma_params_start(ps: Seq<Param>, ty: Option<Seq<char>>)
    requires
        ps.len() > 0,
    ensures
        is_prefix(param_text(ps[0], ty), params_text(ps, ty)),
    decreases ps.len(),
{
    let first = param_text(ps[0], ty);
    if ps.len() == 1 {
        assert(params_text(ps, ty).take(first.len() as int) =~= first);
    } else {
        lemma_params_start(ps.drop_last(), ty);
        let prev = params_text(ps.drop_last(), ty);
        assert(params_text(ps, ty).take(first.len() as int) =~= prev.take(first.len() as int));
    }
}

/// In a method signature a receiver taken by mutable reference becomes `self: &mut T`, any
/// other receiver `self: &T`, with `T` the impl block's type, as the first parameter.
pub proof fn lemma_receiver_rewrite(f: FnDecl, ty: Seq<char>, mutable: bool)
    requires
        f.params@.len() > 0,
        f.params@[0] == (Param::Receiver { mutable }),
    ensures
        is_prefix(
            if mutable {
                "self: &mut "@ + ty
            } else {
                "self: &"@ + ty
            },
            params_text(f.params@, Some(ty)),
        ),
{
    lemma_params_start(f.params@, Some(ty));
}

/// A target file laid out as hand-written text, the shared region, hand-written text, the
/// surface region and hand-written text.
pub open spec fn layout(
    pre: Seq<char>,
    x: Seq<char>,
    mid: Seq<char>,
    y: Seq<char>,
    post: Seq<char>,
) -> Seq<char> {
    pre + shared_start() + x + region_end() + mid + surface_start() + y + region_end() + post
}

/// The markers of a file laid out by `layout` are found where the layout puts them: `pre`
/// holds no shared-region start marker, `x` and `y` no end marker, and `pre`, `x` and `mid`
/// no surface-region start marker.
pub open spec fn markers_in_place(pre: Seq<char>, x: Seq<char>, mid: Seq<char>, y: Seq<char>) -> bool {
    &&& find_from(pre + shared_start(), shared_start(), 0) == Some(pre.len() as int)
    &&& find_from(x + region_end(), region_end(), 0) == Some(x.len() as int)
    &&& find_from(
        pre + shared_start() + x + region_end() + mid + surface_start(),
        surface_start(),
        0,
    ) == Some((pre + shared_start() + x + region_end() + mid).len() as int)
    &&& find_from(y + region_end(), region_end(), 0) == Some(y.len() as int)
}

proof fn lemma_indent_start_bounds(s: Seq<char>, lo: int, j: int)
    requires
        lo <= j,
    ensures
        lo <= indent_start(s, lo, j) <= j,
    decreases j - lo,
{
    if lo < j && 0 < j <= s.len() && crate::merge::is_indent(s[j - 1]) {
        lemma_indent_start_bounds(s, lo, j - 1);
    }
}

/// The end marker closing a region holding `x` is the first one after its start.
proof fn lemma_end_found(w: Seq<char>, x: Seq<char>, rest: Seq<char>)
    requires
        find_from(x + region_end(), region_end(), 0) == Some(x.len() as int),
    ensures
        find_from(w + (x + region_end() + rest), region_end(), w.len() as int) == Some(
            (w.len() + x.len()) as int,
        ),
{
    lemma_find_shift(w, x + region_end() + rest, region_end(), 0);
    let t = x + region_end() + rest;
    assert(t.take((x + region_end()).len() as int) =~= x + region_end());
    lemma_find_in_prefix(x + region_end(), t, region_end(), 0);
}

/// A region whose markers stand where expected is located there, with its interior inside it.
proof fn lemma_locate(w: Seq<char>, start: Seq<char>, x: Seq<char>, rest: Seq<char>)
    requires
        find_from(w + start, start, 0) == Some(w.len() as int),
        find_from(x + region_end(), region_end(), 0) == Some(x.len() as int),
    ensures
        ({
            let s = w + start + x + region_end() + rest;
            let r = locate(s, start)->0;
            &&& locate(s, start) is Some
            &&& r.start == w.len()
            &&& (w + start).len() <= r.inner_start <= r.inner_end <= (w + start + x).len()
            &&& r.end == (w + start + x + region_end()).len()
            &&& r.inner_start == line_end(s, (w + start).len() as int, (w + start + x).len() as int)
            &&& r.inner_end == indent_start(s, r.inner_start, (w + start + x).len() as int)
        }),
{
    let s = w + start + x + region_end() + rest;
    assert(s =~= (w + start) + (x + region_end() + rest));
    assert(s.take((w + start).len() as int) =~= w + start);
    lemma_find_in_prefix(w + start, s, start, 0);
    lemma_end_found(w + start, x, rest);
    let after = (w + start).len() as int;
    let j = (w + start + x).len() as int;
    lemma_find_from(s, line_break(), after);
    let p = line_end(s, after, j);
    lemma_indent_start_bounds(s, p, j);
}

/// A merge changes the interiors of the two regions only: the hand-written text before,
/// between and after them, and the marker lines, are kept exactly.
#[verifier::rlimit(40)]
pub proof fn lemma_region_isolation(
    pre: Seq<char>,
    x: Seq<char>,
    mid: Seq<char>,
    y: Seq<char>,
    post: Seq<char>,
    shared: Seq<char>,
    surface: Seq<char>,
)
    requires
        markers_in_place(pre, x, mid, y),
    ensures
        exists|u1: Seq<char>, v1: Seq<char>, u2: Seq<char>, v2: Seq<char>|
            {
                &&& merged(layout(pre, x, mid, y, post), shared, surface) == Ok::<
                    Seq<char>,
                    MergeError,
                >(layout(pre, u1 + interior(shared) + v1, mid, u2 + interior(surface) + v2, post))
                &&& no_line_break(u1) && all_indent(v1)
                &&& no_line_break(u2) && all_indent(v2)
            },
{
    let ss = shared_start();
    let rs = surface_start();
    let end = region_end();
    let c = layout(pre, x, mid, y, post);
    let w2 = pre + ss + x + end + mid;
    assert(c =~= pre + ss + x + end + (mid + rs + y + end + post));
    lemma_locate(pre, ss, x, mid + rs + y + end + post);
    assert(c =~= w2 + rs + y + end + post);
    lemma_locate(w2, rs, y, post);
    let r1 = locate(c, ss)->0;
    let r2 = locate(c, rs)->0;
    let u1 = c.subrange((pre + ss).len() as int, r1.inner_start);
    let v1 = c.subrange(r1.inner_end, (pre + ss + x).len() as int);
    let u2 = c.subrange((w2 + rs).len() as int, r2.inner_start);
    let v2 = c.subrange(r2.inner_end, (w2 + rs + y).len() as int);
    let x2 = u1 + interior(shared) + v1;
    let y2 = u2 + interior(surface) + v2;
    lemma_line_end_clean(c, (pre + ss).len() as int, (pre + ss + x).len() as int);
    lemma_indent_clean(c, r1.inner_start, (pre + ss + x).len() as int);
    lemma_line_end_clean(c, (w2 + rs).len() as int, (w2 + rs + y).len() as int);
    lemma_indent_clean(c, r2.inner_start, (w2 + rs + y).len() as int);
    assert(c.take((pre + ss).len() as int) =~= pre + ss);
    assert(c.subrange((pre + ss + x).len() as int, (w2 + rs).len() as int) =~= end + mid + rs);
    assert(c.skip((w2 + rs + y).len() as int) =~= end + post);
    assert(crate::merge::splice(c, r1, interior(shared), r2, interior(surface)) =~= layout(
        pre,
        x2,
        mid,
        y2,
        post,
    ));
    assert(merged(c, shared, surface) == Ok::<Seq<char>, MergeError>(
        layout(pre, u1 + interior(shared) + v1, mid, u2 + interior(surface) + v2, post),
    ));
    assert(no_line_break(u1) && all_indent(v1) && no_line_break(u2) && all_indent(v2));
}

/// A file without the shared region's start marker is refused, and nothing is produced.
pub proof fn lemma_missing_shared_region(content: Seq<char>, shared: Seq<char>, surface: Seq<char>)
    requires
        find_from(content, shared_start(), 0) is None,
    ensures
        merged(content, shared, surface) == Err::<Seq<char>, MergeError>(
            MergeError::MissingSharedRegion,
        ),
{
}

/// A file without the surface region's start marker is refused, whatever the buffers hold.
pub proof fn lemma_missing_surface_region(content: Seq<char>, shared: Seq<char>, surface: Seq<char>)
    requires
        locate(content, shared_start()) is Some,
        find_from(content, surface_start(), 0) is None,
    ensures
        merged(content, shared, surface) == Err::<Seq<char>, MergeError>(
            MergeError::MissingSurfaceRegion,
        ),
{
}

/// The hand-written text a fresh scaffold puts before its shared region.
pub open spec fn scaffold_head(namespace: Seq<char>) -> Seq<char> {
    "#[cxx::bridge(namespace = \""@ + namespace + "\")]\nmod ffi {\n    // Your custom bindings here\n\n    "@
}

/// The hand-written text a fresh scaffold puts between its two regions.
pub open spec fn scaffold_middle() -> Seq<char> {
    "\n\n    ext"@ + "ern \"Rust\" {\n        // Your custom bindings here\n\n        "@
}

pub open spec fn scaffold_tail() -> Seq<char> {
    "\n    }\n}\n"@
}

proof fn lemma_blank_then_end(ws: Seq<char>)
    requires
        forall|k: int| 0 <= k < ws.len() ==> ws[k] == ' ' || ws[k] == '\n',
    ensures
        find_from(ws + region_end(), region_end(), 0) == Some(ws.len() as int),
{
    reveal_strlit("// #endregion");
    let s = ws + region_end();
    let n = region_end().len();
    assert forall|k: int| 0 <= k < ws.len() implies !matches_at(s, region_end(), k) by {
        if matches_at(s, region_end(), k) {
            assert(s.subrange(k, k + n)[0] == region_end()[0]);
        }
    }
    assert(s.subrange(ws.len() as int, (ws.len() + n) as int) =~= region_end());
    lemma_find_first(s, region_end(), 0, ws.len() as int);
}

/// A fresh scaffold holds both regions, empty, and the namespace; merging buffers into it
/// fills the two regions and keeps every other part of the scaffold once and as it was.
/// The namespace holds no region start marker.
pub proof fn lemma_scaffold_then_populate(namespace: Seq<char>, shared: Seq<char>, surface: Seq<char>)
    requires
        find_from(scaffold_head(namespace) + shared_start(), shared_start(), 0) == Some(
            scaffold_head(namespace).len() as int,
        ),
        find_from(
            scaffold_head(namespace) + shared_start() + ("\n\n    "@ + "\n\n    "@) + region_end()
                + scaffold_middle() + surface_start(),
            surface_start(),
            0,
        ) == Some(
            (scaffold_head(namespace) + shared_start() + ("\n\n    "@ + "\n\n    "@)
                + region_end() + scaffold_middle()).len() as int,
        ),
    ensures
        scaffold_text(namespace, Seq::empty(), Seq::empty()) == layout(
            scaffold_head(namespace),
            "\n\n    "@ + "\n\n    "@,
            scaffold_middle(),
            "\n\n        "@ + "\n\n        "@,
            scaffold_tail(),
        ),
        exists|u1: Seq<char>, v1: Seq<char>, u2: Seq<char>, v2: Seq<char>|
            merged(scaffold_text(namespace, Seq::empty(), Seq::empty()), shared, surface) == Ok::<
                Seq<char>,
                MergeError,
            >(
                layout(
                    scaffold_head(namespace),
                    u1 + interior(shared) + v1,
                    scaffold_middle(),
                    u2 + interior(surface) + v2,
                    scaffold_tail(),
                ),
            ),
{
    reveal_strlit("\n\n    ");
    reveal_strlit("\n\n        ");
    let a = "\n\n    "@ + "\n\n    "@;
    let b = "\n\n        "@ + "\n\n        "@;
    lemma_blank_then_end(a);
    lemma_blank_then_end(b);
    assert(scaffold_text(namespace, Seq::empty(), Seq::empty()) =~= layout(
        scaffold_head(namespace),
        a,
        scaffold_middle(),
        b,
        scaffold_tail(),
    ));
    lemma_region_isolation(scaffold_head(namespace), a, scaffold_middle(), b, scaffold_tail(), shared, surface);
}

pub open spec fn same_buffers(a: BindingView, b: BindingView) -> bool {
    a.shared == b.shared && a.surface == b.surface
}

proof fn lemma_methods_same(st1: BindingView, st2: BindingView, ms: Seq<FnDecl>, ty: Seq<char>)
    requires
        same_buffers(st1, st2),
    ensures
        same_buffers(emit_methods(st1, ms, ty), emit_methods(st2, ms, ty)),
    decreases ms.len(),
{
    if ms.len() > 0 {
        lemma_methods_same(st1, st2, ms.drop_last(), ty);
    }
}

proof fn lemma_decl_same(st1: BindingView, st2: BindingView, d: Decl, depth: nat)
    requires
        same_buffers(st1, st2),
    ensures
        same_buffers(emit_decl(st1, d, depth), emit_decl(st2, d, depth)),
    decreases depth, 0nat,
{
    match d {
        Decl::Impl(i) => {
            let a = note_malformed(st1, i.attrs@, i.location@);
            let b = note_malformed(st2, i.attrs@, i.location@);
            lemma_methods_same(a, b, i.methods@, i.self_ty@);
        },
        Decl::Module(m) => {
            if depth > 0 {
                let a = note_malformed(st1, m.attrs@, m.location@);
                let b = note_malformed(st2, m.attrs@, m.location@);
                lemma_items_same(a, b, m.items@, (depth - 1) as nat);
            }
        },
        _ => {},
    }
}

proof fn lemma_items_same(st1: BindingView, st2: BindingView, items: Seq<Decl>, depth: nat)
    requires
        same_buffers(st1, st2),
    ensures
        same_buffers(emit_items(st1, items, depth), emit_items(st2, items, depth)),
    decreases depth, items.len() + 1,
{
    if items.len() > 0 {
        lemma_items_same(st1, st2, items.drop_last(), depth);
        lemma_decl_same(
            emit_items(st1, items.drop_last(), depth),
            emit_items(st2, items.drop_last(), depth),
            items.last(),
            depth,
        );
    }
}

/// Generating twice from the same declarations, starting from equal buffers, gives equal
/// buffers, whatever diagnostics either run started with.
pub proof fn lemma_generation_repeatable(st1: BindingView, st2: BindingView, items: Seq<Decl>)
    requires
        same_buffers(st1, st2),
    ensures
        scan(st1, items).shared == scan(st2, items).shared,
        scan(st1, items).surface == scan(st2, items).surface,
{
    lemma_items_same(st1, st2, items, crate::scan::MAX_MODULE_DEPTH as nat);
}

pub open spec fn no_line_break(u: Seq<char>) -> bool {
    forall|k: int| 0 <= k < u.len() ==> u[k] != '\n'
}

pub open spec fn all_indent(v: Seq<char>) -> bool {
    forall|k: int| 0 <= k < v.len() ==> crate::merge::is_indent(v[k])
}

proof fn lemma_line_break_at(s: Seq<char>, k: int)
    ensures
        matches_at(s, line_break(), k) <==> (0 <= k < s.len() && s[k] == '\n'),
{
    reveal_strlit("\n");
    if 0 <= k < s.len() {
        if s[k] == '\n' {
            assert(s.subrange(k, k + 1) =~= line_break());
        } else if matches_at(s, line_break(), k) {
            assert(s.subrange(k, k + 1)[0] == line_break()[0]);
        }
    }
}

/// The text from `after` to the end of the start-marker line holds no line break.
proof fn lemma_line_end_clean(s: Seq<char>, after: int, j: int)
    requires
        0 <= after <= j <= s.len(),
    ensures
        after <= line_end(s, after, j) <= j,
        no_line_break(s.subrange(after, line_end(s, after, j))),
        line_end(s, after, j) < j ==> s[line_end(s, after, j)] == '\n',
{
    lemma_find_from(s, line_break(), after);
    let p = line_end(s, after, j);
    assert forall|k: int| 0 <= k < p - after implies s.subrange(after, p)[k] != '\n' by {
        lemma_line_break_at(s, after + k);
    }
    if p < j {
        lemma_line_break_at(s, p);
    }
}

/// The indentation found before `j` is indentation only, and nothing before it is.
proof fn lemma_indent_clean(s: Seq<char>, lo: int, j: int)
    requires
        0 <= lo <= j <= s.len(),
    ensures
        lo <= indent_start(s, lo, j) <= j,
        all_indent(s.subrange(indent_start(s, lo, j), j)),
    decreases j - lo,
{
    if lo < j && crate::merge::is_indent(s[j - 1]) {
        lemma_indent_clean(s, lo, j - 1);
        let q = indent_start(s, lo, j - 1);
        assert forall|k: int| 0 <= k < j - q implies crate::merge::is_indent(
            #[trigger] s.subrange(q, j)[k],
        ) by {
            if k < j - 1 - q {
                assert(s.subrange(q, j)[k] == s.subrange(q, j - 1)[k]);
            }
        }
    }
}

/// Indentation that follows a non-indentation character is found whole.
proof fn lemma_indent_exact(s: Seq<char>, lo: int, k: int, j: int)
    requires
        0 <= lo <= k <= j <= s.len(),
        forall|t: int| k <= t < j ==> crate::merge::is_indent(s[t]),
        k == lo || !crate::merge::is_indent(s[k - 1]),
    ensures
        indent_start(s, lo, j) == k,
    decreases j - k,
{
    if k < j {
        lemma_indent_exact(s, lo, k, j - 1);
    }
}

/// A region that a merge has filled is located with the same interior again.
proof fn lemma_locate_filled(
    w: Seq<char>,
    start: Seq<char>,
    u: Seq<char>,
    buffer: Seq<char>,
    v: Seq<char>,
    rest: Seq<char>,
)
    requires
        find_from(w + start, start, 0) == Some(w.len() as int),
        find_from(u + interior(buffer) + v + region_end(), region_end(), 0) == Some(
            (u + interior(buffer) + v).len() as int,
        ),
        no_line_break(u),
        all_indent(v),
    ensures
        ({
            let s = w + start + (u + interior(buffer) + v) + region_end() + rest;
            let r = locate(s, start)->0;
            &&& locate(s, start) is Some
            &&& r.start == w.len()
            &&& r.inner_start == (w + start + u).len()
            &&& r.inner_end == (w + start + u + interior(buffer)).len()
            &&& r.end == (w + start + (u + interior(buffer) + v) + region_end()).len()
        }),
{
    reveal_strlit("\n");
    let x = u + interior(buffer) + v;
    let s = w + start + x + region_end() + rest;
    lemma_locate(w, start, x, rest);
    let after = (w + start).len() as int;
    let j = (w + start + x).len() as int;
    let p = after + u.len();
    assert(s[p] == '\n');
    lemma_line_break_at(s, p);
    assert forall|k: int| after <= k < p implies !matches_at(s, line_break(), k) by {
        lemma_line_break_at(s, k);
        assert(s[k] == u[k - after]);
    }
    lemma_find_first(s, line_break(), after, p);
    let q = p + interior(buffer).len();
    assert(s[q - 1] == '\n');
    assert forall|t: int| q <= t < j implies crate::merge::is_indent(s[t]) by {
        assert(s[t] == v[t - q]);
    }
    lemma_indent_exact(s, p, q, j);
}

/// Merging the same buffers into a file a merge has filled leaves it unchanged. The
/// regions' first lines carry no line break, their end-marker lines only indentation before
/// the marker, and the markers stand where the layout puts them.
pub proof fn lemma_merge_idempotent(
    pre: Seq<char>,
    u1: Seq<char>,
    v1: Seq<char>,
    mid: Seq<char>,
    u2: Seq<char>,
    v2: Seq<char>,
    post: Seq<char>,
    shared: Seq<char>,
    surface: Seq<char>,
)
    requires
        no_line_break(u1) && all_indent(v1),
        no_line_break(u2) && all_indent(v2),
        markers_in_place(
            pre,
            u1 + interior(shared) + v1,
            mid,
            u2 + interior(surface) + v2,
        ),
    ensures
        ({
            let once = layout(pre, u1 + interior(shared) + v1, mid, u2 + interior(surface) + v2, post);
            merged(once, shared, surface) == Ok::<Seq<char>, MergeError>(once)
        }),
{
    let ss = shared_start();
    let rs = surface_start();
    let end = region_end();
    let x = u1 + interior(shared) + v1;
    let y = u2 + interior(surface) + v2;
    let c = layout(pre, x, mid, y, post);
    let w2 = pre + ss + x + end + mid;
    assert(c =~= pre + ss + x + end + (mid + rs + y + end + post));
    lemma_locate_filled(pre, ss, u1, shared, v1, mid + rs + y + end + post);
    assert(c =~= w2 + rs + y + end + post);
    lemma_locate_filled(w2, rs, u2, surface, v2, post);
    let r1 = locate(c, ss)->0;
    let r2 = locate(c, rs)->0;
    assert(crate::merge::splice(c, r1, interior(shared), r2, interior(surface)) =~= c);
}

/// An impl block's buffers are those of the same block without any one method annotated
/// `skip`.
pub proof fn lemma_skipped_method_removed(st: BindingView, ms: Seq<FnDecl>, k: int, ty: Seq<char>)
    requires
        0 <= k < ms.len(),
        skipped(ms[k].attrs@),
    ensures
        same_buffers(emit_methods(st, ms, ty), emit_methods(st, ms.remove(k), ty)),
    decreases ms.len(),
{
    if k == ms.len() - 1 {
        assert(ms.remove(k) =~= ms.drop_last());
    } else {
        assert(ms.remove(k).drop_last() =~= ms.drop_last().remove(k));
        assert(ms.remove(k).last() == ms.last());
        lemma_skipped_method_removed(st, ms.drop_last(), k, ty);
    }
}

} // verus!
