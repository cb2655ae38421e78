use vstd::prelude::*;

use crate::binding_state::{BindingState, BindingView, DiagnosticKind};
use crate::decl::{Decl, FnDecl, ImplDecl, ModDecl, TypeDecl};
use crate::meta::{has_malformed, has_malformed_bridge, meta_of, rename_text, Attr, CxxBindgenMeta};
use crate::render::{fn_fragment, opaque_fragment, render_fn, render_opaque, render_shared, shared_fragment};

verus! {

/// How deep the scanner follows nested modules.
pub const MAX_MODULE_DEPTH: usize = 64;

pub open spec fn with_shared(st: BindingView, text: Seq<char>) -> BindingView {
    BindingView { shared: st.shared + text, ..st }
}

pub open spec fn with_surface(st: BindingView, text: Seq<char>) -> BindingView {
    BindingView { surface: st.surface + text, ..st }
}

pub open spec fn with_diagnostic(st: BindingView, kind: DiagnosticKind, loc: Seq<char>) -> BindingView {
    BindingView { diagnostics: st.diagnostics.push((kind, loc)), ..st }
}

/// Reports a rejected bridging annotation, if the declaration has one.
pub open spec fn note_malformed(st: BindingView, attrs: Seq<Attr>, loc: Seq<char>) -> BindingView {
    if has_malformed(attrs) {
        with_diagnostic(st, DiagnosticKind::MalformedAnnotation, loc)
    } else {
        st
    }
}

/// A public, annotated, not skipped struct or enum: its full definition goes to the shared
/// buffer when it is marked `shared`, its opaque declaration to the surface buffer otherwise.
pub open spec fn emit_type(st: BindingView, t: TypeDecl) -> BindingView {
    if !t.is_pub {
        st
    } else {
        let st1 = note_malformed(st, t.attrs@, t.location@);
        match meta_of(t.attrs@) {
            None => st1,
            Some(m) => if m.skip {
                st1
            } else if m.shared {
                with_shared(st1, shared_fragment(t, rename_text(m.cxx_name)))
            } else {
                with_surface(st1, opaque_fragment(t, rename_text(m.cxx_name)))
            },
        }
    }
}

/// A public, annotated, not skipped free function: its signature goes to the surface buffer;
/// one marked `shared` is reported instead.
pub open spec fn emit_function(st: BindingView, f: FnDecl) -> BindingView {
    if !f.is_pub {
        st
    } else {
        let st1 = note_malformed(st, f.attrs@, f.location@);
        match meta_of(f.attrs@) {
            None => st1,
            Some(m) => if m.skip {
                st1
            } else if m.shared {
                with_diagnostic(st1, DiagnosticKind::SharedFunction, f.location@)
            } else {
                with_surface(st1, fn_fragment(f, rename_text(m.cxx_name), None))
            },
        }
    }
}

/// A public method that is not skipped: its signature, receiver rewritten, goes to the
/// surface buffer.
pub open spec fn emit_method(st: BindingView, f: FnDecl, self_ty: Seq<char>) -> BindingView {
    if !f.is_pub {
        st
    } else {
        let st1 = note_malformed(st, f.attrs@, f.location@);
        match meta_of(f.attrs@) {
            None => with_surface(st1, fn_fragment(f, Seq::empty(), Some(self_ty))),
            Some(m) => if m.skip {
                st1
            } else {
                with_surface(st1, fn_fragment(f, rename_text(m.cxx_name), Some(self_ty)))
            },
        }
    }
}

pub open spec fn emit_methods(st: BindingView, ms: Seq<FnDecl>, self_ty: Seq<char>) -> BindingView
    decreases ms.len(),
{
    if ms.len() == 0 {
        st
    } else {
        emit_method(emit_methods(st, ms.drop_last(), self_ty), ms.last(), self_ty)
    }
}

pub open spec fn skipped(attrs: Seq<Attr>) -> bool {
    match meta_of(attrs) {
        Some(m) => m.skip,
        None => false,
    }
}

/// An impl block not skipped: each of its methods in turn.
pub open spec fn emit_impl(st: BindingView, i: ImplDecl) -> BindingView {
    let st1 = note_malformed(st, i.attrs@, i.location@);
    if skipped(i.attrs@) {
        st1
    } else {
        emit_methods(st1, i.methods@, i.self_ty@)
    }
}

/// The declarations in order, modules followed down to `depth` more levels.
pub open spec fn emit_items(st: BindingView, items: Seq<Decl>, depth: nat) -> BindingView
    decreases depth, items.len() + 1,
{
    if items.len() == 0 {
        st
    } else {
        emit_decl(emit_items(st, items.drop_last(), depth), items.last(), depth)
    }
}

pub open spec fn emit_decl(st: BindingView, d: Decl, depth: nat) -> BindingView
    decreases depth, 0nat,
{
    match d {
        Decl::Type(t) => emit_type(st, t),
        Decl::Function(f) => emit_function(st, f),
        Decl::Impl(i) => emit_impl(st, i),
        Decl::Module(m) => {
            let st1 = note_malformed(st, m.attrs@, m.location@);
            if skipped(m.attrs@) {
                st1
            } else if depth == 0 {
                with_diagnostic(st1, DiagnosticKind::NestingTooDeep, m.location@)
            } else {
                emit_items(st1, m.items@, (depth - 1) as nat)
            }
        },
        Decl::Other => st,
    }
}

/// What one generation pass appends for `items`.
pub open spec fn scan(st: BindingView, items: Seq<Decl>) -> BindingView {
    emit_items(st, items, MAX_MODULE_DEPTH as nat)
}

fn note_malformed_exec(attrs: &Vec<Attr>, location: &String, bindings: &mut BindingState)
    ensures
        final(bindings)@ == note_malformed(old(bindings)@, attrs@, location@),
{
    if has_malformed_bridge(attrs) {
        bindings.report(DiagnosticKind::MalformedAnnotation, location);
    }
}

fn is_skipped(meta: &Option<CxxBindgenMeta>) -> (r: bool)
    ensures
        r == match meta {
            Some(m) => m.skip,
            None => false,
        },
{
    match meta {
        Some(m) => m.skip,
        None => false,
    }
}

pub fn generate_ffi_type(item: &TypeDecl, bindings: &mut BindingState)
    ensures
        final(bindings)@ == emit_type(old(bindings)@, *item),
{
    if !item.is_pub {
        return;
    }
    note_malformed_exec(&item.attrs, &item.location, bindings);
    if let Some(meta) = CxxBindgenMeta::is_processed(&item.attrs) {
        if meta.skip {
            return;
        }
        let rename = meta.cxx_name();
        if meta.shared {
            let text = render_shared(item, &rename);
            bindings.push_shared(&text);
        } else {
            let text = render_opaque(item, &rename);
            bindings.push_surface(&text);
        }
    }
}

pub fn generate_ffi_function(item: &FnDecl, bindings: &mut BindingState)
    ensures
        final(bindings)@ == emit_function(old(bindings)@, *item),
{
    if !item.is_pub {
        return;
    }
    note_malformed_exec(&item.attrs, &item.location, bindings);
    if let Some(meta) = CxxBindgenMeta::is_processed(&item.attrs) {
        if meta.skip {
            return;
        }
        if meta.shared {
            bindings.report(DiagnosticKind::SharedFunction, &item.location);
            return;
        }
        let rename = meta.cxx_name();
        let text = render_fn(item, &rename, None);
        bindings.push_surface(&text);
    }
}

pub fn generate_ffi_impl_function(item: &FnDecl, self_ty: &String, bindings: &mut BindingState)
    ensures
        final(bindings)@ == emit_method(old(bindings)@, *item, self_ty@),
{
    if !item.is_pub {
        return;
    }
    note_malformed_exec(&item.attrs, &item.location, bindings);
    let meta = CxxBindgenMeta::is_processed(&item.attrs);
    let rename = match &meta {
        Some(m) => {
            if m.skip {
                return;
            }
            m.cxx_name()
        },
        None => String::new(),
    };
    let text = render_fn(item, &rename, Some(self_ty));
    bindings.push_surface(&text);
}

pub fn generate_ffi_impl(item: &ImplDecl, bindings: &mut BindingState)
    ensures
        final(bindings)@ == emit_impl(old(bindings)@, *item),
{
    note_malformed_exec(&item.attrs, &item.location, bindings);
    let meta = CxxBindgenMeta::is_processed(&item.attrs);
    if is_skipped(&meta) {
        return;
    }
    let ghost start = bindings@;
    let n = item.methods.len();
    for i in 0..n
        invariant
            n == item.methods@.len(),
            bindings@ == emit_methods(start, item.methods@.take(i as int), item.self_ty@),
    {
        assert(item.methods@.take(i + 1).drop_last() =~= item.methods@.take(i as int));
        generate_ffi_impl_function(&item.methods[i], &item.self_ty, bindings);
    }
    assert(item.methods@.take(n as int) =~= item.methods@);
}

fn generate_module(item: &ModDecl, depth: usize, bindings: &mut BindingState)
    ensures
        final(bindings)@ == emit_decl(old(bindings)@, Decl::Module(*item), depth as nat),
    decreases depth, 1nat,
{
    note_malformed_exec(&item.attrs, &item.location, bindings);
    let meta = CxxBindgenMeta::is_processed(&item.attrs);
    if is_skipped(&meta) {
        return;
    }
    if depth == 0 {
        bindings.report(DiagnosticKind::NestingTooDeep, &item.location);
        return;
    }
    generate_items_within(&item.items, depth - 1, bindings);
}

/// Visits `items` in source order, following nested modules down to `depth` more levels.
pub fn generate_items_within(items: &Vec<Decl>, depth: usize, bindings: &mut BindingState)
    ensures
        final(bindings)@ == emit_items(old(bindings)@, items@, depth as nat),
    decreases depth, 2nat,
{
    let ghost start = bindings@;
    let n = items.len();
    for i in 0..n
        invariant
            n == items@.len(),
            bindings@ == emit_items(start, items@.take(i as int), depth as nat),
    {
        assert(items@.take(i + 1).drop_last() =~= items@.take(i as int));
        assert(items@.take(i + 1).last() == items@[i as int]);
        assert(emit_items(start, items@.take(i + 1), depth as nat) == emit_decl(
            emit_items(start, items@.take(i as int), depth as nat),
            items@[i as int],
            depth as nat,
        ));
        match &items[i] {
            Decl::Type(t) => generate_ffi_type(t, bindings),
            Decl::Function(f) => generate_ffi_function(f, bindings),
            Decl::Impl(b) => generate_ffi_impl(b, bindings),
            Decl::Module(m) => generate_module(m, depth, bindings),
            Decl::Other => {},
        }
    }
    assert(items@.take(n as int) =~= items@);
}

} // verus!
