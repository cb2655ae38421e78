use vstd::prelude::*;

verus! {

/// What a diagnostic reports.
#[derive(PartialEq, Eq, Structural, Clone, Copy, Debug)]
pub enum DiagnosticKind {
    /// A bridging annotation whose option list the grammar rejects.
    MalformedAnnotation,
    /// A free function marked `shared`.
    SharedFunction,
    /// A module nested deeper than the scanner follows.
    NestingTooDeep,
}

/// A configuration problem found at a declaration; the run goes on without it.
pub struct Diagnostic {
    pub kind: DiagnosticKind,
    pub location: String,
}

/// The two text buffers of one generation pass, and the diagnostics met on the way.
pub struct BindingState {
    /// Full type definitions of shared structs and enums.
    pub shared: String,
    /// Opaque types and function signatures.
    pub rust_bindings: String,
    pub diagnostics: Vec<Diagnostic>,
}

/// The mathematical value of [`BindingState`].
pub struct BindingView {
    pub shared: Seq<char>,
    pub surface: Seq<char>,
    pub diagnostics: Seq<(DiagnosticKind, Seq<char>)>,
}

impl View for BindingState {
    type V = BindingView;

    open spec fn view(&self) -> BindingView {
        BindingView {
            shared: self.shared@,
            surface: self.rust_bindings@,
            diagnostics: self.diagnostics@.map_values(|d: Diagnostic| (d.kind, d.location@)),
        }
    }
}

pub open spec fn empty_bindings() -> BindingView {
    BindingView { shared: Seq::empty(), surface: Seq::empty(), diagnostics: Seq::empty() }
}

impl Default for BindingState {
    fn default() -> (r: Self)
        ensures
            r@ == empty_bindings(),
    {
        let r = BindingState { shared: String::new(), rust_bindings: String::new(), diagnostics: Vec::new() };
        assert(r@.diagnostics =~= Seq::<(DiagnosticKind, Seq<char>)>::empty());
        r
    }
}

impl BindingState {
    pub fn push_shared(&mut self, fragment: &String)
        ensures
            final(self)@ == (BindingView { shared: old(self)@.shared + fragment@, ..old(self)@ }),
    {
        self.shared.append(fragment.as_str());
    }

    pub fn push_surface(&mut self, fragment: &String)
        ensures
            final(self)@ == (BindingView { surface: old(self)@.surface + fragment@, ..old(self)@ }),
    {
        self.rust_bindings.append(fragment.as_str());
    }

    pub fn report(&mut self, kind: DiagnosticKind, location: &String)
        ensures
            final(self)@ == (BindingView {
                diagnostics: old(self)@.diagnostics.push((kind, location@)),
                ..old(self)@
            }),
    {
        let d = Diagnostic { kind, location: location.clone() };
        self.diagnostics.push(d);
        assert(self@.diagnostics =~= old(self)@.diagnostics.push((kind, location@)));
    }
}

} // verus!
