use vstd::prelude::*;

use crate::binding_state::BindingState;
use crate::decl::Decl;
use crate::merge::{
    merge_regions, merged, merged_view, region_end, shared_start, surface_start, MergeError,
};
use crate::scan::{generate_items_within, scan, MAX_MODULE_DEPTH};

verus! {

/// Configuration of one bridge: the target file, the namespace of its scaffold and the
/// feature flags the library is expanded with.
pub struct BridgeBuilder {
    output_file: String,
    namespace: String,
    features: Vec<String>,
}

/// The scaffold of a target file, with both buffers already in their regions.
pub open spec fn scaffold_text(namespace: Seq<char>, shared: Seq<char>, surface: Seq<char>) -> Seq<
    char,
> {
    "#[cxx::bridge(namespace = \""@ + namespace + "\")]\nmod ffi {\n    // Your custom bindings here\n\n    "@
        + shared_start() + "\n\n    "@ + shared + "\n\n    "@ + region_end() + "\n\n    ext"@
        + "ern \"Rust\" {\n        // Your custom bindings here\n\n        "@ + surface_start()
        + "\n\n        "@ + surface + "\n\n        "@ + region_end() + "\n    }\n}\n"@
}

/// Writes a fresh target file's text.
pub fn scaffold(namespace: &str, shared: &str, surface: &str) -> (r: String)
    ensures
        r@ == scaffold_text(namespace@, shared@, surface@),
{
    let mut out = String::from_str("#[cxx::bridge(namespace = \"");
    out.append(namespace);
    out.append("\")]\nmod ffi {\n    // Your custom bindings here\n\n    ");
    out.append("// #region \"cxx-bridge-generated-shared\"");
    out.append("\n\n    ");
    out.append(shared);
    out.append("\n\n    ");
    out.append("// #endregion");
    out.append("\n\n    ext");
    out.append("ern \"Rust\" {\n        // Your custom bindings here\n\n        ");
    out.append("// #region \"cxx-bridge-generated-rust\"");
    out.append("\n\n        ");
    out.append(surface);
    out.append("\n\n        ");
    out.append("// #endregion");
    out.append("\n    }\n}\n");
    out
}

/// Starts the configuration of a bridge written to `ffi_destination_file`.
pub fn bridge(ffi_destination_file: &str) -> (r: BridgeBuilder)
    ensures
        r@ == (BuilderView {
            output_file: ffi_destination_file@,
            namespace: Seq::empty(),
            features: Seq::empty(),
        }),
{
    let r = BridgeBuilder {
        output_file: String::from_str(ffi_destination_file),
        namespace: String::new(),
        features: Vec::new(),
    };
    assert(r@.features =~= Seq::<Seq<char>>::empty());
    r
}

/// The mathematical value of [`BridgeBuilder`].
pub struct BuilderView {
    pub output_file: Seq<char>,
    pub namespace: Seq<char>,
    pub features: Seq<Seq<char>>,
}

impl View for BridgeBuilder {
    type V = BuilderView;

    closed spec fn view(&self) -> BuilderView {
        BuilderView {
            output_file: self.output_file@,
            namespace: self.namespace@,
            features: self.features@.map_values(|f: String| f@),
        }
    }
}

impl BridgeBuilder {
    /// Sets the namespace written into a fresh scaffold.
    pub fn namespace(self, namespace: String) -> (r: Self)
        ensures
            r@ == (BuilderView { namespace: namespace@, ..self@ }),
    {
        BridgeBuilder { namespace, ..self }
    }

    /// Adds one feature flag to expand the library with.
    pub fn feature(self, feature: String) -> (r: Self)
        ensures
            r@ == (BuilderView { features: self@.features.push(feature@), ..self@ }),
    {
        let mut b = self;
        let ghost before = b.features@;
        b.features.push(feature);
        assert(b.features@.map_values(|f: String| f@) =~= before.map_values(|f: String| f@).push(
            feature@,
        ));
        b
    }

    /// Adds feature flags, in order, to expand the library with.
    pub fn features(self, features: Vec<String>) -> (r: Self)
        ensures
            r@ == (BuilderView {
                features: self@.features + features@.map_values(|f: String| f@),
                ..self@
            }),
    {
        let mut b = self;
        let mut more = features;
        let ghost before = b.features@;
        b.features.append(&mut more);
        assert(b.features@.map_values(|f: String| f@) =~= before.map_values(|f: String| f@)
            + features@.map_values(|f: String| f@));
        b
    }

    pub fn output_file(&self) -> (r: &String)
        ensures
            r@ == self@.output_file,
    {
        &self.output_file
    }

    pub fn namespace_name(&self) -> (r: &String)
        ensures
            r@ == self@.namespace,
    {
        &self.namespace
    }

    pub fn feature_list(&self) -> (r: &Vec<String>)
        ensures
            r@.map_values(|f: String| f@) == self@.features,
    {
        &self.features
    }

    /// Runs the declaration scanner over the expanded library's top-level declarations.
    pub fn generate_items(&self, items: &Vec<Decl>, bindings: &mut BindingState)
        ensures
            final(bindings)@ == scan(old(bindings)@, items@),
    {
        generate_items_within(items, MAX_MODULE_DEPTH, bindings);
    }

    /// The new text of the target file: a fresh scaffold when there is none yet, else the
    /// existing text with both regions replaced.
    pub fn update_or_create_file(&self, existing: Option<&str>, bindings: &BindingState) -> (r:
        Result<String, MergeError>)
        ensures
            merged_view(r) == match existing {
                None => Ok(scaffold_text(self@.namespace, bindings@.shared, bindings@.surface)),
                Some(c) => merged(c@, bindings@.shared, bindings@.surface),
            },
    {
        match existing {
            None => Ok(
                scaffold(self.namespace.as_str(), bindings.shared.as_str(), bindings.rust_bindings.as_str()),
            ),
            Some(c) => merge_regions(c, bindings.shared.as_str(), bindings.rust_bindings.as_str()),
        }
    }
}

} // verus!
