use vstd::prelude::*;

verus! {

/// The value part of one option inside a bridging annotation.
pub enum OptionValue {
    /// A bare flag: `skip`.
    Flag,
    /// A key with a string literal: `cxx_name = "Foo"`.
    Text(String),
    /// Anything else after the key (a non-literal value, trailing tokens).
    Malformed,
}

/// One entry of the option list of a bridging annotation.
pub struct MetaOption {
    pub key: String,
    pub value: OptionValue,
}

/// An annotation attached to a declaration.
pub struct Attr {
    /// The annotation's path as written, e.g. `doc` or `cxx_bindgen::cxx_bindgen_meta`.
    pub path: String,
    /// The nested option list; only read for bridging annotations.
    pub options: Vec<MetaOption>,
    /// The annotation rendered as source text, kept verbatim for doc comments.
    pub text: String,
}

/// Bridging options of one declaration.
pub struct CxxBindgenMeta {
    pub skip: bool,
    pub shared: bool,
    pub cxx_name: Option<String>,
}

/// The mathematical value of [`CxxBindgenMeta`].
pub struct MetaView {
    pub skip: bool,
    pub shared: bool,
    pub cxx_name: Option<Seq<char>>,
}

impl View for CxxBindgenMeta {
    type V = MetaView;

    open spec fn view(&self) -> MetaView {
        MetaView {
            skip: self.skip,
            shared: self.shared,
            cxx_name: match self.cxx_name {
                Some(n) => Some(n@),
                None => None,
            },
        }
    }
}

pub open spec fn bridge_path() -> Seq<char> {
    "cxx_bindgen::cxx_bindgen_meta"@
}

pub open spec fn doc_path() -> Seq<char> {
    "doc"@
}

pub open spec fn is_bridge_attr(a: Attr) -> bool {
    a.path@ == bridge_path()
}

pub open spec fn is_doc_attr(a: Attr) -> bool {
    a.path@ == doc_path()
}

pub open spec fn empty_meta() -> MetaView {
    MetaView { skip: false, shared: false, cxx_name: None }
}

/// The effect of one option on the metadata; `None` for an option the grammar rejects.
pub open spec fn apply_option(m: MetaView, o: MetaOption) -> Option<MetaView> {
    if o.key@ == "skip"@ && o.value is Flag {
        Some(MetaView { skip: true, ..m })
    } else if o.key@ == "shared"@ && o.value is Flag {
        Some(MetaView { shared: true, ..m })
    } else if o.key@ == "cxx_name"@ && o.value is Text {
        Some(MetaView { cxx_name: Some(o.value->Text_0@), ..m })
    } else {
        None
    }
}

/// The metadata that an option list describes, or `None` if any option is rejected.
pub open spec fn parse_options(opts: Seq<MetaOption>) -> Option<MetaView>
    decreases opts.len(),
{
    if opts.len() == 0 {
        Some(empty_meta())
    } else {
        match parse_options(opts.drop_last()) {
            None => None,
            Some(m) => apply_option(m, opts.last()),
        }
    }
}

/// The metadata of the first well-formed bridging annotation in the list.
pub open spec fn meta_of(attrs: Seq<Attr>) -> Option<MetaView>
    decreases attrs.len(),
{
    if attrs.len() == 0 {
        None
    } else if is_bridge_attr(attrs[0]) && parse_options(attrs[0].options@) is Some {
        parse_options(attrs[0].options@)
    } else {
        meta_of(attrs.drop_first())
    }
}

/// Whether some bridging annotation in the list has an option list the grammar rejects.
pub open spec fn has_malformed(attrs: Seq<Attr>) -> bool {
    exists|i: int|
        0 <= i < attrs.len() && is_bridge_attr(#[trigger] attrs[i]) && parse_options(
            attrs[i].options@,
        ) is None
}

/// How a character is written inside a string literal.
pub open spec fn escape_char(c: char) -> Seq<char> {
    if c == '"' {
        "\\\""@
    } else if c == '\\' {
        "\\\\"@
    } else if c == '\n' {
        "\\n"@
    } else if c == '\r' {
        "\\r"@
    } else if c == '\t' {
        "\\t"@
    } else if c == '\0' {
        "\\0"@
    } else {
        seq![c]
    }
}

/// The body of a string literal that holds `s`.
pub open spec fn escaped(s: Seq<char>) -> Seq<char>
    decreases s.len(),
{
    if s.len() == 0 {
        Seq::empty()
    } else {
        escaped(s.drop_last()) + escape_char(s.last())
    }
}

/// The rename annotation that metadata asks for, as text (empty without a rename).
pub open spec fn rename_text(name: Option<Seq<char>>) -> Seq<char> {
    match name {
        Some(n) => "#[cxx_name = \""@ + escaped(n) + "\"] "@,
        None => Seq::empty(),
    }
}

pub fn text_eq(a: &String, b: &str) -> (r: bool)
    ensures
        r == (a@ == b@),
{
    let b = String::from_str(b);
    *a == b
}

fn clone_string(s: &String) -> (r: String)
    ensures
        r@ == s@,
{
    s.clone()
}

pub open spec fn opt_meta_view(m: Option<CxxBindgenMeta>) -> Option<MetaView> {
    match m {
        Some(x) => Some(x@),
        None => None,
    }
}

/// Once an option list is rejected, no longer list that starts with it is accepted.
proof fn lemma_rejected_prefix(opts: Seq<MetaOption>, k: int)
    requires
        0 <= k <= opts.len(),
        parse_options(opts.take(k)) is None,
    ensures
        parse_options(opts) is None,
    decreases opts.len() - k,
{
    if opts.len() == k {
        assert(opts.take(k) =~= opts);
    } else {
        assert(opts.drop_last().take(k) =~= opts.take(k));
        lemma_rejected_prefix(opts.drop_last(), k);
    }
}

impl Default for CxxBindgenMeta {
    fn default() -> (r: Self)
        ensures
            r@ == empty_meta(),
    {
        CxxBindgenMeta { skip: false, shared: false, cxx_name: None }
    }
}

/// Parses the option list of one bridging annotation.
pub fn parse_option_list(opts: &Vec<MetaOption>) -> (r: Option<CxxBindgenMeta>)
    ensures
        opt_meta_view(r) == parse_options(opts@),
{
    let mut cur = CxxBindgenMeta::default();
    let n = opts.len();
    for i in 0..n
        invariant
            n == opts@.len(),
            parse_options(opts@.take(i as int)) == Some(cur@),
    {
        let o = &opts[i];
        assert(opts@.take(i + 1).drop_last() =~= opts@.take(i as int));
        assert(opts@.take(i + 1).last() == *o);
        if text_eq(&o.key, "skip") && matches!(o.value, OptionValue::Flag) {
            cur.skip = true;
        } else if text_eq(&o.key, "shared") && matches!(o.value, OptionValue::Flag) {
            cur.shared = true;
        } else if text_eq(&o.key, "cxx_name") && matches!(o.value, OptionValue::Text(_)) {
            match &o.value {
                OptionValue::Text(t) => {
                    cur.cxx_name = Some(clone_string(t));
                },
                _ => {},
            }
        } else {
            proof {
                lemma_rejected_prefix(opts@, i + 1);
            }
            return None;
        }
    }
    assert(opts@.take(n as int) =~= opts@);
    Some(cur)
}

/// Appends `s` as it is written inside a string literal.
pub fn push_escaped(out: &mut String, s: &String)
    ensures
        final(out)@ == old(out)@ + escaped(s@),
{
    let cs = crate::merge::chars_of(s.as_str());
    let n = cs.len();
    for k in 0..n
        invariant
            n == cs@.len(),
            cs@ == s@,
            out@ == old(out)@ + escaped(s@.take(k as int)),
    {
        assert(s@.take(k + 1).drop_last() =~= s@.take(k as int));
        let c = cs[k];
        if c == '"' {
            out.append("\\\"");
        } else if c == '\\' {
            out.append("\\\\");
        } else if c == '\n' {
            out.append("\\n");
        } else if c == '\r' {
            out.append("\\r");
        } else if c == '\t' {
            out.append("\\t");
        } else if c == '\0' {
            out.append("\\0");
        } else {
            let one = s.as_str().substring_char(k, k + 1);
            assert(one@ =~= seq![c]);
            out.append(one);
        }
    }
    assert(s@.take(n as int) =~= s@);
}

impl CxxBindgenMeta {
    /// The metadata of the first well-formed bridging annotation among `attrs`, if any.
    pub fn is_processed(attrs: &Vec<Attr>) -> (r: Option<CxxBindgenMeta>)
        ensures
            opt_meta_view(r) == meta_of(attrs@),
    {
        let n = attrs.len();
        assert(attrs@.skip(0) =~= attrs@);
        for i in 0..n
            invariant
                n == attrs@.len(),
                meta_of(attrs@) == meta_of(attrs@.skip(i as int)),
        {
            let a = &attrs[i];
            assert(attrs@.skip(i as int)[0] == *a);
            assert(attrs@.skip(i as int).drop_first() =~= attrs@.skip(i + 1));
            if text_eq(&a.path, "cxx_bindgen::cxx_bindgen_meta") {
                let parsed = parse_option_list(&a.options);
                if parsed.is_some() {
                    return parsed;
                }
            }
        }
        assert(attrs@.skip(n as int) =~= Seq::<Attr>::empty());
        None
    }

    /// The rename annotation for this declaration, or an empty string.
    pub fn cxx_name(&self) -> (r: String)
        ensures
            r@ == rename_text(self@.cxx_name),
    {
        match &self.cxx_name {
            Some(n) => {
                let mut s = String::from_str("#[cxx_name = \"");
                push_escaped(&mut s, n);
                s.append("\"] ");
                s
            },
            None => String::new(),
        }
    }
}

/// Whether some bridging annotation among `attrs` has an option list the grammar rejects.
pub fn has_malformed_bridge(attrs: &Vec<Attr>) -> (r: bool)
    ensures
        r == has_malformed(attrs@),
{
    let n = attrs.len();
    for i in 0..n
        invariant
            n == attrs@.len(),
            forall|j: int|
                0 <= j < i ==> !(is_bridge_attr(#[trigger] attrs@[j]) && parse_options(
                    attrs@[j].options@,
                ) is None),
    {
        let a = &attrs[i];
        if text_eq(&a.path, "cxx_bindgen::cxx_bindgen_meta") {
            let parsed = parse_option_list(&a.options);
            if parsed.is_none() {
                return true;
            }
        }
    }
    false
}

} // verus!
