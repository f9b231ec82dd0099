//! Template and DOM trees.
//!
//! A [`TemplateElement`] is an immutable declarative description of one UI
//! node: a tag, string attributes, and child nodes in order, built with a
//! value-consuming builder. A [`DomElement`] is its mutable runtime mirror:
//! it owns one template and a list of child DOM nodes, and carries a dirty
//! flag. A node is either *outdated* (its children must be rebuilt from the
//! template before use) or *settled* (its children are exactly the
//! recompilation of the template's children, in order, recursively settled).
//! Settling is deliberately coarse: it always rebuilds the whole subtree;
//! there is no keyed reconciliation or move detection.

use vstd::prelude::*;
use crate::decode;

verus! {

broadcast use vstd::seq::group_seq_axioms, vstd::std_specs::vec::group_vec_axioms;

/// The mathematical value of a template node: a tag, an attribute mapping,
/// and the children in order.
pub struct TemplateView {
    pub tag: Seq<char>,
    pub attrs: Map<Seq<char>, Seq<char>>,
    pub children: Seq<TemplateView>,
}

/// The mathematical value of a DOM node.
pub struct DomView {
    pub template: TemplateView,
    pub children: Seq<DomView>,
    pub outdated: bool,
}

/// The mapping held by an association list of attribute entries, later
/// entries winning.
pub open spec fn attrs_map(s: Seq<(String, String)>) -> Map<Seq<char>, Seq<char>>
    decreases s.len(),
{
    if s.len() == 0 {
        Map::empty()
    } else {
        attrs_map(s.drop_last()).insert(s.last().0@, s.last().1@)
    }
}

/// No two entries of the association list share a key.
pub open spec fn unique_keys(s: Seq<(String, String)>) -> bool {
    forall|i: int, j: int|
        0 <= i && i < j && j < s.len() ==> s[i].0@ != s[j].0@
}

/// The views of a sequence of template nodes, in order.
pub closed spec fn template_views(s: Seq<TemplateElement>) -> Seq<TemplateView>
    decreases s,
{
    if s.len() == 0 {
        Seq::empty()
    } else {
        template_views(s.drop_last()).push(s.last()@)
    }
}

/// `template_views` is the element-wise view.
pub proof fn lemma_template_views_props(s: Seq<TemplateElement>)
    ensures
        template_views(s).len() == s.len(),
        forall|i: int| 0 <= i && i < s.len() ==> template_views(s)[i] == s[i]@,
    decreases s.len(),
{
    if s.len() > 0 {
        lemma_template_views_props(s.drop_last());
        assert(template_views(s) == template_views(s.drop_last()).push(s.last()@));
    } else {
        assert(template_views(s) == Seq::<TemplateView>::empty());
    }
}

/// The views of a sequence of DOM nodes, in order.
pub closed spec fn dom_views(s: Seq<DomElement>) -> Seq<DomView>
    decreases s,
{
    if s.len() == 0 {
        Seq::empty()
    } else {
        dom_views(s.drop_last()).push(s.last()@)
    }
}

/// `dom_views` is the element-wise view.
pub proof fn lemma_dom_views_props(s: Seq<DomElement>)
    ensures
        dom_views(s).len() == s.len(),
        forall|i: int| 0 <= i && i < s.len() ==> dom_views(s)[i] == s[i]@,
    decreases s.len(),
{
    if s.len() > 0 {
        lemma_dom_views_props(s.drop_last());
        assert(dom_views(s) == dom_views(s.drop_last()).push(s.last()@));
    } else {
        assert(dom_views(s) == Seq::<DomView>::empty());
    }
}

/// An entry's key looks its value up in the mapping.
pub proof fn lemma_attrs_map_get(s: Seq<(String, String)>, i: int)
    requires
        unique_keys(s),
        0 <= i && i < s.len(),
    ensures
        attrs_map(s).contains_key(s[i].0@),
        attrs_map(s)[s[i].0@] == s[i].1@,
    decreases s.len(),
{
    if i < s.len() - 1 {
        lemma_attrs_map_get(s.drop_last(), i);
    }
}

/// A key held by no entry is absent from the mapping.
pub proof fn lemma_attrs_map_absent(s: Seq<(String, String)>, k: Seq<char>)
    requires
        forall|i: int| 0 <= i && i < s.len() ==> s[i].0@ != k,
    ensures
        !attrs_map(s).contains_key(k),
    decreases s.len(),
{
    if s.len() > 0 {
        lemma_attrs_map_absent(s.drop_last(), k);
    }
}

/// Overwriting the entry that holds a key is insertion into the mapping.
pub proof fn lemma_attrs_map_update(s: Seq<(String, String)>, i: int, e: (String, String))
    requires
        unique_keys(s),
        0 <= i && i < s.len(),
        e.0@ == s[i].0@,
    ensures
        attrs_map(s.update(i, e)) == attrs_map(s).insert(e.0@, e.1@),
    decreases s.len(),
{
    let t = s.update(i, e);
    if i == s.len() - 1 {
        assert(t.drop_last() =~= s.drop_last());
        assert(attrs_map(t) =~= attrs_map(s).insert(e.0@, e.1@));
    } else {
        assert(t.drop_last() =~= s.drop_last().update(i, e));
        lemma_attrs_map_update(s.drop_last(), i, e);
        assert(s.last().0@ != e.0@);
        assert(attrs_map(t) =~= attrs_map(s).insert(e.0@, e.1@));
    }
}

/// Appending an entry is insertion into the mapping.
pub proof fn lemma_attrs_map_push(s: Seq<(String, String)>, e: (String, String))
    ensures
        attrs_map(s.push(e)) == attrs_map(s).insert(e.0@, e.1@),
{
    assert(s.push(e).drop_last() =~= s);
}

/// A declarative description of one UI node. Immutable once built: the
/// builder methods consume the node and return the updated value.
pub struct TemplateElement {
    tag: String,
    attrs: Vec<(String, String)>,
    children: Vec<TemplateElement>,
}

impl View for TemplateElement {
    type V = TemplateView;

    closed spec fn view(&self) -> TemplateView
        decreases *self,
    {
        TemplateView {
            tag: self.tag@,
            attrs: attrs_map(self.attrs@),
            children: template_views(self.children@),
        }
    }
}

impl TemplateElement {
    /// Attribute keys are unique at every level of the tree.
    #[verifier::type_invariant]
    spec fn wf(self) -> bool
        decreases self,
    {
        &&& unique_keys(self.attrs@)
        &&& forall|i: int|
            0 <= i && i < self.children@.len() ==> (#[trigger] self.children[i]).wf()
    }

    /// Creates a leaf node with the given tag, no attributes, no children.
    pub fn new(tag: &str) -> (r: TemplateElement)
        ensures
            r@.tag == tag@,
            r@.attrs == Map::<Seq<char>, Seq<char>>::empty(),
            r@.children == Seq::<TemplateView>::empty(),
    {
        let r = TemplateElement {
            tag: String::from_str(tag),
            attrs: Vec::new(),
            children: Vec::new(),
        };
        proof {
            assert(r@.children =~= Seq::<TemplateView>::empty());
        }
        r
    }

    /// Sets or overwrites one attribute, returning the node for chaining.
    #[verifier::loop_isolation(false)]
    pub fn with_attr(self, key: &str, value: &str) -> (r: TemplateElement)
        ensures
            r@.tag == self@.tag,
            r@.children == self@.children,
            r@.attrs == self@.attrs.insert(key@, value@),
    {
        proof {
            use_type_invariant(&self);
        }
        let ghost self0 = self;
        let TemplateElement { tag, mut attrs, children } = self;
        let key_s = String::from_str(key);
        let value_s = String::from_str(value);
        let mut i: usize = 0;
        let n = attrs.len();
        while i < n
            invariant
                i <= n,
                attrs@ == self0.attrs@,
                forall|k: int| 0 <= k && k < i ==> attrs@[k].0@ != key@,
            decreases n - i,
        {
            if attrs[i].0 == key_s {
                proof {
                    lemma_attrs_map_update(attrs@, i as int, (key_s, value_s));
                }
                attrs[i] = (key_s, value_s);
                let r = TemplateElement { tag, attrs, children };
                proof {
                    assert(r@.children =~= self0@.children);
                }
                return r;
            }
            i = i + 1;
        }
        proof {
            lemma_attrs_map_push(attrs@, (key_s, value_s));
        }
        attrs.push((key_s, value_s));
        let r = TemplateElement { tag, attrs, children };
        proof {
            assert(r@.children =~= self0@.children);
        }
        r
    }

    /// Appends one child, preserving insertion order.
    pub fn with_child(self, element: TemplateElement) -> (r: TemplateElement)
        ensures
            r@.tag == self@.tag,
            r@.attrs == self@.attrs,
            r@.children == self@.children.push(element@),
    {
        proof {
            use_type_invariant(&self);
            use_type_invariant(&element);
        }
        let ghost self0 = self;
        let ghost elem0 = element;
        let TemplateElement { tag, attrs, mut children } = self;
        children.push(element);
        let r = TemplateElement { tag, attrs, children };
        proof {
            assert(children@.drop_last() =~= self0.children@);
            assert(r@.children == self0@.children.push(elem0@));
        }
        r
    }

    /// The node's tag.
    pub fn tag(&self) -> (r: &str)
        ensures
            r@ == self@.tag,
    {
        self.tag.as_str()
    }

    /// The node's tag; a synonym of [`TemplateElement::tag`].
    pub fn name(&self) -> (r: &str)
        ensures
            r@ == self@.tag,
    {
        self.tag.as_str()
    }

    /// The attribute entries, one per key.
    pub fn attrs(&self) -> (r: &Vec<(String, String)>)
        ensures
            unique_keys(r@),
            attrs_map(r@) == self@.attrs,
    {
        proof {
            use_type_invariant(self);
        }
        &self.attrs
    }

    /// The children in order.
    pub fn children(&self) -> (r: &Vec<TemplateElement>)
        ensures
            r@.len() == self@.children.len(),
            forall|i: int|
                0 <= i && i < r@.len() ==> (#[trigger] r@[i])@ == self@.children[i],
    {
        proof {
            lemma_template_views_props(self.children@);
        }
        &self.children
    }

    /// Compiles the node into a DOM node. The new node is outdated and has
    /// no children yet; the first settling materializes them.
    pub fn to_dom(self) -> (d: DomElement)
        ensures
            d@.template == self@,
            d@.children == Seq::<DomView>::empty(),
            d@.outdated,
    {
        let d = DomElement { template: self, children: Vec::new(), is_outdated: true };
        proof {
            assert(d@.children =~= Seq::<DomView>::empty());
        }
        d
    }

    /// Looks a key up among the attribute entries.
    #[verifier::loop_isolation(false)]
    fn attr_value(&self, key: &str) -> (r: Option<String>)
        ensures
            r matches Some(v) ==> self@.attrs.contains_key(key@) && v@ == self@.attrs[key@],
            r is None ==> !self@.attrs.contains_key(key@),
    {
        proof {
            use_type_invariant(self);
        }
        let key_s = String::from_str(key);
        let mut i: usize = 0;
        let n = self.attrs.len();
        while i < n
            invariant
                i <= n,
                forall|k: int| 0 <= k && k < i ==> self.attrs@[k].0@ != key@,
            decreases n - i,
        {
            if self.attrs[i].0 == key_s {
                proof {
                    lemma_attrs_map_get(self.attrs@, i as int);
                }
                return Some(self.attrs[i].1.clone());
            }
            i = i + 1;
        }
        proof {
            lemma_attrs_map_absent(self.attrs@, key@);
        }
        None
    }
}

impl Clone for TemplateElement {
    /// Cloning is a deep copy: the clone has the same value as the original.
    #[verifier::loop_isolation(false)]
    fn clone(&self) -> (r: Self)
        ensures
            r@ == self@,
        decreases *self,
    {
        proof {
            use_type_invariant(self);
        }
        let mut attrs: Vec<(String, String)> = Vec::new();
        let mut i: usize = 0;
        let n = self.attrs.len();
        while i < n
            invariant
                i <= n,
                attrs@.len() == i,
                forall|k: int| 0 <= k && k < i ==> attrs@[k] == self.attrs@[k],
            decreases n - i,
        {
            attrs.push((self.attrs[i].0.clone(), self.attrs[i].1.clone()));
            i = i + 1;
        }
        let mut children: Vec<TemplateElement> = Vec::new();
        let mut j: usize = 0;
        let m = self.children.len();
        while j < m
            invariant
                j <= m,
                children@.len() == j,
                forall|k: int|
                    0 <= k && k < j ==> (#[trigger] children@[k])@ == self.children@[k]@,
                forall|k: int|
                    0 <= k && k < j ==> (#[trigger] children@[k]).wf(),
            decreases m - j,
        {
            let c = self.children[j].clone();
            proof {
                use_type_invariant(&c);
            }
            children.push(c);
            j = j + 1;
        }
        let r = TemplateElement { tag: self.tag.clone(), attrs, children };
        proof {
            assert(attrs@ =~= self.attrs@);
            lemma_template_views_props(children@);
            lemma_template_views_props(self.children@);
            assert(r@.children =~= self@.children);
        }
        r
    }
}

/// The runtime mirror of one template node.
pub struct DomElement {
    template: TemplateElement,
    children: Vec<DomElement>,
    is_outdated: bool,
}

impl DomElement {
    /// The documented invariant, on the representation: a node that is not
    /// outdated holds exactly the recompilation of its template's children.
    #[verifier::type_invariant]
    spec fn rep_wf(self) -> bool {
        !self.is_outdated ==> dom_views(self.children@) == compiled_seq(self.template@.children)
    }
}

impl View for DomElement {
    type V = DomView;

    closed spec fn view(&self) -> DomView
        decreases *self,
    {
        DomView {
            template: self.template@,
            children: dom_views(self.children@),
            outdated: self.is_outdated,
        }
    }
}

/// The full recompilation of a template: each child compiled in order,
/// recursively, everything settled.
pub open spec fn compiled(t: TemplateView) -> DomView
    decreases t,
{
    DomView { template: t, children: compiled_seq(t.children), outdated: false }
}

/// The recompilation of a sequence of template nodes, in order.
pub open spec fn compiled_seq(ts: Seq<TemplateView>) -> Seq<DomView>
    decreases ts,
{
    if ts.len() == 0 {
        Seq::empty()
    } else {
        compiled_seq(ts.drop_last()).push(compiled(ts.last()))
    }
}

/// `compiled_seq` is the element-wise recompilation.
pub proof fn lemma_compiled_seq_props(ts: Seq<TemplateView>)
    ensures
        compiled_seq(ts).len() == ts.len(),
        forall|i: int| 0 <= i && i < ts.len() ==> compiled_seq(ts)[i] == compiled(ts[i]),
    decreases ts.len(),
{
    if ts.len() > 0 {
        lemma_compiled_seq_props(ts.drop_last());
        assert(compiled_seq(ts) == compiled_seq(ts.drop_last()).push(compiled(ts.last())));
    } else {
        assert(compiled_seq(ts) == Seq::<DomView>::empty());
    }
}

/// What settling leaves behind: an outdated node becomes the recompilation
/// of its template; a settled node is untouched.
pub open spec fn settled(d: DomView) -> DomView {
    if d.outdated {
        compiled(d.template)
    } else {
        d
    }
}

/// The documented invariant of the DOM tree: whenever a node is not
/// outdated, it is exactly the recompilation of its template.
pub open spec fn dom_wf(d: DomView) -> bool {
    !d.outdated ==> d == compiled(d.template)
}

/// Compiles a template subtree into a fully settled DOM subtree.
#[verifier::loop_isolation(false)]
fn compile(t: &TemplateElement) -> (d: DomElement)
    ensures
        d@ == compiled(t@),
    decreases *t,
{
    let mut children: Vec<DomElement> = Vec::new();
    let mut i: usize = 0;
    let n = t.children.len();
    while i < n
        invariant
            i <= n,
            children@.len() == i,
            forall|k: int|
                0 <= k && k < i ==> (#[trigger] children@[k])@ == compiled(t@.children[k]),
        decreases n - i,
    {
        proof {
            lemma_template_views_props(t.children@);
        }
        children.push(compile(&t.children[i]));
        i = i + 1;
    }
    proof {
        lemma_template_views_props(t.children@);
        lemma_dom_views_props(children@);
        lemma_compiled_seq_props(t@.children);
        assert(dom_views(children@) =~= compiled_seq(t@.children));
    }
    let d = DomElement { template: t.clone(), children, is_outdated: false };
    d
}

impl DomElement {
    /// Rebuilds the children from the template if the node is outdated;
    /// otherwise does nothing. Settling is idempotent and always rebuilds
    /// the whole subtree.
    pub fn update_outdated(&mut self)
        ensures
            final(self)@ == settled(old(self)@),
            dom_wf(final(self)@),
    {
        proof {
            use_type_invariant(&*self);
        }
        if self.is_outdated {
            let d = compile(&self.template);
            *self = d;
            proof {
                assert(compiled(self.template@).template == self.template@);
            }
        }
    }

    /// The tag of the wrapped template.
    pub fn tag(&self) -> (r: &str)
        ensures
            r@ == self@.template.tag,
    {
        self.template.tag()
    }

    /// The raw text of one attribute: `None` if the key is absent.
    pub fn attr(&self, key: &str) -> (r: Option<String>)
        ensures
            r matches Some(v) ==> self@.template.attrs.contains_key(key@) && v@
                == self@.template.attrs[key@],
            r is None ==> !self@.template.attrs.contains_key(key@),
    {
        self.template.attr_value(key)
    }

    /// The raw text of one attribute; a synonym of [`DomElement::attr`].
    pub fn get_attr(&self, key: &str) -> (r: Option<String>)
        ensures
            r matches Some(v) ==> self@.template.attrs.contains_key(key@) && v@
                == self@.template.attrs[key@],
            r is None ==> !self@.template.attrs.contains_key(key@),
    {
        self.attr(key)
    }

    /// Whether the node is still outdated: children not yet rebuilt from
    /// the template.
    pub fn is_outdated(&self) -> (r: bool)
        ensures
            r == self@.outdated,
    {
        self.is_outdated
    }

    /// The settled children in order.
    pub fn children(&self) -> (r: &Vec<DomElement>)
        ensures
            r@.len() == self@.children.len(),
            forall|i: int|
                0 <= i && i < r@.len() ==> (#[trigger] r@[i])@ == self@.children[i],
    {
        proof {
            lemma_dom_views_props(self.children@);
        }
        &self.children
    }

    /// One attribute decoded as an integer list: `None` when the key is
    /// absent or the text does not decode. Decode failure never raises; it
    /// degrades to "no value".
    pub fn attr_as(&self, key: &str) -> (r: Option<Vec<i32>>)
        ensures
            r matches Some(v) ==> decoded_attr(self@.template, key@) == Some(
                decode::ints_of(v@),
            ),
            r is None ==> decoded_attr(self@.template, key@) is None,
    {
        match self.attr(key) {
            None => None,
            Some(text) => decode::decode_int_list(text.as_str().as_bytes()),
        }
    }

    /// One attribute decoded as an integer list; a synonym of
    /// [`DomElement::attr_as`].
    pub fn get_attr_as(&self, key: &str) -> (r: Option<Vec<i32>>)
        ensures
            r matches Some(v) ==> decoded_attr(self@.template, key@) == Some(
                decode::ints_of(v@),
            ),
            r is None ==> decoded_attr(self@.template, key@) is None,
    {
        self.attr_as(key)
    }

    /// The node's size from `style_size`, with the `(100, 100)` fallback
    /// for an absent, malformed or wrong-arity value.
    pub fn get_size(&self) -> (r: [i32; 2])
        ensures
            r[0] == spec_size(self@.template).0,
            r[1] == spec_size(self@.template).1,
    {
        match self.attr_as("style_size") {
            Some(v) => if v.len() == 2 {
                [v[0], v[1]]
            } else {
                [100, 100]
            },
            None => [100, 100],
        }
    }

    /// The node's background color from `style_background`: `None` when
    /// absent or malformed, so the caller can skip drawing a background
    /// rather than substitute one.
    pub fn background_color(&self) -> (r: Option<[i32; 3]>)
        ensures
            r matches Some(c) ==> spec_background(self@.template) == Some(
                (c[0] as int, c[1] as int, c[2] as int),
            ),
            r is None ==> spec_background(self@.template) is None,
    {
        match self.attr_as("style_background") {
            Some(v) => if v.len() == 3 {
                Some([v[0], v[1], v[2]])
            } else {
                None
            },
            None => None,
        }
    }
}

/// The decoded value of one attribute: the integer-list grammar applied to
/// the UTF-8 bytes of the raw text; `None` when the key is absent or the
/// text is outside the grammar.
pub open spec fn decoded_attr(t: TemplateView, key: Seq<char>) -> Option<Seq<int>> {
    if t.attrs.contains_key(key) {
        decode::parse_int_list(vstd::utf8::encode_utf8(t.attrs[key]))
    } else {
        None
    }
}

/// The node's size: the two numbers of a well-formed two-element
/// `style_size` value, and `(100, 100)` when the attribute is absent,
/// malformed, or of any other arity.
pub open spec fn spec_size(t: TemplateView) -> (int, int) {
    match decoded_attr(t, "style_size"@) {
        Some(v) => if v.len() == 2 {
            (v[0], v[1])
        } else {
            (100, 100)
        },
        None => (100, 100),
    }
}

/// The node's background color: the three components of a well-formed
/// three-element `style_background` value, on the 0 to 255 scale as
/// written; `None` when absent, malformed, or of any other arity.
pub open spec fn spec_background(t: TemplateView) -> Option<(int, int, int)> {
    match decoded_attr(t, "style_background"@) {
        Some(v) => if v.len() == 3 {
            Some((v[0], v[1], v[2]))
        } else {
            None
        },
        None => None,
    }
}

/// A key that is absent, or whose text is outside the grammar, decodes to
/// "no value"; decoding never fails in any other way.
pub proof fn lemma_attr_as_no_value(t: TemplateView, key: Seq<char>)
    ensures
        !t.attrs.contains_key(key) ==> decoded_attr(t, key) is None,
        t.attrs.contains_key(key) && decode::parse_int_list(
            vstd::utf8::encode_utf8(t.attrs[key]),
        ) is None ==> decoded_attr(t, key) is None,
{
}

/// The size round-trips the two numbers of every well-formed two-element
/// `style_size` value, and falls back to `(100, 100)` for every other
/// value of the attribute.
pub proof fn lemma_size_round_trip(t: TemplateView)
    ensures
        decoded_attr(t, "style_size"@) matches Some(v) ==> {
            &&& v.len() == 2 ==> spec_size(t) == (v[0], v[1])
            &&& v.len() != 2 ==> spec_size(t) == (100int, 100int)
        },
        decoded_attr(t, "style_size"@) is None ==> spec_size(t) == (100int, 100int),
{
}

/// Settling establishes the documented invariant, whatever children an
/// outdated node held before.
pub proof fn lemma_settled_wf(d: DomView)
    requires
        dom_wf(d),
    ensures
        dom_wf(settled(d)),
{
    if d.outdated {
        assert(compiled(d.template).template == d.template);
    }
}

/// Settling twice is settling once: the second pass finds every node
/// settled and leaves the tree structurally identical.
pub proof fn lemma_settle_idempotent(d: DomView)
    ensures
        settled(settled(d)) == settled(d),
{
}

/// A compiled node exposes exactly the template's children, in order, each
/// itself compiled and settled.
pub proof fn lemma_settled_children(t: TemplateView)
    ensures
        compiled(t).children.len() == t.children.len(),
        forall|i: int|
            0 <= i && i < t.children.len() ==> #[trigger] compiled(t).children[i] == compiled(
                t.children[i],
            ),
        forall|i: int|
            0 <= i && i < t.children.len() ==> !(#[trigger] compiled(t).children[i]).outdated,
{
    lemma_compiled_seq_props(t.children);
}

/// Setting an attribute and reading it back yields the value set; every
/// other key is untouched, and a key never set reads as absent.
pub proof fn lemma_attr_round_trip(t: TemplateView, key: Seq<char>, value: Seq<char>)
    ensures
        t.attrs.insert(key, value).contains_key(key),
        t.attrs.insert(key, value)[key] == value,
        forall|k: Seq<char>|
            k != key ==> t.attrs.insert(key, value).contains_key(k) == t.attrs.contains_key(k),
        forall|k: Seq<char>|
            k != key && t.attrs.contains_key(k) ==> t.attrs.insert(key, value)[k] == t.attrs[k],
{
}

} // verus!

