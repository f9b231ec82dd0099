//! The element-type registry.
//!
//! An element type is the pluggable behavior keyed by a node's tag,
//! responsible for emitting that node's draw commands. The registry maps
//! tag strings to behaviors and holds one distinguished default used for
//! any tag never registered: lookup is total, it never fails.

use vstd::prelude::*;
use crate::element::{spec_background, spec_size, DomElement, TemplateView};
use crate::render::{CommandView, RenderData};

verus! {

broadcast use vstd::seq::group_seq_axioms, vstd::std_specs::vec::group_vec_axioms;

/// Renders a plain block: one flat background rectangle if the node names
/// a background color, nothing otherwise.
pub struct BlockType;

/// Renders a text node: the block behavior first (so text can have a
/// background), then the node's `value` text over it.
pub struct TextType;

/// One registered behavior.
pub enum ElementType {
    Block(BlockType),
    Text(TextType),
}

/// The commands a block emits at a position: one flat rectangle of the
/// node's size and background color, or none without a background.
pub open spec fn block_cmds(t: TemplateView, x: int, y: int) -> Seq<CommandView> {
    match spec_background(t) {
        Some(c) => seq![
            (CommandView::FlatRect {
                x,
                y,
                w: spec_size(t).0,
                h: spec_size(t).1,
                r: c.0,
                g: c.1,
                b: c.2,
            }),
        ],
        None => Seq::empty(),
    }
}

/// The commands a text node emits: its block commands, then one text draw
/// if the node has a `value` attribute.
pub open spec fn text_cmds(t: TemplateView, x: int, y: int) -> Seq<CommandView> {
    block_cmds(t, x, y) + (if t.attrs.contains_key("value"@) {
        seq![(CommandView::Text { x, y, text: t.attrs["value"@] })]
    } else {
        Seq::empty()
    })
}

/// The commands one behavior emits for a node at a position.
pub open spec fn type_cmds(et: ElementType, t: TemplateView, x: int, y: int) -> Seq<CommandView> {
    match et {
        ElementType::Block(_) => block_cmds(t, x, y),
        ElementType::Text(_) => text_cmds(t, x, y),
    }
}

impl BlockType {
    /// Emits the node's background rectangle, if it has one.
    pub fn render(&self, element: &DomElement, position: [i32; 2], data: &mut RenderData)
        ensures
            final(data)@ == old(data)@ + block_cmds(
                element@.template,
                position[0] as int,
                position[1] as int,
            ),
    {
        let size = element.get_size();
        match element.background_color() {
            Some(color) => {
                data.render_rect_flat(position, size, color);
                proof {
                    assert(data@ =~= old(data)@ + block_cmds(
                        element@.template,
                        position[0] as int,
                        position[1] as int,
                    ));
                }
            },
            None => {
                proof {
                    assert(data@ =~= old(data)@ + block_cmds(
                        element@.template,
                        position[0] as int,
                        position[1] as int,
                    ));
                }
            },
        }
    }
}

impl TextType {
    /// Emits the block behavior's commands, then the node's text.
    pub fn render(&self, element: &DomElement, position: [i32; 2], data: &mut RenderData)
        ensures
            final(data)@ == old(data)@ + text_cmds(
                element@.template,
                position[0] as int,
                position[1] as int,
            ),
    {
        BlockType.render(element, position, data);
        match element.attr("value") {
            Some(text) => {
                data.render_text(position, text.as_str());
            },
            None => {},
        }
        proof {
            assert(data@ =~= old(data)@ + text_cmds(
                element@.template,
                position[0] as int,
                position[1] as int,
            ));
        }
    }
}

impl ElementType {
    /// Emits the commands of whichever behavior this is.
    pub fn render(&self, element: &DomElement, position: [i32; 2], data: &mut RenderData)
        ensures
            final(data)@ == old(data)@ + type_cmds(
                *self,
                element@.template,
                position[0] as int,
                position[1] as int,
            ),
    {
        match self {
            ElementType::Block(b) => b.render(element, position, data),
            ElementType::Text(t) => t.render(element, position, data),
        }
    }
}

/// The mathematical value of the registry: the registered behaviors and
/// the default.
pub struct ElementTypesView {
    pub default: ElementType,
    pub types: Map<Seq<char>, ElementType>,
}

/// The behavior a tag resolves to: the registered one, or the default for
/// a tag never registered.
pub open spec fn lookup_type(reg: ElementTypesView, tag: Seq<char>) -> ElementType {
    if reg.types.contains_key(tag) {
        reg.types[tag]
    } else {
        reg.default
    }
}

/// The mapping held by an association list of registered behaviors, later
/// entries winning.
pub open spec fn types_map(s: Seq<(String, ElementType)>) -> Map<Seq<char>, ElementType>
    decreases s,
{
    if s.len() == 0 {
        Map::empty()
    } else {
        types_map(s.drop_last()).insert(s.last().0@, s.last().1)
    }
}

/// No two entries of the association list share a key.
pub open spec fn unique_type_keys(s: Seq<(String, ElementType)>) -> bool {
    forall|i: int, j: int|
        0 <= i && i < j && j < s.len() ==> s[i].0@ != s[j].0@
}

/// An entry's key looks its behavior up in the mapping.
proof fn lemma_types_map_get(s: Seq<(String, ElementType)>, i: int)
    requires
        unique_type_keys(s),
        0 <= i && i < s.len(),
    ensures
        types_map(s).contains_key(s[i].0@),
        types_map(s)[s[i].0@] == s[i].1,
    decreases s.len(),
{
    if i < s.len() - 1 {
        lemma_types_map_get(s.drop_last(), i);
    }
}

/// A key held by no entry is absent from the mapping.
proof fn lemma_types_map_absent(s: Seq<(String, ElementType)>, k: Seq<char>)
    requires
        forall|i: int| 0 <= i && i < s.len() ==> s[i].0@ != k,
    ensures
        !types_map(s).contains_key(k),
    decreases s.len(),
{
    if s.len() > 0 {
        lemma_types_map_absent(s.drop_last(), k);
    }
}

/// Overwriting the entry that holds a key is insertion into the mapping.
proof fn lemma_types_map_update(s: Seq<(String, ElementType)>, i: int, e: (String, ElementType))
    requires
        unique_type_keys(s),
        0 <= i && i < s.len(),
        e.0@ == s[i].0@,
    ensures
        types_map(s.update(i, e)) == types_map(s).insert(e.0@, e.1),
    decreases s.len(),
{
    let t = s.update(i, e);
    if i == s.len() - 1 {
        assert(t.drop_last() =~= s.drop_last());
        assert(types_map(t) =~= types_map(s).insert(e.0@, e.1));
    } else {
        assert(t.drop_last() =~= s.drop_last().update(i, e));
        lemma_types_map_update(s.drop_last(), i, e);
        assert(s.last().0@ != e.0@);
        assert(types_map(t) =~= types_map(s).insert(e.0@, e.1));
    }
}

/// Appending an entry is insertion into the mapping.
proof fn lemma_types_map_push(s: Seq<(String, ElementType)>, e: (String, ElementType))
    ensures
        types_map(s.push(e)) == types_map(s).insert(e.0@, e.1),
{
    assert(s.push(e).drop_last() =~= s);
}

/// The registry of element types: registered behaviors by tag, and the
/// default behind them.
pub struct ElementTypes {
    default: ElementType,
    types: Vec<(String, ElementType)>,
}

impl View for ElementTypes {
    type V = ElementTypesView;

    closed spec fn view(&self) -> ElementTypesView {
        ElementTypesView { default: self.default, types: types_map(self.types@) }
    }
}

impl ElementTypes {
    /// Registered tags are unique.
    #[verifier::type_invariant]
    spec fn wf(self) -> bool {
        unique_type_keys(self.types@)
    }

    /// A registry holding only the given default behavior.
    pub fn new(default: ElementType) -> (r: ElementTypes)
        ensures
            r@.default == default,
            r@.types == Map::<Seq<char>, ElementType>::empty(),
    {
        ElementTypes { default, types: Vec::new() }
    }

    /// Installs or overwrites the behavior for a tag.
    #[verifier::loop_isolation(false)]
    pub fn register(&mut self, key: &str, element_type: ElementType)
        ensures
            final(self)@.default == old(self)@.default,
            final(self)@.types == old(self)@.types.insert(key@, element_type),
    {
        proof {
            use_type_invariant(&*self);
        }
        let ghost self0 = *self;
        let mut taken = ElementTypes { default: ElementType::Block(BlockType), types: Vec::new() };
        std::mem::swap(&mut taken, self);
        let ElementTypes { default, mut types } = taken;
        let key_s = String::from_str(key);
        let mut i: usize = 0;
        let n = types.len();
        while i < n
            invariant
                i <= n,
                types@ == self0.types@,
                forall|k: int| 0 <= k && k < i ==> types@[k].0@ != key@,
            decreases n - i,
        {
            if types[i].0 == key_s {
                proof {
                    lemma_types_map_update(types@, i as int, (key_s, element_type));
                }
                types[i] = (key_s, element_type);
                *self = ElementTypes { default, types };
                return ;
            }
            i = i + 1;
        }
        proof {
            lemma_types_map_push(types@, (key_s, element_type));
        }
        types.push((key_s, element_type));
        *self = ElementTypes { default, types };
    }

    /// The behavior for a tag: the registered one, or the default for a
    /// tag never registered. Lookup is total and never fails.
    #[verifier::loop_isolation(false)]
    pub fn get(&self, key: &str) -> (r: &ElementType)
        ensures
            *r == lookup_type(self@, key@),
    {
        proof {
            use_type_invariant(self);
        }
        let key_s = String::from_str(key);
        let mut i: usize = 0;
        let n = self.types.len();
        while i < n
            invariant
                i <= n,
                forall|k: int| 0 <= k && k < i ==> self.types@[k].0@ != key@,
            decreases n - i,
        {
            if self.types[i].0 == key_s {
                proof {
                    lemma_types_map_get(self.types@, i as int);
                }
                return &self.types[i].1;
            }
            i = i + 1;
        }
        proof {
            lemma_types_map_absent(self.types@, key@);
        }
        &self.default
    }
}

/// A block without a background emits no command; with one it emits
/// exactly one flat rectangle of the node's size and color.
pub proof fn lemma_block_background(t: TemplateView, x: int, y: int)
    ensures
        spec_background(t) is None ==> block_cmds(t, x, y) == Seq::<CommandView>::empty(),
        spec_background(t) matches Some(c) ==> block_cmds(t, x, y) =~= seq![
            (CommandView::FlatRect {
                x,
                y,
                w: spec_size(t).0,
                h: spec_size(t).1,
                r: c.0,
                g: c.1,
                b: c.2,
            }),
        ],
{
}

/// Lookup of a tag never registered yields the default behavior, not a
/// failure.
pub proof fn lemma_lookup_unregistered(reg: ElementTypesView, tag: Seq<char>)
    requires
        !reg.types.contains_key(tag),
    ensures
        lookup_type(reg, tag) == reg.default,
{
}

} // verus!
