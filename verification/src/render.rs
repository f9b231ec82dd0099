//! Draw commands and the render traversal.
//!
//! A render pass walks the DOM tree depth-first and asks each node's
//! element type to emit draw commands into a [`RenderData`] sink: flat
//! colored rectangles, textured rectangles, and text draws, in emission
//! order. Paint order is tree pre-order; later commands overdraw earlier
//! ones where they overlap. The sink is backend-independent: turning the
//! command list into GPU draw calls is the rendering backend's job.
//!
//! Children are visited with the same position as their parent: automatic
//! layout flow across nesting levels is not part of this design.

use vstd::prelude::*;
use crate::element::{DomElement, DomView};
use crate::element_type::{type_cmds, ElementTypes, ElementTypesView, lookup_type};

verus! {

broadcast use vstd::seq::group_seq_axioms, vstd::std_specs::vec::group_vec_axioms;

/// The rectangular region a traversal draws into: its top-left corner and
/// its size.
pub struct RenderArea {
    pub position: [i32; 2],
    pub size: [i32; 2],
}

/// The layout cursor threaded through sibling traversal: the offset from
/// the area's corner at which the next widget is placed.
pub struct RenderOffset {
    pub position: [i32; 2],
}

/// The mathematical value of one draw command.
pub enum CommandView {
    /// A flat-colored rectangle; the color components are on the 0 to 255
    /// scale.
    FlatRect { x: int, y: int, w: int, h: int, r: int, g: int, b: int },
    /// A textured rectangle, naming a backend texture handle.
    TexturedRect { x: int, y: int, w: int, h: int, texture: int },
    /// A text draw.
    Text { x: int, y: int, text: Seq<char> },
}

/// One emitted draw command.
pub enum RenderCommand {
    /// A flat-colored rectangle; the color components are on the 0 to 255
    /// scale (the backend maps them to its own color range).
    FlatRect { position: [i32; 2], size: [i32; 2], color: [i32; 3] },
    /// A textured rectangle, naming a backend texture handle.
    TexturedRect { position: [i32; 2], size: [i32; 2], texture: u64 },
    /// A text draw.
    Text { position: [i32; 2], text: String },
}

impl View for RenderCommand {
    type V = CommandView;

    closed spec fn view(&self) -> CommandView {
        match self {
            RenderCommand::FlatRect { position, size, color } => CommandView::FlatRect {
                x: position[0] as int,
                y: position[1] as int,
                w: size[0] as int,
                h: size[1] as int,
                r: color[0] as int,
                g: color[1] as int,
                b: color[2] as int,
            },
            RenderCommand::TexturedRect { position, size, texture } => CommandView::TexturedRect {
                x: position[0] as int,
                y: position[1] as int,
                w: size[0] as int,
                h: size[1] as int,
                texture: *texture as int,
            },
            RenderCommand::Text { position, text } => CommandView::Text {
                x: position[0] as int,
                y: position[1] as int,
                text: text@,
            },
        }
    }
}

/// The views of a sequence of commands, in order.
pub closed spec fn command_views(s: Seq<RenderCommand>) -> Seq<CommandView>
    decreases s,
{
    if s.len() == 0 {
        Seq::empty()
    } else {
        command_views(s.drop_last()).push(s.last()@)
    }
}

/// `command_views` is the element-wise view.
pub proof fn lemma_command_views_props(s: Seq<RenderCommand>)
    ensures
        command_views(s).len() == s.len(),
        forall|i: int| 0 <= i && i < s.len() ==> command_views(s)[i] == s[i]@,
    decreases s.len(),
{
    if s.len() > 0 {
        lemma_command_views_props(s.drop_last());
        assert(command_views(s) == command_views(s.drop_last()).push(s.last()@));
    } else {
        assert(command_views(s) == Seq::<CommandView>::empty());
    }
}

/// The sink a render pass fills: the commands of one frame, in emission
/// order.
pub struct RenderData {
    commands: Vec<RenderCommand>,
}

impl View for RenderData {
    type V = Seq<CommandView>;

    closed spec fn view(&self) -> Seq<CommandView> {
        command_views(self.commands@)
    }
}

impl RenderData {
    /// An empty command list.
    pub fn new() -> (r: RenderData)
        ensures
            r@ == Seq::<CommandView>::empty(),
    {
        let r = RenderData { commands: Vec::new() };
        proof {
            assert(r@ == Seq::<CommandView>::empty());
        }
        r
    }

    /// Emits one flat-colored rectangle.
    pub fn render_rect_flat(&mut self, position: [i32; 2], size: [i32; 2], color: [i32; 3])
        ensures
            final(self)@ == old(self)@.push(
                (CommandView::FlatRect {
                    x: position[0] as int,
                    y: position[1] as int,
                    w: size[0] as int,
                    h: size[1] as int,
                    r: color[0] as int,
                    g: color[1] as int,
                    b: color[2] as int,
                }),
            ),
    {
        let c = RenderCommand::FlatRect { position, size, color };
        let ghost prev = self.commands@;
        self.commands.push(c);
        proof {
            assert(self.commands@.drop_last() =~= prev);
        }
    }

    /// Emits one textured rectangle.
    pub fn render_rect_textured(&mut self, position: [i32; 2], size: [i32; 2], texture: u64)
        ensures
            final(self)@ == old(self)@.push(
                (CommandView::TexturedRect {
                    x: position[0] as int,
                    y: position[1] as int,
                    w: size[0] as int,
                    h: size[1] as int,
                    texture: texture as int,
                }),
            ),
    {
        let c = RenderCommand::TexturedRect { position, size, texture };
        let ghost prev = self.commands@;
        self.commands.push(c);
        proof {
            assert(self.commands@.drop_last() =~= prev);
        }
    }

    /// Emits one text draw.
    pub fn render_text(&mut self, position: [i32; 2], text: &str)
        ensures
            final(self)@ == old(self)@.push(
                (CommandView::Text { x: position[0] as int, y: position[1] as int, text: text@ }),
            ),
    {
        let c = RenderCommand::Text { position, text: String::from_str(text) };
        let ghost prev = self.commands@;
        self.commands.push(c);
        proof {
            assert(self.commands@.drop_last() =~= prev);
        }
    }

    /// The commands emitted so far, in order.
    pub fn commands(&self) -> (r: &Vec<RenderCommand>)
        ensures
            r@.len() == self@.len(),
            forall|i: int| 0 <= i && i < r@.len() ==> (#[trigger] r@[i])@ == self@[i],
    {
        proof {
            lemma_command_views_props(self.commands@);
        }
        &self.commands
    }
}

/// The commands one DOM node and its descendants emit: the node's own
/// commands under its element type, then each child's in order, every node
/// drawn at the same position.
pub open spec fn dom_cmds(d: DomView, reg: ElementTypesView, x: int, y: int) -> Seq<CommandView>
    decreases d,
{
    type_cmds(lookup_type(reg, d.template.tag), d.template, x, y) + children_cmds(
        d.children,
        reg,
        x,
        y,
    )
}

/// The commands a sequence of sibling DOM nodes emits, in order.
pub open spec fn children_cmds(ds: Seq<DomView>, reg: ElementTypesView, x: int, y: int) -> Seq<
    CommandView,
>
    decreases ds,
{
    if ds.len() == 0 {
        Seq::empty()
    } else {
        children_cmds(ds.drop_last(), reg, x, y) + dom_cmds(ds.last(), reg, x, y)
    }
}

/// Renders one DOM node and, after it, its children, depth-first, all at
/// the same position.
fn render_element_recursive(
    element: &DomElement,
    element_types: &ElementTypes,
    position: [i32; 2],
    data: &mut RenderData,
)
    ensures
        final(data)@ == old(data)@ + dom_cmds(
            element@,
            element_types@,
            position[0] as int,
            position[1] as int,
        ),
    decreases element@,
{
    let element_type = element_types.get(element.tag());
    element_type.render(element, position, data);
    let children = element.children();
    let ghost mid = data@;
    let ghost x = position[0] as int;
    let ghost y = position[1] as int;
    proof {
        assert(children_cmds(element@.children.take(0), element_types@, x, y) == Seq::<
            CommandView,
        >::empty());
        assert(mid =~= mid + children_cmds(element@.children.take(0), element_types@, x, y));
    }
    let mut i: usize = 0;
    let n = children.len();
    while i < n
        invariant
            i <= n,
            n == children.len(),
            x == position[0] as int,
            y == position[1] as int,
            children@.len() == element@.children.len(),
            forall|k: int|
                0 <= k && k < n ==> (#[trigger] children@[k])@ == element@.children[k],
            data@ == mid + children_cmds(element@.children.take(i as int), element_types@, x, y),
        decreases n - i,
    {
        render_element_recursive(&children[i], element_types, position, data);
        proof {
            let pre = element@.children.take(i as int);
            let post = element@.children.take(i as int + 1);
            assert(post.len() == i + 1);
            assert(post.drop_last() =~= pre);
            assert(post.last() == element@.children[i as int]);
            assert(children_cmds(post, element_types@, x, y) == children_cmds(
                post.drop_last(),
                element_types@,
                x,
                y,
            ) + dom_cmds(post.last(), element_types@, x, y));
            assert(data@ =~= mid + children_cmds(post, element_types@, x, y));
        }
        i = i + 1;
    }
    proof {
        assert(element@.children.take(n as int) =~= element@.children);
        assert(dom_cmds(element@, element_types@, x, y) == type_cmds(
            lookup_type(element_types@, element@.template.tag),
            element@.template,
            x,
            y,
        ) + children_cmds(element@.children, element_types@, x, y));
        assert(data@ =~= old(data)@ + dom_cmds(element@, element_types@, x, y));
    }
}

/// Renders a DOM tree into the sink, starting at the area's top-left
/// corner. The traversal is total: unknown tags fall back to the default
/// element type, malformed attributes degrade to defaults, and nothing
/// here can fail.
pub fn render(
    dom: &DomElement,
    element_types: &ElementTypes,
    area: &RenderArea,
    data: &mut RenderData,
)
    ensures
        final(data)@ == old(data)@ + dom_cmds(
            dom@,
            element_types@,
            area.position[0] as int,
            area.position[1] as int,
        ),
{
    render_element_recursive(dom, element_types, area.position, data);
}

} // verus!
