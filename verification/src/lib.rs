//! A retained-mode GUI core: declarative template trees compiled into a
//! mutable DOM tree, an element-type registry, and render/event traversals
//! that emit backend-independent draw commands.

pub mod decode;
pub mod element;
pub mod element_type;
pub mod render;
pub mod widget;

use vstd::prelude::*;
use crate::element::{settled, dom_wf, DomElement, DomView, TemplateElement};
use crate::element_type::ElementTypes;
use crate::render::{dom_cmds, RenderArea, RenderData};

verus! {

/// An input event fed into the GUI once per tick.
pub enum Event {
    /// The pointer moved to the given position.
    MouseMoved([i32; 2]),
    /// The pointer was clicked.
    MouseClick,
    /// A no-op placeholder event.
    Placeholder,
}

/// A GUI instance: the DOM tree compiled from one root template. Rendering
/// settles the tree lazily, then emits one frame's draw commands.
pub struct Gui {
    dom: DomElement,
}

impl View for Gui {
    type V = DomView;

    closed spec fn view(&self) -> DomView {
        self.dom@
    }
}

impl Gui {
    /// Compiles a root template into a GUI. The DOM starts outdated; the
    /// first render settles it.
    pub fn new(template: TemplateElement) -> (g: Gui)
        ensures
            g@.template == template@,
            g@.children == Seq::<DomView>::empty(),
            g@.outdated,
    {
        Gui { dom: template.to_dom() }
    }

    /// Replaces the root description wholesale: the old DOM tree is
    /// discarded and a fresh, outdated one compiled from the new template.
    /// There is no incremental diffing against the old tree.
    pub fn replace_root(&mut self, template: TemplateElement)
        ensures
            final(self)@.template == template@,
            final(self)@.children == Seq::<DomView>::empty(),
            final(self)@.outdated,
    {
        self.dom = template.to_dom();
    }

    /// The root DOM node.
    pub fn dom(&self) -> (r: &DomElement)
        ensures
            r@ == self@,
    {
        &self.dom
    }

    /// Renders one frame: settles the DOM if it is outdated, then emits
    /// the tree's draw commands into the sink, starting at the area's
    /// top-left corner.
    pub fn render(
        &mut self,
        element_types: &ElementTypes,
        area: &RenderArea,
        data: &mut RenderData,
    )
        ensures
            final(self)@ == settled(old(self)@),
            dom_wf(final(self)@),
            final(data)@ == old(data)@ + dom_cmds(
                settled(old(self)@),
                element_types@,
                area.position[0] as int,
                area.position[1] as int,
            ),
    {
        self.dom.update_outdated();
        render::render(&self.dom, element_types, area, data);
    }
}

} // verus!

