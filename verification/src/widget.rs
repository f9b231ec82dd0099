//! Widgets and the builders that make them.
//!
//! A widget is one interactive or drawable element of a vertical stack:
//! a [`Button`], an [`Image`], or a [`Text`] line. Two traversals visit a
//! stack of widgets: the event pass updates interactive state (hover,
//! click) and the render pass emits draw commands. Both thread the same
//! layout cursor through the siblings, advancing it by each widget's
//! height, and each computes its advance independently: that the two agree
//! is proved in [`lemma_traversals_agree`].

use vstd::prelude::*;
use crate::Event;
use crate::render::{CommandView, RenderArea, RenderData, RenderOffset};

verus! {

broadcast use vstd::seq::group_seq_axioms, vstd::std_specs::vec::group_vec_axioms;

/// The mathematical value of a button.
pub struct ButtonView {
    pub text: Seq<char>,
    pub width: int,
    pub height: int,
    pub callback: Option<u64>,
    pub hovering: bool,
}

/// The mathematical value of an image widget.
pub struct ImageView {
    pub texture: u64,
    pub width: int,
    pub height: int,
}

/// The mathematical value of a text widget.
pub struct TextView {
    pub text: Seq<char>,
}

/// The mathematical value of one widget.
pub enum WidgetView {
    Button(ButtonView),
    Image(ImageView),
    Text(TextView),
}

/// Whether a pointer at `(mx, my)` lies within the rectangle from
/// `(x, y)` of size `(w, h)`, half-open on both axes.
pub open spec fn hover_at(mx: int, my: int, x: int, y: int, w: int, h: int) -> bool {
    x <= mx && mx < x + w && y <= my && my < y + h
}

/// How far the event pass advances the layout cursor for one widget: its
/// height, whether or not the widget reacts to the event.
pub open spec fn event_advance(w: WidgetView) -> int {
    match w {
        WidgetView::Button(b) => b.height,
        WidgetView::Image(im) => im.height,
        WidgetView::Text(_) => 18,
    }
}

/// How far the render pass advances the layout cursor for one widget: its
/// height. Stated separately from [`event_advance`] because the two passes
/// compute their advances independently; [`lemma_traversals_agree`] proves
/// they agree.
pub open spec fn render_advance(w: WidgetView) -> int {
    match w {
        WidgetView::Button(b) => b.height,
        WidgetView::Image(im) => im.height,
        WidgetView::Text(_) => 18,
    }
}

/// A button's state after one event lands at its position `(x, y)`: a
/// pointer move recomputes `hovering`; everything else leaves it as is.
pub open spec fn button_step(b: ButtonView, event: Event, x: int, y: int) -> ButtonView {
    match event {
        Event::MouseMoved(m) => ButtonView {
            text: b.text,
            width: b.width,
            height: b.height,
            callback: b.callback,
            hovering: hover_at(m[0] as int, m[1] as int, x, y, b.width, b.height),
        },
        Event::MouseClick => b,
        Event::Placeholder => b,
    }
}

/// A widget's state after one event lands at its position.
pub open spec fn widget_step(w: WidgetView, event: Event, x: int, y: int) -> WidgetView {
    match w {
        WidgetView::Button(b) => WidgetView::Button(button_step(b, event, x, y)),
        WidgetView::Image(im) => WidgetView::Image(im),
        WidgetView::Text(t) => WidgetView::Text(t),
    }
}

/// The callbacks one widget fires for one event: a hovering button with a
/// registered callback fires it exactly once per click event; everything
/// else fires nothing.
pub open spec fn widget_fired(w: WidgetView, event: Event) -> Seq<u64> {
    match w {
        WidgetView::Button(b) => match event {
            Event::MouseClick => if b.hovering && b.callback is Some {
                seq![b.callback.unwrap()]
            } else {
                Seq::empty()
            },
            Event::MouseMoved(_) => Seq::empty(),
            Event::Placeholder => Seq::empty(),
        },
        WidgetView::Image(_) => Seq::empty(),
        WidgetView::Text(_) => Seq::empty(),
    }
}

/// The commands one widget emits at position `(x, y)`: a button draws its
/// plate (a lighter gray while hovered) and its caption; an image draws
/// its texture; a text line draws its text.
pub open spec fn widget_cmds(w: WidgetView, x: int, y: int) -> Seq<CommandView> {
    match w {
        WidgetView::Button(b) => seq![
            (CommandView::FlatRect {
                x,
                y,
                w: b.width,
                h: b.height,
                r: if b.hovering {
                    87int
                } else {
                    71int
                },
                g: if b.hovering {
                    87int
                } else {
                    71int
                },
                b: if b.hovering {
                    87int
                } else {
                    71int
                },
            }),
            (CommandView::Text { x: x + 4, y: y + 1, text: b.text }),
        ],
        WidgetView::Image(im) => seq![
            (CommandView::TexturedRect {
                x,
                y,
                w: im.width,
                h: im.height,
                texture: im.texture as int,
            }),
        ],
        WidgetView::Text(t) => seq![(CommandView::Text { x, y, text: t.text })],
    }
}

/// A widget that detects pointer input: it tracks whether the pointer
/// hovers over it and fires its callback on a click while hovered.
pub struct Button {
    text: String,
    size: [i32; 2],
    callback: Option<u64>,
    hovering: bool,
}

impl View for Button {
    type V = ButtonView;

    closed spec fn view(&self) -> ButtonView {
        ButtonView {
            text: self.text@,
            width: self.size[0] as int,
            height: self.size[1] as int,
            callback: self.callback,
            hovering: self.hovering,
        }
    }
}

/// A widget with an image content, drawn from a backend texture handle.
pub struct Image {
    texture: u64,
    size: [i32; 2],
}

impl View for Image {
    type V = ImageView;

    closed spec fn view(&self) -> ImageView {
        ImageView {
            texture: self.texture,
            width: self.size[0] as int,
            height: self.size[1] as int,
        }
    }
}

/// A widget with a text content.
pub struct Text {
    text: String,
}

impl View for Text {
    type V = TextView;

    closed spec fn view(&self) -> TextView {
        TextView { text: self.text@ }
    }
}

/// One widget of a stack.
pub enum Widget {
    Button(Button),
    Image(Image),
    Text(Text),
}

impl View for Widget {
    type V = WidgetView;

    closed spec fn view(&self) -> WidgetView {
        match self {
            Widget::Button(b) => WidgetView::Button(b@),
            Widget::Image(im) => WidgetView::Image(im@),
            Widget::Text(t) => WidgetView::Text(t@),
        }
    }
}

impl Button {
    /// Whether the pointer was over the button at the last pointer move.
    pub fn hovering(&self) -> (r: bool)
        ensures
            r == self@.hovering,
    {
        self.hovering
    }

    /// Updates the hover and click state from one event, advances the
    /// cursor by the button's height, and appends the callbacks fired.
    pub fn raise_event(
        &mut self,
        event: &Event,
        prev_area: &RenderArea,
        offset: &mut RenderOffset,
        fired: &mut Vec<u64>,
    )
        requires
            -0x8000_0000 <= old(offset).position[1] + old(self)@.height,
            old(offset).position[1] + old(self)@.height <= 0x7fff_ffff,
        ensures
            final(self)@ == button_step(
                old(self)@,
                *event,
                prev_area.position[0] + old(offset).position[0],
                prev_area.position[1] + old(offset).position[1],
            ),
            final(offset).position[0] == old(offset).position[0],
            final(offset).position[1] == old(offset).position[1] + event_advance(
                WidgetView::Button(old(self)@),
            ),
            final(fired)@ == old(fired)@ + widget_fired(WidgetView::Button(old(self)@), *event),
    {
        let ghost fired0 = fired@;
        match event {
            Event::MouseMoved(m) => {
                let px = prev_area.position[0] as i64 + offset.position[0] as i64;
                let py = prev_area.position[1] as i64 + offset.position[1] as i64;
                let mx = m[0] as i64;
                let my = m[1] as i64;
                self.hovering = px <= mx && mx < px + self.size[0] as i64 && py <= my && my < py
                    + self.size[1] as i64;
            },
            Event::MouseClick => {
                if self.hovering {
                    match self.callback {
                        Some(id) => fired.push(id),
                        None => {},
                    }
                }
            },
            Event::Placeholder => {},
        }
        offset.position = [offset.position[0], offset.position[1] + self.size[1]];
        proof {
            assert(fired@ =~= fired0 + widget_fired(WidgetView::Button(old(self)@), *event));
        }
    }

    /// Draws the button's plate and caption at the cursor and advances the
    /// cursor by the button's height.
    pub fn render(
        &self,
        data: &mut RenderData,
        prev_area: &RenderArea,
        offset: &mut RenderOffset,
    )
        requires
            -0x8000_0000 <= prev_area.position[0] + old(offset).position[0],
            prev_area.position[0] + old(offset).position[0] <= 0x7fff_fffb,
            -0x8000_0000 <= prev_area.position[1] + old(offset).position[1],
            prev_area.position[1] + old(offset).position[1] <= 0x7fff_fffe,
            -0x8000_0000 <= old(offset).position[1] + self@.height,
            old(offset).position[1] + self@.height <= 0x7fff_ffff,
        ensures
            final(data)@ == old(data)@ + widget_cmds(
                WidgetView::Button(self@),
                prev_area.position[0] + old(offset).position[0],
                prev_area.position[1] + old(offset).position[1],
            ),
            final(offset).position[0] == old(offset).position[0],
            final(offset).position[1] == old(offset).position[1] + render_advance(
                WidgetView::Button(self@),
            ),
    {
        let ghost data0 = data@;
        let pos = [
            prev_area.position[0] + offset.position[0],
            prev_area.position[1] + offset.position[1],
        ];
        let color: [i32; 3] = if self.hovering {
            [87, 87, 87]
        } else {
            [71, 71, 71]
        };
        data.render_rect_flat(pos, self.size, color);
        data.render_text([pos[0] + 4, pos[1] + 1], self.text.as_str());
        offset.position = [offset.position[0], offset.position[1] + self.size[1]];
        proof {
            assert(data@ =~= data0 + widget_cmds(
                WidgetView::Button(self@),
                prev_area.position[0] + old(offset).position[0],
                prev_area.position[1] + old(offset).position[1],
            ));
        }
    }
}

impl Image {
    /// Ignores the event but still advances the shared cursor by the
    /// image's height, as the render pass does.
    pub fn raise_event(
        &mut self,
        event: &Event,
        prev_area: &RenderArea,
        offset: &mut RenderOffset,
        fired: &mut Vec<u64>,
    )
        requires
            -0x8000_0000 <= old(offset).position[1] + old(self)@.height,
            old(offset).position[1] + old(self)@.height <= 0x7fff_ffff,
        ensures
            final(self)@ == old(self)@,
            final(offset).position[0] == old(offset).position[0],
            final(offset).position[1] == old(offset).position[1] + event_advance(
                WidgetView::Image(old(self)@),
            ),
            final(fired)@ == old(fired)@,
    {
        offset.position = [offset.position[0], offset.position[1] + self.size[1]];
        proof {
            assert(fired@ =~= old(fired)@);
        }
    }

    /// Draws the image's texture at the cursor and advances the cursor by
    /// the image's height.
    pub fn render(
        &self,
        data: &mut RenderData,
        prev_area: &RenderArea,
        offset: &mut RenderOffset,
    )
        requires
            -0x8000_0000 <= prev_area.position[0] + old(offset).position[0],
            prev_area.position[0] + old(offset).position[0] <= 0x7fff_ffff,
            -0x8000_0000 <= prev_area.position[1] + old(offset).position[1],
            prev_area.position[1] + old(offset).position[1] <= 0x7fff_ffff,
            -0x8000_0000 <= old(offset).position[1] + self@.height,
            old(offset).position[1] + self@.height <= 0x7fff_ffff,
        ensures
            final(data)@ == old(data)@ + widget_cmds(
                WidgetView::Image(self@),
                prev_area.position[0] + old(offset).position[0],
                prev_area.position[1] + old(offset).position[1],
            ),
            final(offset).position[0] == old(offset).position[0],
            final(offset).position[1] == old(offset).position[1] + render_advance(
                WidgetView::Image(self@),
            ),
    {
        let ghost data0 = data@;
        let pos = [
            prev_area.position[0] + offset.position[0],
            prev_area.position[1] + offset.position[1],
        ];
        data.render_rect_textured(pos, self.size, self.texture);
        offset.position = [offset.position[0], offset.position[1] + self.size[1]];
        proof {
            assert(data@ =~= data0 + widget_cmds(
                WidgetView::Image(self@),
                prev_area.position[0] + old(offset).position[0],
                prev_area.position[1] + old(offset).position[1],
            ));
        }
    }
}

impl Text {
    /// Ignores the event but still advances the shared cursor by the text
    /// line's height.
    pub fn raise_event(
        &mut self,
        event: &Event,
        prev_area: &RenderArea,
        offset: &mut RenderOffset,
        fired: &mut Vec<u64>,
    )
        requires
            -0x8000_0000 <= old(offset).position[1] + 18,
            old(offset).position[1] + 18 <= 0x7fff_ffff,
        ensures
            final(self)@ == old(self)@,
            final(offset).position[0] == old(offset).position[0],
            final(offset).position[1] == old(offset).position[1] + event_advance(
                WidgetView::Text(old(self)@),
            ),
            final(fired)@ == old(fired)@,
    {
        offset.position = [offset.position[0], offset.position[1] + 18];
        proof {
            assert(fired@ =~= old(fired)@);
        }
    }

    /// Draws the text at the cursor and advances the cursor by the text
    /// line's height.
    pub fn render(
        &self,
        data: &mut RenderData,
        prev_area: &RenderArea,
        offset: &mut RenderOffset,
    )
        requires
            -0x8000_0000 <= prev_area.position[0] + old(offset).position[0],
            prev_area.position[0] + old(offset).position[0] <= 0x7fff_ffff,
            -0x8000_0000 <= prev_area.position[1] + old(offset).position[1],
            prev_area.position[1] + old(offset).position[1] <= 0x7fff_ffff,
            -0x8000_0000 <= old(offset).position[1] + 18,
            old(offset).position[1] + 18 <= 0x7fff_ffff,
        ensures
            final(data)@ == old(data)@ + widget_cmds(
                WidgetView::Text(self@),
                prev_area.position[0] + old(offset).position[0],
                prev_area.position[1] + old(offset).position[1],
            ),
            final(offset).position[0] == old(offset).position[0],
            final(offset).position[1] == old(offset).position[1] + render_advance(
                WidgetView::Text(self@),
            ),
    {
        let ghost data0 = data@;
        let pos = [
            prev_area.position[0] + offset.position[0],
            prev_area.position[1] + offset.position[1],
        ];
        data.render_text(pos, self.text.as_str());
        offset.position = [offset.position[0], offset.position[1] + 18];
        proof {
            assert(data@ =~= data0 + widget_cmds(
                WidgetView::Text(self@),
                prev_area.position[0] + old(offset).position[0],
                prev_area.position[1] + old(offset).position[1],
            ));
        }
    }
}

/// The two passes advance the shared layout cursor identically for every
/// widget, though each computes its advance on its own.
pub proof fn lemma_traversals_agree(w: WidgetView)
    ensures
        event_advance(w) == render_advance(w),
{
}

/// A click fires a hovering button's registered callback exactly once,
/// and fires nothing while the button is not hovering or has no callback.
pub proof fn lemma_click_fires_exactly_once(b: ButtonView)
    ensures
        b.hovering && b.callback is Some ==> widget_fired(WidgetView::Button(b), Event::MouseClick)
            =~= seq![b.callback.unwrap()],
        !(b.hovering && b.callback is Some) ==> widget_fired(
            WidgetView::Button(b),
            Event::MouseClick,
        ) == Seq::<u64>::empty(),
{
}

/// Builds button widgets.
pub struct ButtonBuilder {
    pub text: String,
    pub size: [i32; 2],
    pub callback: Option<u64>,
}

impl ButtonBuilder {
    /// A builder with the default text (empty), size (80 by 20), and no
    /// callback.
    pub fn new() -> (r: ButtonBuilder)
        ensures
            r.text@ == Seq::<char>::empty(),
            r.size[0] == 80 && r.size[1] == 20,
            r.callback is None,
    {
        ButtonBuilder { text: String::new(), size: [80, 20], callback: None }
    }

    /// Requests a text caption for the button.
    pub fn with_text(self, text: &str) -> (r: ButtonBuilder)
        ensures
            r.text@ == text@,
            r.size == self.size,
            r.callback == self.callback,
    {
        ButtonBuilder { text: String::from_str(text), size: self.size, callback: self.callback }
    }

    /// Requests a callback, by its handle, to be fired on a click.
    pub fn with_callback(self, callback: u64) -> (r: ButtonBuilder)
        ensures
            r.text@ == self.text@,
            r.size == self.size,
            r.callback == Some(callback),
    {
        ButtonBuilder { text: self.text, size: self.size, callback: Some(callback) }
    }

    /// Builds the widget, not yet hovered.
    pub fn build_boxed(self) -> (r: Box<Button>)
        ensures
            r@.text == self.text@,
            r@.width == self.size[0] as int,
            r@.height == self.size[1] as int,
            r@.callback == self.callback,
            !r@.hovering,
    {
        Box::new(Button { text: self.text, size: self.size, callback: self.callback, hovering: false })
    }
}

/// Builds image widgets.
pub struct ImageBuilder {
    pub image_source: String,
    pub size: [i32; 2],
}

impl ImageBuilder {
    /// A builder with no source and a zero size.
    pub fn new() -> (r: ImageBuilder)
        ensures
            r.image_source@ == Seq::<char>::empty(),
            r.size[0] == 0 && r.size[1] == 0,
    {
        ImageBuilder { image_source: String::new(), size: [0, 0] }
    }

    /// Requests an image, by source path, to be displayed. Loading the
    /// image is the backend's job; see [`ImageBuilder::build_boxed`].
    pub fn with_source(self, source: &str) -> (r: ImageBuilder)
        ensures
            r.image_source@ == source@,
            r.size == self.size,
    {
        ImageBuilder { image_source: String::from_str(source), size: self.size }
    }

    /// Requests a size to show the widget at.
    pub fn with_size(self, size: [i32; 2]) -> (r: ImageBuilder)
        ensures
            r.image_source@ == self.image_source@,
            r.size == size,
    {
        ImageBuilder { image_source: self.image_source, size }
    }

    /// The requested source path, for the backend to load.
    pub fn source(&self) -> (r: &str)
        ensures
            r@ == self.image_source@,
    {
        self.image_source.as_str()
    }

    /// Builds the widget around the texture handle the backend gave for
    /// the requested source.
    pub fn build_boxed(self, texture: u64) -> (r: Box<Image>)
        ensures
            r@.texture == texture,
            r@.width == self.size[0] as int,
            r@.height == self.size[1] as int,
    {
        Box::new(Image { texture, size: self.size })
    }
}

/// Builds text widgets.
pub struct TextBuilder {
    pub text: String,
}

impl TextBuilder {
    /// A builder with the default text: empty.
    pub fn new() -> (r: TextBuilder)
        ensures
            r.text@ == Seq::<char>::empty(),
    {
        TextBuilder { text: String::new() }
    }

    /// Requests a specific text content for the widget.
    pub fn with_text(self, text: &str) -> (r: TextBuilder)
        ensures
            r.text@ == text@,
    {
        TextBuilder { text: String::from_str(text) }
    }

    /// Builds the widget.
    pub fn build_boxed(self) -> (r: Box<Text>)
        ensures
            r@.text == self.text@,
    {
        Box::new(Text { text: self.text })
    }
}

/// The views of a sequence of widgets, in order.
pub closed spec fn widget_views(s: Seq<Widget>) -> Seq<WidgetView>
    decreases s,
{
    if s.len() == 0 {
        Seq::empty()
    } else {
        widget_views(s.drop_last()).push(s.last()@)
    }
}

/// `widget_views` is the element-wise view.
pub proof fn lemma_widget_views_props(s: Seq<Widget>)
    ensures
        widget_views(s).len() == s.len(),
        forall|i: int| 0 <= i && i < s.len() ==> widget_views(s)[i] == s[i]@,
    decreases s.len(),
{
    if s.len() > 0 {
        lemma_widget_views_props(s.drop_last());
        assert(widget_views(s) == widget_views(s.drop_last()).push(s.last()@));
    } else {
        assert(widget_views(s) == Seq::<WidgetView>::empty());
    }
}

/// The event pass's cursor offset before the `k`-th sibling: the sum of
/// the advances of the first `k` widgets.
pub open spec fn event_prefix(ws: Seq<WidgetView>, k: int) -> int
    decreases k,
{
    if k <= 0 {
        0
    } else {
        event_prefix(ws, k - 1) + event_advance(ws[k - 1])
    }
}

/// The render pass's cursor offset before the `k`-th sibling, computed
/// from the render pass's own advances.
pub open spec fn render_prefix(ws: Seq<WidgetView>, k: int) -> int
    decreases k,
{
    if k <= 0 {
        0
    } else {
        render_prefix(ws, k - 1) + render_advance(ws[k - 1])
    }
}

/// The prefix offsets depend only on the widgets before `k`.
pub proof fn lemma_prefix_same(ws: Seq<WidgetView>, vs: Seq<WidgetView>, k: int)
    requires
        k <= ws.len(),
        k <= vs.len(),
        forall|j: int| 0 <= j && j < k ==> ws[j] == vs[j],
    ensures
        event_prefix(ws, k) == event_prefix(vs, k),
        render_prefix(ws, k) == render_prefix(vs, k),
    decreases k,
{
    if k > 0 {
        lemma_prefix_same(ws, vs, k - 1);
    }
}

/// The two traversals agree on the whole cursor arithmetic: before every
/// sibling, the offsets the two passes have independently accumulated are
/// equal.
pub proof fn lemma_cursor_agreement(ws: Seq<WidgetView>, k: int)
    ensures
        event_prefix(ws, k) == render_prefix(ws, k),
    decreases k,
{
    if k > 0 {
        lemma_cursor_agreement(ws, k - 1);
        lemma_traversals_agree(ws[k - 1]);
    }
}

/// Every cursor value of the event pass over the stack fits in an `i32`.
pub open spec fn event_cursor_fits(ws: Seq<WidgetView>) -> bool {
    forall|k: int|
        0 <= k && k <= ws.len() ==> -0x8000_0000 <= event_prefix(ws, k) && event_prefix(ws, k)
            <= 0x7fff_ffff
}

/// Every cursor value of the render pass fits in an `i32`, and every
/// widget position (the area corner plus the cursor) leaves room for the
/// draw commands' coordinates.
pub open spec fn render_cursor_fits(ws: Seq<WidgetView>, ax: int, ay: int) -> bool {
    &&& -0x8000_0000 <= ax && ax <= 0x7fff_fffb
    &&& forall|k: int|
        0 <= k && k <= ws.len() ==> -0x8000_0000 <= render_prefix(ws, k) && render_prefix(ws, k)
            <= 0x7fff_ffff
    &&& forall|k: int|
        0 <= k && k < ws.len() ==> -0x8000_0000 <= ay + render_prefix(ws, k) && ay + render_prefix(
            ws,
            k,
        ) <= 0x7fff_fffe
}

impl Widget {
    /// Lets the widget react to one event and advance the shared cursor.
    pub fn raise_event(
        &mut self,
        event: &Event,
        prev_area: &RenderArea,
        offset: &mut RenderOffset,
        fired: &mut Vec<u64>,
    )
        requires
            -0x8000_0000 <= old(offset).position[1] + event_advance(old(self)@),
            old(offset).position[1] + event_advance(old(self)@) <= 0x7fff_ffff,
        ensures
            final(self)@ == widget_step(
                old(self)@,
                *event,
                prev_area.position[0] + old(offset).position[0],
                prev_area.position[1] + old(offset).position[1],
            ),
            final(offset).position[0] == old(offset).position[0],
            final(offset).position[1] == old(offset).position[1] + event_advance(old(self)@),
            final(fired)@ == old(fired)@ + widget_fired(old(self)@, *event),
    {
        match self {
            Widget::Button(b) => b.raise_event(event, prev_area, offset, fired),
            Widget::Image(im) => im.raise_event(event, prev_area, offset, fired),
            Widget::Text(t) => t.raise_event(event, prev_area, offset, fired),
        }
        proof {
            assert(final(fired)@ =~= old(fired)@ + widget_fired(old(self)@, *event));
        }
    }

    /// The widget's height: how far either traversal advances the cursor
    /// past it.
    pub fn height(&self) -> (r: i32)
        ensures
            r as int == render_advance(self@),
            r as int == event_advance(self@),
    {
        match self {
            Widget::Button(b) => b.size[1],
            Widget::Image(im) => im.size[1],
            Widget::Text(_) => 18,
        }
    }

    /// Draws the widget at the cursor and advances the cursor.
    pub fn render(
        &self,
        data: &mut RenderData,
        prev_area: &RenderArea,
        offset: &mut RenderOffset,
    )
        requires
            -0x8000_0000 <= prev_area.position[0] + old(offset).position[0],
            prev_area.position[0] + old(offset).position[0] <= 0x7fff_fffb,
            -0x8000_0000 <= prev_area.position[1] + old(offset).position[1],
            prev_area.position[1] + old(offset).position[1] <= 0x7fff_fffe,
            -0x8000_0000 <= old(offset).position[1] + render_advance(self@),
            old(offset).position[1] + render_advance(self@) <= 0x7fff_ffff,
        ensures
            final(data)@ == old(data)@ + widget_cmds(
                self@,
                prev_area.position[0] + old(offset).position[0],
                prev_area.position[1] + old(offset).position[1],
            ),
            final(offset).position[0] == old(offset).position[0],
            final(offset).position[1] == old(offset).position[1] + render_advance(self@),
    {
        match self {
            Widget::Button(b) => b.render(data, prev_area, offset),
            Widget::Image(im) => im.render(data, prev_area, offset),
            Widget::Text(t) => t.render(data, prev_area, offset),
        }
    }
}

/// The background of a layout: nothing, or one flat color on the 0 to 255
/// scale per component.
pub enum LayoutBackground {
    Clear,
    Color([u8; 3]),
}

/// The mathematical value of a layout background.
pub open spec fn bg_view(b: LayoutBackground) -> Option<(int, int, int)> {
    match b {
        LayoutBackground::Clear => None,
        LayoutBackground::Color(c) => Some((c[0] as int, c[1] as int, c[2] as int)),
    }
}

/// The mathematical value of a layout: its background and its widgets in
/// stack order.
pub struct LayoutView {
    pub background: Option<(int, int, int)>,
    pub widgets: Seq<WidgetView>,
}

/// The commands a layout's background emits over an area: one flat
/// rectangle covering it, or nothing.
pub open spec fn layout_bg_cmds(l: LayoutView, ax: int, ay: int, aw: int, ah: int) -> Seq<
    CommandView,
> {
    match l.background {
        Some(c) => seq![
            (CommandView::FlatRect { x: ax, y: ay, w: aw, h: ah, r: c.0, g: c.1, b: c.2 }),
        ],
        None => Seq::empty(),
    }
}

/// The commands a stack of widgets emits, each at the area corner plus
/// its own cursor offset, in stack order.
pub open spec fn widgets_cmds(ws: Seq<WidgetView>, ax: int, ay: int) -> Seq<CommandView>
    decreases ws.len(),
{
    if ws.len() == 0 {
        Seq::empty()
    } else {
        widgets_cmds(ws.drop_last(), ax, ay) + widget_cmds(
            ws.last(),
            ax,
            ay + render_prefix(ws, ws.len() - 1),
        )
    }
}

/// The commands a whole layout emits: its background, then its widgets.
pub open spec fn layout_cmds(l: LayoutView, ax: int, ay: int, aw: int, ah: int) -> Seq<
    CommandView,
> {
    layout_bg_cmds(l, ax, ay, aw, ah) + widgets_cmds(l.widgets, ax, ay)
}

/// The widgets of a stack after one event, each stepped at its own cursor
/// offset.
pub open spec fn widgets_stepped(ws: Seq<WidgetView>, event: Event, ax: int, ay: int) -> Seq<
    WidgetView,
>
    decreases ws.len(),
{
    if ws.len() == 0 {
        Seq::empty()
    } else {
        widgets_stepped(ws.drop_last(), event, ax, ay).push(
            widget_step(ws.last(), event, ax, ay + event_prefix(ws, ws.len() - 1)),
        )
    }
}

/// `widgets_stepped` steps each widget at its own offset.
pub proof fn lemma_widgets_stepped_props(ws: Seq<WidgetView>, event: Event, ax: int, ay: int)
    ensures
        widgets_stepped(ws, event, ax, ay).len() == ws.len(),
        forall|k: int|
            0 <= k && k < ws.len() ==> widgets_stepped(ws, event, ax, ay)[k] == widget_step(
                ws[k],
                event,
                ax,
                ay + event_prefix(ws, k),
            ),
    decreases ws.len(),
{
    if ws.len() > 0 {
        lemma_widgets_stepped_props(ws.drop_last(), event, ax, ay);
        assert(widgets_stepped(ws, event, ax, ay) == widgets_stepped(
            ws.drop_last(),
            event,
            ax,
            ay,
        ).push(widget_step(ws.last(), event, ax, ay + event_prefix(ws, ws.len() - 1))));
        assert forall|k: int|
            0 <= k && k < ws.len() implies widgets_stepped(ws, event, ax, ay)[k] == widget_step(
            ws[k],
            event,
            ax,
            ay + event_prefix(ws, k),
        ) by {
            if k < ws.len() - 1 {
                lemma_prefix_same(ws.drop_last(), ws, k);
            }
        }
    } else {
        assert(widgets_stepped(ws, event, ax, ay) == Seq::<WidgetView>::empty());
    }
}

/// The callbacks a stack of widgets fires for one event, in stack order.
pub open spec fn widgets_fired(ws: Seq<WidgetView>, event: Event) -> Seq<u64>
    decreases ws.len(),
{
    if ws.len() == 0 {
        Seq::empty()
    } else {
        widgets_fired(ws.drop_last(), event) + widget_fired(ws.last(), event)
    }
}

/// A vertical stack of widgets over an optional background. Children
/// stack vertically: each traversal advances the shared cursor by each
/// child's height.
pub struct Layout {
    background: LayoutBackground,
    widgets: Vec<Widget>,
}

impl View for Layout {
    type V = LayoutView;

    closed spec fn view(&self) -> LayoutView {
        LayoutView { background: bg_view(self.background), widgets: widget_views(self.widgets@) }
    }
}

/// Builds layout widgets.
pub struct LayoutBuilder {
    pub background: LayoutBackground,
    pub widgets: Vec<Widget>,
}

impl LayoutBuilder {
    /// A builder with no background and no widgets.
    pub fn new() -> (r: LayoutBuilder)
        ensures
            r.background is Clear,
            r.widgets@ == Seq::<Widget>::empty(),
    {
        LayoutBuilder { background: LayoutBackground::Clear, widgets: Vec::new() }
    }

    /// Requests a background color, components on the 0 to 255 scale.
    pub fn with_background_color(self, color: [u8; 3]) -> (r: LayoutBuilder)
        ensures
            r.background == LayoutBackground::Color(color),
            r.widgets@ == self.widgets@,
    {
        LayoutBuilder { background: LayoutBackground::Color(color), widgets: self.widgets }
    }

    /// Appends one widget to the stack.
    pub fn with_widget(self, widget: Widget) -> (r: LayoutBuilder)
        ensures
            r.background == self.background,
            r.widgets@ == self.widgets@.push(widget),
    {
        let LayoutBuilder { background, mut widgets } = self;
        widgets.push(widget);
        LayoutBuilder { background, widgets }
    }

    /// Builds the layout.
    pub fn build(self) -> (r: Layout)
        ensures
            r@.background == bg_view(self.background),
            r@.widgets == widget_views(self.widgets@),
    {
        Layout { background: self.background, widgets: self.widgets }
    }
}

impl Layout {
    /// Replaces the background.
    pub fn set_background(&mut self, background: LayoutBackground)
        ensures
            final(self)@.background == bg_view(background),
            final(self)@.widgets == old(self)@.widgets,
    {
        self.background = background;
    }

    /// The widgets in stack order.
    pub fn widgets(&self) -> (r: &Vec<Widget>)
        ensures
            r@.len() == self@.widgets.len(),
            forall|i: int|
                0 <= i && i < r@.len() ==> (#[trigger] r@[i])@ == self@.widgets[i],
    {
        proof {
            lemma_widget_views_props(self.widgets@);
        }
        &self.widgets
    }

    /// Emits the background command, if any.
    fn render_background(&self, data: &mut RenderData, area: &RenderArea)
        ensures
            final(data)@ == old(data)@ + layout_bg_cmds(
                self@,
                area.position[0] as int,
                area.position[1] as int,
                area.size[0] as int,
                area.size[1] as int,
            ),
    {
        let ghost data0 = data@;
        match &self.background {
            LayoutBackground::Clear => {},
            LayoutBackground::Color(c) => {
                data.render_rect_flat(
                    area.position,
                    area.size,
                    [c[0] as i32, c[1] as i32, c[2] as i32],
                );
            },
        }
        proof {
            assert(data@ =~= data0 + layout_bg_cmds(
                self@,
                area.position[0] as int,
                area.position[1] as int,
                area.size[0] as int,
                area.size[1] as int,
            ));
        }
    }

    /// Renders the background, then every widget in stack order, each at
    /// the area corner plus the cursor the pass accumulates.
    #[verifier::loop_isolation(false)]
    pub fn render(&self, data: &mut RenderData, prev_area: &RenderArea)
        requires
            render_cursor_fits(
                self@.widgets,
                prev_area.position[0] as int,
                prev_area.position[1] as int,
            ),
        ensures
            final(data)@ == old(data)@ + layout_cmds(
                self@,
                prev_area.position[0] as int,
                prev_area.position[1] as int,
                prev_area.size[0] as int,
                prev_area.size[1] as int,
            ),
    {
        let ghost ws = self@.widgets;
        let ghost ax = prev_area.position[0] as int;
        let ghost ay = prev_area.position[1] as int;
        self.render_background(data, prev_area);
        let ghost mid = data@;
        let mut offset = RenderOffset { position: [0, 0] };
        proof {
            lemma_widget_views_props(self.widgets@);
            assert(widgets_cmds(ws.take(0), ax, ay) == Seq::<CommandView>::empty());
            assert(data@ =~= mid + widgets_cmds(ws.take(0), ax, ay));
        }
        let mut i: usize = 0;
        let n = self.widgets.len();
        while i < n
            invariant
                i <= n,
                offset.position[0] == 0,
                offset.position[1] == render_prefix(ws, i as int),
                data@ == mid + widgets_cmds(ws.take(i as int), ax, ay),
            decreases n - i,
        {
            proof {
                assert(ws[i as int] == self.widgets@[i as int]@);
                assert(render_prefix(ws, i as int + 1) == render_prefix(ws, i as int)
                    + render_advance(ws[i as int]));
            }
            self.widgets[i].render(data, prev_area, &mut offset);
            proof {
                let pre = ws.take(i as int);
                let post = ws.take(i as int + 1);
                assert(post.len() == i + 1);
                assert(post.drop_last() =~= pre);
                assert(post.last() == ws[i as int]);
                lemma_prefix_same(post, ws, i as int);
                assert(widgets_cmds(post, ax, ay) == widgets_cmds(pre, ax, ay) + widget_cmds(
                    ws[i as int],
                    ax,
                    ay + render_prefix(ws, i as int),
                ));
                assert(data@ =~= mid + widgets_cmds(post, ax, ay));
            }
            i = i + 1;
        }
        proof {
            assert(ws.take(n as int) =~= ws);
            assert(data@ =~= old(data)@ + layout_cmds(
                self@,
                ax,
                ay,
                prev_area.size[0] as int,
                prev_area.size[1] as int,
            ));
        }
    }

    /// Feeds one event to every widget in stack order, each at the area
    /// corner plus the cursor the pass accumulates, and appends the
    /// callbacks fired.
    #[verifier::loop_isolation(false)]
    pub fn raise_event(&mut self, event: &Event, prev_area: &RenderArea, fired: &mut Vec<u64>)
        requires
            event_cursor_fits(old(self)@.widgets),
        ensures
            final(self)@.background == old(self)@.background,
            final(self)@.widgets == widgets_stepped(
                old(self)@.widgets,
                *event,
                prev_area.position[0] as int,
                prev_area.position[1] as int,
            ),
            final(fired)@ == old(fired)@ + widgets_fired(old(self)@.widgets, *event),
    {
        let ghost ws = old(self)@.widgets;
        let ghost ax = prev_area.position[0] as int;
        let ghost ay = prev_area.position[1] as int;
        let ghost fired0 = fired@;
        let ghost stepped = widgets_stepped(ws, *event, ax, ay);
        proof {
            lemma_widget_views_props(old(self).widgets@);
            lemma_widgets_stepped_props(ws, *event, ax, ay);
            assert(widgets_fired(ws.take(0), *event) == Seq::<u64>::empty());
            assert(fired@ =~= fired0 + widgets_fired(ws.take(0), *event));
        }
        let mut offset = RenderOffset { position: [0, 0] };
        let mut i: usize = 0;
        let n = self.widgets.len();
        while i < n
            invariant
                i <= n,
                n == self.widgets.len(),
                offset.position[0] == 0,
                offset.position[1] == event_prefix(ws, i as int),
                forall|k: int|
                    i <= k && k < n ==> (#[trigger] self.widgets@[k])@ == ws[k],
                forall|k: int|
                    0 <= k && k < i ==> (#[trigger] self.widgets@[k])@ == stepped[k],
                self.background == old(self).background,
                fired@ == fired0 + widgets_fired(ws.take(i as int), *event),
            decreases n - i,
        {
            proof {
                assert(event_prefix(ws, i as int + 1) == event_prefix(ws, i as int)
                    + event_advance(ws[i as int]));
            }
            let w = &mut self.widgets[i];
            w.raise_event(event, prev_area, &mut offset, fired);
            proof {
                let pre = ws.take(i as int);
                let post = ws.take(i as int + 1);
                assert(post.len() == i + 1);
                assert(post.drop_last() =~= pre);
                assert(post.last() == ws[i as int]);
                assert(widgets_fired(post, *event) == widgets_fired(pre, *event) + widget_fired(
                    ws[i as int],
                    *event,
                ));
                assert(fired@ =~= fired0 + widgets_fired(post, *event));
            }
            i = i + 1;
        }
        proof {
            lemma_widget_views_props(self.widgets@);
            assert(ws.take(n as int) =~= ws);
            assert(widget_views(self.widgets@) =~= stepped);
            assert(fired@ =~= old(fired)@ + widgets_fired(ws, *event));
        }
    }
}

} // verus!
