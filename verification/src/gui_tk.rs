//! What widgets are made of: their visual states, their colors, the events
//! they send, and how they answer the pad's select button.

use vstd::prelude::*;
use vstd::string::*;
use crate::canvas::{only_group, with_group_active, without_group, Canvas, Layer};
use crate::color::Color;
use crate::hid::{HIDEvent, IOState};
use crate::shapes::{Draw, Drawable, Rect};
use crate::text::Text;

verus! {

/// The visual state of a widget. Each state has its own group of layers.
#[derive(Clone, Copy, Debug, PartialEq, Eq, Structural)]
pub enum GuiState {
    Base,
    Clicked,
    Selected,
}

/// The colors of widgets: outline, text and background for each visual
/// state.
#[derive(Clone, Copy, Debug)]
pub struct Palette {
    pub base: Color,
    pub base_text: Color,
    pub base_background: Color,
    pub selected: Color,
    pub selected_text: Color,
    pub selected_background: Color,
    pub clicked: Color,
    pub clicked_text: Color,
    pub clicked_background: Color,
}

impl Palette {
    /// A palette of the given colors.
    pub fn new(
        base: Color,
        base_text: Color,
        base_background: Color,
        selected: Color,
        selected_text: Color,
        selected_background: Color,
        clicked: Color,
        clicked_text: Color,
        clicked_background: Color,
    ) -> (p: Palette)
        ensures
            p == (Palette {
                base,
                base_text,
                base_background,
                selected,
                selected_text,
                selected_background,
                clicked,
                clicked_text,
                clicked_background,
            }),
    {
        Palette {
            base,
            base_text,
            base_background,
            selected,
            selected_text,
            selected_background,
            clicked,
            clicked_text,
            clicked_background,
        }
    }

    /// The outline, text and background colors of a visual state.
    pub fn colors_of(&self, gui_state: GuiState) -> (r: (Color, Color, Color))
        ensures
            r == match gui_state {
                GuiState::Base => (self.base, self.base_text, self.base_background),
                GuiState::Clicked => (self.clicked, self.clicked_text, self.clicked_background),
                GuiState::Selected => (self.selected, self.selected_text, self.selected_background),
            },
    {
        match gui_state {
            GuiState::Base => (self.base, self.base_text, self.base_background),
            GuiState::Clicked => (self.clicked, self.clicked_text, self.clicked_background),
            GuiState::Selected => (self.selected, self.selected_text, self.selected_background),
        }
    }
}

/// What a widget tells the application: a name, and values to go with it.
#[derive(Clone, Debug)]
pub struct Event {
    pub name: &'static str,
    pub values: Option<Vec<String>>,
}

impl Event {
    /// An event named `name`.
    pub fn new(name: &'static str, values: Option<Vec<String>>) -> (e: Event)
        ensures
            e.name == name,
            e.values == values,
    {
        Event { name, values }
    }
}

/// The code of the pad's select button.
pub const SELECT_CODE: u8 = 6;

/// How a widget answers an event of the pad.
#[derive(Clone, Copy, Debug, PartialEq, Eq, Structural)]
pub struct Response {
    /// Whether the widget hands the input back to the view.
    pub return_control: bool,
    /// The visual state that the widget takes, if it takes a new one.
    pub gui_state: Option<GuiState>,
    /// Whether the widget sends its event.
    pub send_event: bool,
}

/// How a widget answers the pad event `h_e`.
///
/// Only the select button is answered. Pressing it clicks the widget, which
/// sends its event and keeps the input; releasing it selects the widget
/// again and hands the input back. While the button is held, a widget that
/// `repeats` is clicked again for each repeat; one that does not ignores
/// them.
pub open spec fn response_to(h_e: HIDEvent, repeats: bool) -> Response {
    if h_e.code != SELECT_CODE {
        Response { return_control: false, gui_state: None, send_event: false }
    } else {
        match h_e.io_state {
            IOState::Pressed => Response {
                return_control: false,
                gui_state: Some(GuiState::Clicked),
                send_event: true,
            },
            IOState::Released => Response {
                return_control: true,
                gui_state: Some(GuiState::Selected),
                send_event: false,
            },
            IOState::Repeated => if repeats {
                Response {
                    return_control: false,
                    gui_state: Some(GuiState::Clicked),
                    send_event: true,
                }
            } else {
                Response { return_control: false, gui_state: None, send_event: false }
            },
        }
    }
}

/// How a widget answers the pad event `h_e`.
pub fn handle_hid_event(h_e: &HIDEvent, repeats: bool) -> (r: Response)
    ensures
        r == response_to(*h_e, repeats),
{
    let ignored: Response = Response { return_control: false, gui_state: None, send_event: false };
    let clicked: Response = Response {
        return_control: false,
        gui_state: Some(GuiState::Clicked),
        send_event: true,
    };
    match h_e.code {
        6 => {
            match h_e.io_state {
                IOState::Pressed => clicked,
                IOState::Released => Response {
                    return_control: true,
                    gui_state: Some(GuiState::Selected),
                    send_event: false,
                },
                IOState::Repeated => if repeats {
                    clicked
                } else {
                    ignored
                },
            }
        },
        _ => ignored,
    }
}

/// Where a text of `text_width` pixels that was made at `own_x` starts in a
/// widget at `x` that is `w` pixels wide: a text that is narrower than the
/// widget is centered in it, any other text stays where it was made.
pub open spec fn centered(x: int, w: int, own_x: int, text_width: int) -> int {
    if text_width < w {
        x + (w - text_width) / 2
    } else {
        own_x
    }
}

/// Where a text of `text_width` pixels that was made at `own_x` starts in a
/// widget at `x` that is `w` pixels wide.
pub fn centered_x(x: i32, w: i32, own_x: i32, text_width: i32) -> (r: i32)
    requires
        0 <= text_width,
        i32::MIN <= centered(x as int, w as int, own_x as int, text_width as int) <= i32::MAX,
    ensures
        r == centered(x as int, w as int, own_x as int, text_width as int),
{
    if text_width < w {
        let x_offset: i32 = (w - text_width) / 2;
        x + x_offset
    } else {
        own_x
    }
}

/// Where a text of `text_width` pixels that was made at `own_x` starts in a
/// widget at `x` that is `w` pixels wide, if its width is not negative and
/// there is such a position.
pub fn checked_centered_x(x: i32, w: i32, own_x: i32, text_width: i32) -> (r: Option<i32>)
    ensures
        r is Some <==> 0 <= text_width && i32::MIN <= centered(
            x as int,
            w as int,
            own_x as int,
            text_width as int,
        ) <= i32::MAX,
        r matches Some(at) ==> at == centered(
            x as int,
            w as int,
            own_x as int,
            text_width as int,
        ),
{
    if text_width < 0 {
        return None;
    }
    let at: i64 = if text_width < w {
        x as i64 + (w as i64 - text_width as i64) / 2
    } else {
        own_x as i64
    };
    if at < i32::MIN as i64 || at > i32::MAX as i64 {
        None
    } else {
        Some(centered_x(x, w, own_x, text_width))
    }
}

/// Whether two visual states are the same.
pub fn eq_gui_state(gui_state_1: &GuiState, gui_state_2: &GuiState) -> (eq: bool)
    ensures
        eq == (*gui_state_1 == *gui_state_2),
{
    match gui_state_1 {
        GuiState::Base => match gui_state_2 {
            GuiState::Base => true,
            _ => false,
        },
        GuiState::Clicked => match gui_state_2 {
            GuiState::Clicked => true,
            _ => false,
        },
        GuiState::Selected => match gui_state_2 {
            GuiState::Selected => true,
            _ => false,
        },
    }
}

/// Whether two lists of visual states are the same: as long as each other,
/// and the same state at each place.
pub fn eq_gui_states(gui_states_1: &Vec<GuiState>, gui_states_2: &Vec<GuiState>) -> (eq: bool)
    ensures
        eq == (gui_states_1@ == gui_states_2@),
{
    if gui_states_1.len() == gui_states_2.len() {
        let mut i: usize = 0;
        while i < gui_states_1.len()
            invariant
                i <= gui_states_1.len(),
                gui_states_1@.len() == gui_states_2@.len(),
                forall|j: int| 0 <= j < i ==> gui_states_1@[j] == gui_states_2@[j],
            decreases gui_states_1.len() - i,
        {
            if !eq_gui_state(&gui_states_1[i], &gui_states_2[i]) {
                return false;
            }
            i = i + 1;
        }
        assert(gui_states_1@ =~= gui_states_2@);
        true
    } else {
        false
    }
}

/// The group tags of a widget's layers: one group for each visual state.
pub struct StateGroups {
    pub regular_name: String,
    pub selected_name: String,
    pub clicked_name: String,
}

/// The layers after a widget was shown in a visual state: the state's group
/// is set active and the two others inactive, in the order regular,
/// selected, clicked.
pub open spec fn shown_in<T>(
    layers: Seq<Layer<T>>,
    groups: StateGroups,
    gui_state: GuiState,
) -> Seq<Layer<T>> {
    let regular = with_group_active(layers, groups.regular_name@, gui_state == GuiState::Base);
    let selected = with_group_active(
        regular,
        groups.selected_name@,
        gui_state == GuiState::Selected,
    );
    with_group_active(selected, groups.clicked_name@, gui_state == GuiState::Clicked)
}

/// The layers after a widget was hidden: all three of its groups are set
/// inactive.
pub open spec fn hidden<T>(layers: Seq<Layer<T>>, groups: StateGroups) -> Seq<
    Layer<T>,
> {
    with_group_active(
        with_group_active(
            with_group_active(layers, groups.regular_name@, false),
            groups.selected_name@,
            false,
        ),
        groups.clicked_name@,
        false,
    )
}

impl StateGroups {
    /// The groups of the widget named `name`: the name followed by
    /// " - regular", " - selected" and " - clicked".
    pub fn new(name: &String) -> (g: StateGroups)
        ensures
            g.regular_name@ == name@ + " - regular"@,
            g.selected_name@ == name@ + " - selected"@,
            g.clicked_name@ == name@ + " - clicked"@,
    {
        StateGroups {
            regular_name: name.clone().concat(" - regular"),
            selected_name: name.clone().concat(" - selected"),
            clicked_name: name.clone().concat(" - clicked"),
        }
    }

    /// Shows the widget in the visual state `gui_state`: sets the layers of
    /// that state active and those of the two other states inactive.
    pub fn activate(&self, canvas: &mut Canvas, gui_state: GuiState)
        ensures
            final(canvas)@.layers == shown_in(old(canvas)@.layers, *self, gui_state),
            final(canvas)@.surface == old(canvas)@.surface,
    {
        match gui_state {
            GuiState::Base => {
                canvas.activate_layer_group(self.regular_name.clone());
                canvas.deactivate_layer_group(self.selected_name.clone());
                canvas.deactivate_layer_group(self.clicked_name.clone());
            },
            GuiState::Clicked => {
                canvas.deactivate_layer_group(self.regular_name.clone());
                canvas.deactivate_layer_group(self.selected_name.clone());
                canvas.activate_layer_group(self.clicked_name.clone());
            },
            GuiState::Selected => {
                canvas.deactivate_layer_group(self.regular_name.clone());
                canvas.activate_layer_group(self.selected_name.clone());
                canvas.deactivate_layer_group(self.clicked_name.clone());
            },
        }
    }

    /// Hides the widget: sets the layers of all three states inactive.
    pub fn deactivate(&self, canvas: &mut Canvas)
        ensures
            final(canvas)@.layers == hidden(old(canvas)@.layers, *self),
            final(canvas)@.surface == old(canvas)@.surface,
    {
        canvas.deactivate_layer_group(self.regular_name.clone());
        canvas.deactivate_layer_group(self.selected_name.clone());
        canvas.deactivate_layer_group(self.clicked_name.clone());
    }

    /// Removes the widget's layers of all three states from the canvas.
    pub fn drop_layers(&self, canvas: &mut Canvas)
        ensures
            final(canvas)@.layers == without_group(
                without_group(
                    without_group(old(canvas)@.layers, self.regular_name@),
                    self.selected_name@,
                ),
                self.clicked_name@,
            ),
            final(canvas)@.surface == old(canvas)@.surface,
    {
        canvas.drop_layer_group(self.regular_name.clone());
        canvas.drop_layer_group(self.selected_name.clone());
        canvas.drop_layer_group(self.clicked_name.clone());
    }

    /// Takes the widget's layers of all three states out of the canvas:
    /// those of the regular state first, then the selected, then the clicked
    /// ones, each in their order.
    pub fn take_layers(&self, canvas: &mut Canvas) -> (taken: Vec<
        Layer<Drawable>,
    >)
        ensures
            ({
                let first = without_group(old(canvas)@.layers, self.regular_name@);
                let second = without_group(first, self.selected_name@);
                &&& taken@ == only_group(old(canvas)@.layers, self.regular_name@)
                    + only_group(first, self.selected_name@)
                    + only_group(second, self.clicked_name@)
                &&& final(canvas)@.layers == without_group(
                    second,
                    self.clicked_name@,
                )
            }),
            final(canvas)@.surface == old(canvas)@.surface,
    {
        let mut layers: Vec<Layer<Drawable>> = canvas.get_layer_group(
            self.regular_name.clone(),
        );
        let mut selected: Vec<Layer<Drawable>> =
            canvas.get_layer_group(self.selected_name.clone());
        layers.append(&mut selected);
        let mut clicked: Vec<Layer<Drawable>> =
            canvas.get_layer_group(self.clicked_name.clone());
        layers.append(&mut clicked);
        layers
    }
}

/// The rectangle of a widget: its position and its size.
pub struct Frame {
    pub x: i32,
    pub y: i32,
    pub w: i32,
    pub h: i32,
}

/// A layer with a rectangle that fills or outlines a widget's frame.
pub open spec fn rect_layer(
    frame: Frame,
    filled: bool,
    color: Color,
    active: bool,
    group: String,
) -> Layer<Drawable> {
    Layer {
        item: Box::new(
            Drawable::Rect(Rect { x: frame.x, y: frame.y, w: frame.w, h: frame.h, filled, color }),
        ),
        active,
        group,
    }
}

/// Whether a text can be placed in a widget's frame: its width is not
/// negative, and where it goes is a position.
pub open spec fn can_center(text: Text, frame: Frame) -> bool {
    0 <= text@.bounds.2 && i32::MIN <= centered(
        frame.x as int,
        frame.w as int,
        text@.bounds.0,
        text@.bounds.2,
    ) <= i32::MAX
}

/// A layer with a text in a widget's frame: centered in the frame if it is
/// narrower than the frame, else where it was made. The text keeps its
/// height on the surface.
pub open spec fn text_layer(text: Text, frame: Frame, active: bool, group: String) -> Layer<
    Drawable,
> {
    Layer {
        item: Box::new(
            Drawable::Text(
                text.moved_to(
                    centered(frame.x as int, frame.w as int, text@.bounds.0, text@.bounds.2),
                    text@.bounds.1,
                ),
            ),
        ),
        active,
        group,
    }
}

/// A layer with a rectangle that fills or outlines a widget's frame.
fn new_rect_layer(frame: &Frame, filled: bool, color: Color, active: bool, group: &String) -> (l:
    Layer<Drawable>)
    ensures
        l == rect_layer(*frame, filled, color, active, *group),
{
    Layer::new(
        Drawable::Rect(Rect::new(frame.x, frame.y, frame.w, frame.h, filled, color)),
        active,
        group.clone(),
    )
}

/// A layer with a text in a widget's frame.
fn new_text_layer(text: Text, frame: &Frame, active: bool, group: &String) -> (l: Layer<Drawable>)
    requires
        can_center(text, *frame),
    ensures
        l == text_layer(text, *frame, active, *group),
{
    let mut text = text;
    let at: (i32, i32) = text.origin();
    let width: i32 = text.width();
    text.move_to(centered_x(frame.x, frame.w, at.0, width), at.1);
    Layer::new(Drawable::Text(text), active, group.clone())
}

/// The layers of a plain box: a filled rectangle for each visual state, in
/// the order regular, clicked, selected. The regular one starts active.
pub fn block_layers(frame: &Frame, palette: &Palette, groups: &StateGroups) -> (layers: Vec<
    Layer<Drawable>,
>)
    ensures
        layers@ == seq![
            rect_layer(*frame, true, palette.base_background, true, groups.regular_name),
            rect_layer(*frame, true, palette.clicked_background, false, groups.clicked_name),
            rect_layer(*frame, true, palette.selected_background, false, groups.selected_name),
        ],
{
    let mut layers: Vec<Layer<Drawable>> = Vec::new();
    layers.push(new_rect_layer(frame, true, palette.base_background, true, &groups.regular_name));
    layers.push(
        new_rect_layer(frame, true, palette.clicked_background, false, &groups.clicked_name),
    );
    layers.push(
        new_rect_layer(frame, true, palette.selected_background, false, &groups.selected_name),
    );
    layers
}

/// The layers of a line of text: the text of each visual state, in the
/// order regular, clicked, selected. A text that is narrower than the frame
/// is centered in it, any other stays where it was made. None starts
/// active.
pub fn text_block_layers(
    frame: &Frame,
    groups: &StateGroups,
    regular: Text,
    clicked: Text,
    selected: Text,
) -> (layers: Vec<Layer<Drawable>>)
    requires
        can_center(regular, *frame),
        can_center(clicked, *frame),
        can_center(selected, *frame),
    ensures
        layers@ == seq![
            text_layer(regular, *frame, false, groups.regular_name),
            text_layer(clicked, *frame, false, groups.clicked_name),
            text_layer(selected, *frame, false, groups.selected_name),
        ],
{
    let mut layers: Vec<Layer<Drawable>> = Vec::new();
    layers.push(new_text_layer(regular, frame, false, &groups.regular_name));
    layers.push(new_text_layer(clicked, frame, false, &groups.clicked_name));
    layers.push(new_text_layer(selected, frame, false, &groups.selected_name));
    layers
}

/// The layers of a button: for each visual state a filled background, an
/// outline and the text, in the order regular, clicked, selected. A text
/// that is narrower than the button is centered in it, any other stays
/// where it was made. The layers of the regular state start active.
pub fn button_layers(
    frame: &Frame,
    palette: &Palette,
    groups: &StateGroups,
    regular: Text,
    clicked: Text,
    selected: Text,
) -> (layers: Vec<Layer<Drawable>>)
    requires
        can_center(regular, *frame),
        can_center(clicked, *frame),
        can_center(selected, *frame),
    ensures
        layers@ == seq![
            rect_layer(*frame, true, palette.base_background, true, groups.regular_name),
            rect_layer(*frame, false, palette.base, true, groups.regular_name),
            text_layer(regular, *frame, true, groups.regular_name),
            rect_layer(*frame, true, palette.clicked_background, false, groups.clicked_name),
            rect_layer(*frame, false, palette.clicked, false, groups.clicked_name),
            text_layer(clicked, *frame, false, groups.clicked_name),
            rect_layer(*frame, true, palette.selected_background, false, groups.selected_name),
            rect_layer(*frame, false, palette.selected, false, groups.selected_name),
            text_layer(selected, *frame, false, groups.selected_name),
        ],
{
    let mut layers: Vec<Layer<Drawable>> = Vec::new();
    layers.push(new_rect_layer(frame, true, palette.base_background, true, &groups.regular_name));
    layers.push(new_rect_layer(frame, false, palette.base, true, &groups.regular_name));
    layers.push(new_text_layer(regular, frame, true, &groups.regular_name));
    layers.push(
        new_rect_layer(frame, true, palette.clicked_background, false, &groups.clicked_name),
    );
    layers.push(new_rect_layer(frame, false, palette.clicked, false, &groups.clicked_name));
    layers.push(new_text_layer(clicked, frame, false, &groups.clicked_name));
    layers.push(
        new_rect_layer(frame, true, palette.selected_background, false, &groups.selected_name),
    );
    layers.push(new_rect_layer(frame, false, palette.selected, false, &groups.selected_name));
    layers.push(new_text_layer(selected, frame, false, &groups.selected_name));
    layers
}

/// Whether a text can be placed in a widget's frame.
pub fn text_fits(text: &Text, frame: &Frame) -> (r: bool)
    ensures
        r == can_center(*text, *frame),
{
    let at: (i32, i32) = text.origin();
    checked_centered_x(frame.x, frame.w, at.0, text.width()).is_some()
}

} // verus!
