//! Navigation of a view's widgets with the button pad.
//!
//! The widgets of a view are numbered as they are added. Those that can be
//! navigated to stand in the cells of a grid, several to a cell. One widget
//! is selected; the pad's direction buttons move the selection through a
//! cell, from cell to cell along a row, and from row to row.

use vstd::prelude::*;
use crate::gui_tk::{eq_gui_state, Event, GuiState};
use crate::hid::{HIDEvent, IOState};

verus! {

/// Whether the pad's input moves the selection or goes to the selected
/// widget.
#[derive(Clone, Copy, Debug, PartialEq, Eq, Structural)]
pub enum InputMode {
    Navigate,
    Manipulate,
}

/// What is done with a pad event.
#[derive(Clone, Copy, Debug, PartialEq, Eq, Structural)]
pub enum Route {
    /// Nothing: the event is for the root view.
    Ignore,
    /// The view is left.
    Escape,
    /// The event goes to the selected widget.
    ToSelected,
    /// The event moves the selection.
    Navigate,
}

/// The widgets of a view as far as navigation goes.
pub struct Navigator {
    /// The numbers of the widgets in each cell of each row.
    pub nav_index: Vec<Vec<Vec<usize>>>,
    pub selected_row: usize,
    pub selected_column: usize,
    pub selected_object: usize,
    /// The visual state of each widget, by its number.
    pub gui_state: Vec<GuiState>,
    pub input_mode: InputMode,
    /// How many widgets the view has.
    pub objects: usize,
}

/// The mathematical model of a view's navigation.
pub struct Nav {
    pub cells: Seq<Seq<Seq<usize>>>,
    pub row: int,
    pub column: int,
    pub object: usize,
    pub states: Seq<GuiState>,
    pub mode: InputMode,
    pub objects: int,
}

impl View for Navigator {
    type V = Nav;

    open spec fn view(&self) -> Nav {
        Nav {
            cells: Seq::new(
                self.nav_index@.len(),
                |r: int|
                    Seq::new(self.nav_index@[r]@.len(), |c: int| self.nav_index@[r]@[c]@),
            ),
            row: self.selected_row as int,
            column: self.selected_column as int,
            object: self.selected_object,
            states: self.gui_state@,
            mode: self.input_mode,
            objects: self.objects as int,
        }
    }
}

/// The first place of `state` in `states` from `from` on, if there is one.
pub open spec fn first_in_state(states: Seq<GuiState>, state: GuiState, from: int) -> Option<int>
    decreases states.len() - from,
{
    if from < 0 || from >= states.len() {
        None
    } else if states[from] == state {
        Some(from)
    } else {
        first_in_state(states, state, from + 1)
    }
}

/// The first place of `object` in `cell` from `from` on, if there is one.
pub open spec fn place_in_cell(cell: Seq<usize>, object: usize, from: int) -> Option<int>
    decreases cell.len() - from,
{
    if from < 0 || from >= cell.len() {
        None
    } else if cell[from] == object {
        Some(from)
    } else {
        place_in_cell(cell, object, from + 1)
    }
}

/// The nearest cell of `row` with widgets in it, going out from `column` by
/// `offset` and more: at each distance the cell to the right is looked at
/// before the one to the left. Distances stop short of the row's length.
pub open spec fn nearest_filled(row: Seq<Seq<usize>>, column: int, offset: int) -> Option<int>
    decreases row.len() - offset,
{
    if offset < 1 || offset >= row.len() {
        None
    } else if column + offset < row.len() && row[column + offset].len() > 0 {
        Some(column + offset)
    } else if 0 <= column - offset < row.len() && row[column - offset].len() > 0 {
        Some(column - offset)
    } else {
        nearest_filled(row, column, offset + 1)
    }
}

/// The last of the first `n` cells of `row` with widgets in it.
pub open spec fn last_filled(row: Seq<Seq<usize>>, n: int) -> Option<int>
    decreases n,
{
    if n <= 0 || n > row.len() {
        None
    } else if row[n - 1].len() > 0 {
        Some(n - 1)
    } else {
        last_filled(row, n - 1)
    }
}

impl Nav {
    /// Whether every widget in the grid, and the selected one, has a visual
    /// state.
    pub open spec fn states_cover(self) -> bool {
        &&& self.object < self.states.len()
        &&& forall|r: int, c: int, i: int|
            0 <= r < self.cells.len() && 0 <= c < self.cells[r].len() && 0 <= i
                < self.cells[r][c].len() ==> (#[trigger] self.cells[r][c][i]) < self.states.len()
    }

    /// Whether the selected cell is a cell of the grid.
    pub open spec fn cell_selected(self) -> bool {
        0 <= self.row < self.cells.len() && 0 <= self.column < self.cells[self.row].len()
    }

    /// Whether the selected widget stands in the selected cell.
    pub open spec fn selection_found(self) -> bool {
        self.cell_selected() && place_in_cell(
            self.cells[self.row][self.column],
            self.object,
            0,
        ) is Some
    }

    /// The selection on the first widget of the cell at `row` and `column`.
    pub open spec fn selecting(self, row: int, column: int) -> Nav {
        Nav { row, column, object: self.cells[row][column][0], ..self }
    }

    /// The visual states after the selection moved: the first widget that
    /// was selected so far, if there is one, is back in its base state, and
    /// the selected widget is selected.
    pub open spec fn selection_shown(self) -> Nav {
        let cleared = match first_in_state(self.states, GuiState::Selected, 0) {
            Some(at) => self.states.update(at, GuiState::Base),
            None => self.states,
        };
        Nav { states: cleared.update(self.object as int, GuiState::Selected), ..self }
    }

    /// `after`, with the selection shown if it is on another widget than
    /// here.
    pub open spec fn shown_if_moved(self, after: Nav) -> Nav {
        if after.object != self.object {
            after.selection_shown()
        } else {
            after
        }
    }

    /// How far a move by `amount` along an axis of `extent` places, from
    /// the place `at`, is from leaving the axis.
    pub open spec fn room(at: int, amount: int, extent: int) -> int {
        let left = if amount > 0 {
            extent - (at + amount)
        } else {
            at + amount + 1
        };
        if left > 0 {
            left
        } else {
            0
        }
    }

    /// After a move from cell to cell along the selected row: the selection
    /// goes `amount` cells on, and further in that direction while the cells
    /// are empty; it stays where it is if it would leave the row. Going
    /// left it lands on the last widget of the cell, going right on the
    /// first.
    pub open spec fn cell_moved(self, amount: int) -> Nav
        decreases Nav::room(self.column, amount, self.cells[self.row].len() as int),
    {
        let attempted = self.column + amount;
        if 0 <= attempted < self.cells[self.row].len() {
            let cell = self.cells[self.row][attempted];
            if cell.len() > 0 {
                if amount < 0 {
                    Nav { column: attempted, object: cell[cell.len() - 1], ..self }
                } else if amount > 0 {
                    Nav { column: attempted, object: cell[0], ..self }
                } else {
                    Nav { column: attempted, ..self }
                }
            } else if amount > 0 {
                self.cell_moved(amount + 1)
            } else if amount < 0 {
                self.cell_moved(amount - 1)
            } else {
                self
            }
        } else {
            self
        }
    }

    /// After a move to the left (`amount < 0`) or to the right
    /// (`amount > 0`): the selection goes to the neighbour in its cell, or
    /// from the end of its cell to the next cell.
    pub open spec fn h_moved(self, amount: int) -> Nav {
        let cell = self.cells[self.row][self.column];
        let at = place_in_cell(cell, self.object, 0)->0;
        let moved = if at >= 1 && amount < 0 {
            Nav { object: cell[at - 1], ..self }
        } else if at < 1 && amount < 0 {
            self.cell_moved(-1)
        } else if at + amount < cell.len() && amount > 0 {
            Nav { object: cell[at + 1], ..self }
        } else if at + amount >= cell.len() && amount > 0 {
            self.cell_moved(1)
        } else {
            self
        };
        self.shown_if_moved(moved)
    }

    /// The move to try after a move by `amount` found nothing: one further
    /// in the same direction.
    pub open spec fn further(amount: int) -> int {
        if amount > 0 {
            amount + 1
        } else {
            amount - 1
        }
    }

    /// After a move from row to row: the selection goes `amount` rows on.
    /// In that row it takes the cell at its column if that has widgets, else
    /// the nearest cell that has; in a row that is too short for its column
    /// it takes the last cell that has widgets. Where a row has nothing to
    /// land on, the next row in that direction is tried. The selection
    /// lands on the first widget of the cell, and stays where it is if it
    /// would leave the grid.
    pub open spec fn v_moved(self, amount: int) -> Nav
        decreases Nav::room(self.row, amount, self.cells.len() as int),
    {
        let attempted = self.row + amount;
        if 0 <= attempted < self.cells.len() {
            let row = self.cells[attempted];
            let landed = if self.column < row.len() && row.len() > 0 {
                if row[self.column].len() > 0 {
                    self.selecting(attempted, self.column)
                } else {
                    let found = match nearest_filled(row, self.column, 1) {
                        Some(column) => self.selecting(attempted, column),
                        None => self,
                    };
                    if found.object == self.object && amount != 0 {
                        found.v_moved(Nav::further(amount))
                    } else {
                        found
                    }
                }
            } else if row.len() > 0 {
                match last_filled(row, row.len() as int) {
                    Some(column) => self.selecting(attempted, column),
                    None => self,
                }
            } else if amount != 0 {
                self.v_moved(Nav::further(amount))
            } else {
                self
            };
            self.shown_if_moved(landed)
        } else {
            self
        }
    }
}

impl Nav {
    /// Whether `after` is this navigation with nothing changed but the
    /// selection and the visual states: the same grid, as many widgets, the
    /// same mode.
    pub open spec fn same_grid(self, after: Nav) -> bool {
        &&& after.cells == self.cells
        &&& after.objects == self.objects
        &&& after.mode == self.mode
    }
}

/// A widget of a cell is found in that cell.
proof fn lemma_place_found(cell: Seq<usize>, k: int, from: int)
    requires
        0 <= from <= k < cell.len(),
    ensures
        place_in_cell(cell, cell[k], from) is Some,
    decreases k - from,
{
    if cell[from] != cell[k] {
        lemma_place_found(cell, k, from + 1);
    }
}

/// The nearest cell with widgets is a cell of the row, and has widgets.
proof fn lemma_nearest_filled(row: Seq<Seq<usize>>, column: int, offset: int)
    requires
        0 <= column,
    ensures
        nearest_filled(row, column, offset) matches Some(c) ==> 0 <= c < row.len() && row[c].len()
            > 0,
    decreases row.len() - offset,
{
    if 1 <= offset < row.len() {
        lemma_nearest_filled(row, column, offset + 1);
    }
}

/// The last cell with widgets is a cell of the row, and has widgets.
proof fn lemma_last_filled(row: Seq<Seq<usize>>, n: int)
    ensures
        last_filled(row, n) matches Some(c) ==> 0 <= c < row.len() && row[c].len() > 0,
    decreases n,
{
    if 0 < n <= row.len() {
        lemma_last_filled(row, n - 1);
    }
}

/// A move from cell to cell leaves the grid, the row and the visual states
/// alone, and a selection that stood in its cell stands in its cell after
/// it.
pub proof fn lemma_cell_moved_keeps_selection(n: Nav, amount: int)
    ensures
        n.same_grid(n.cell_moved(amount)),
        n.cell_moved(amount).states == n.states,
        n.cell_moved(amount).row == n.row,
        n.selection_found() ==> n.cell_moved(amount).selection_found(),
    decreases Nav::room(n.column, amount, n.cells[n.row].len() as int),
{
    let attempted = n.column + amount;
    if 0 <= attempted < n.cells[n.row].len() {
        let cell = n.cells[n.row][attempted];
        if cell.len() > 0 {
            lemma_place_found(cell, cell.len() - 1, 0);
            lemma_place_found(cell, 0, 0);
        } else if amount > 0 {
            lemma_cell_moved_keeps_selection(n, amount + 1);
        } else if amount < 0 {
            lemma_cell_moved_keeps_selection(n, amount - 1);
        }
    }
}

/// The place of a widget in a cell is a place of the cell.
proof fn lemma_place_in_range(cell: Seq<usize>, object: usize, from: int)
    requires
        0 <= from,
    ensures
        place_in_cell(cell, object, from) matches Some(at) ==> from <= at < cell.len() && cell[at]
            == object,
    decreases cell.len() - from,
{
    if from < cell.len() && cell[from] != object {
        lemma_place_in_range(cell, object, from + 1);
    }
}

/// The first place of a visual state is a place of the list.
proof fn lemma_first_in_range(states: Seq<GuiState>, state: GuiState, from: int)
    requires
        0 <= from,
    ensures
        first_in_state(states, state, from) matches Some(at) ==> from <= at < states.len(),
    decreases states.len() - from,
{
    if from < states.len() && states[from] != state {
        lemma_first_in_range(states, state, from + 1);
    }
}

/// A selection that stands in its cell has a visual state, where every
/// widget of the grid has one.
proof fn lemma_selected_is_covered(before: Nav, n: Nav)
    requires
        before.states_cover(),
        n.cells == before.cells,
        n.states == before.states,
        n.selection_found(),
    ensures
        n.states_cover(),
{
    let cell = n.cells[n.row][n.column];
    lemma_place_in_range(cell, n.object, 0);
    let at = place_in_cell(cell, n.object, 0)->0;
    assert(n.cells[n.row][n.column][at] == n.object);
}

/// Showing the selection keeps a visual state for every widget.
proof fn lemma_shown_keeps_cover(n: Nav)
    requires
        n.states_cover(),
    ensures
        n.selection_shown().states_cover(),
        n.selection_shown().states.len() == n.states.len(),
        n.selection_shown().selection_found() == n.selection_found(),
{
    lemma_first_in_range(n.states, GuiState::Selected, 0);
}

/// A move to the left or to the right leaves the grid alone, and a
/// selection that stood in its cell stands in its cell after it. Where
/// every widget has a visual state, every widget has one after it.
pub proof fn lemma_h_moved_keeps_selection(n: Nav, amount: int)
    requires
        n.selection_found(),
    ensures
        n.same_grid(n.h_moved(amount)),
        n.h_moved(amount).row == n.row,
        n.h_moved(amount).selection_found(),
        n.states_cover() ==> n.h_moved(amount).states_cover() && n.h_moved(amount).states.len()
            == n.states.len(),
{
    let cell = n.cells[n.row][n.column];
    let at = place_in_cell(cell, n.object, 0)->0;
    lemma_place_in_range(cell, n.object, 0);
    lemma_cell_moved_keeps_selection(n, -1);
    lemma_cell_moved_keeps_selection(n, 1);
    let moved = if at >= 1 && amount < 0 {
        Nav { object: cell[at - 1], ..n }
    } else if at < 1 && amount < 0 {
        n.cell_moved(-1)
    } else if at + amount < cell.len() && amount > 0 {
        Nav { object: cell[at + 1], ..n }
    } else if at + amount >= cell.len() && amount > 0 {
        n.cell_moved(1)
    } else {
        n
    };
    if at >= 1 && amount < 0 {
        lemma_place_found(cell, at - 1, 0);
    } else if at + amount < cell.len() && amount > 0 {
        lemma_place_found(cell, at + 1, 0);
    }
    assert(moved.selection_found());
    if n.states_cover() {
        lemma_selected_is_covered(n, moved);
        lemma_shown_keeps_cover(moved);
    }
}

/// A move from row to row leaves the grid alone, and a selection that stood
/// in its cell stands in its cell after it. Where every widget has a visual
/// state, every widget has one after it.
pub proof fn lemma_v_moved_keeps_selection(n: Nav, amount: int)
    requires
        n.selection_found(),
    ensures
        n.same_grid(n.v_moved(amount)),
        n.v_moved(amount).selection_found(),
        n.states_cover() ==> n.v_moved(amount).states_cover() && n.v_moved(amount).states.len()
            == n.states.len(),
    decreases Nav::room(n.row, amount, n.cells.len() as int),
{
    let attempted = n.row + amount;
    if 0 <= attempted < n.cells.len() {
        let row = n.cells[attempted];
        let landed = if n.column < row.len() && row.len() > 0 {
            if row[n.column].len() > 0 {
                lemma_place_found(row[n.column], 0, 0);
                n.selecting(attempted, n.column)
            } else {
                lemma_nearest_filled(row, n.column, 1);
                let found = match nearest_filled(row, n.column, 1) {
                    Some(c) => {
                        lemma_place_found(row[c], 0, 0);
                        n.selecting(attempted, c)
                    },
                    None => n,
                };
                if found.object == n.object && amount != 0 {
                    if n.states_cover() {
                        lemma_selected_is_covered(n, found);
                    }
                    lemma_v_moved_keeps_selection(found, Nav::further(amount));
                    found.v_moved(Nav::further(amount))
                } else {
                    found
                }
            }
        } else if row.len() > 0 {
            lemma_last_filled(row, row.len() as int);
            match last_filled(row, row.len() as int) {
                Some(c) => {
                    lemma_place_found(row[c], 0, 0);
                    n.selecting(attempted, c)
                },
                None => n,
            }
        } else if amount != 0 {
            lemma_v_moved_keeps_selection(n, Nav::further(amount));
            n.v_moved(Nav::further(amount))
        } else {
            n
        };
        assert(landed.selection_found());
        assert(n.v_moved(amount) == n.shown_if_moved(landed));
        if n.states_cover() {
            if landed.states == n.states {
                lemma_selected_is_covered(n, landed);
            }
            lemma_shown_keeps_cover(landed);
        }
    }
}

/// The answer to a pad event in the mode `mode`: while navigating, the home
/// button is left to the root view, the back button leaves the view, the
/// select button goes to the selected widget and all else moves the
/// selection; while a widget is manipulated, everything goes to it.
pub open spec fn routed(mode: InputMode, code: u8) -> Route {
    match mode {
        InputMode::Navigate => if code == 0 {
            Route::Ignore
        } else if code == 1 {
            Route::Escape
        } else if code == 6 {
            Route::ToSelected
        } else {
            Route::Navigate
        },
        InputMode::Manipulate => Route::ToSelected,
    }
}

impl Navigator {
    /// A view without widgets, with a grid of four rows of four cells.
    pub fn new() -> (v: Navigator)
        ensures
            v@ == (Nav {
                cells: Seq::new(4, |r: int| Seq::new(4, |c: int| Seq::<usize>::empty())),
                row: 0,
                column: 0,
                object: 0,
                states: Seq::<GuiState>::empty(),
                mode: InputMode::Navigate,
                objects: 0,
            }),
    {
        let mut nav_index: Vec<Vec<Vec<usize>>> = Vec::new();
        let mut r: usize = 0;
        while r < 4
            invariant
                r <= 4,
                nav_index@.len() == r,
                forall|i: int|
                    0 <= i < r ==> (#[trigger] nav_index@[i])@.len() == 4 && forall|c: int|
                        0 <= c < 4 ==> (#[trigger] nav_index@[i]@[c])@ == Seq::<usize>::empty(),
            decreases 4 - r,
        {
            let mut row: Vec<Vec<usize>> = Vec::new();
            let mut c: usize = 0;
            while c < 4
                invariant
                    c <= 4,
                    row@.len() == c,
                    forall|i: int| 0 <= i < c ==> (#[trigger] row@[i])@ == Seq::<usize>::empty(),
                decreases 4 - c,
            {
                row.push(Vec::new());
                c = c + 1;
            }
            nav_index.push(row);
            r = r + 1;
        }
        let v = Navigator {
            nav_index,
            selected_row: 0,
            selected_column: 0,
            selected_object: 0,
            gui_state: Vec::new(),
            input_mode: InputMode::Navigate,
            objects: 0,
        };
        assert(v@.cells =~~= Seq::new(4, |r: int| Seq::new(4, |c: int| Seq::<usize>::empty())));
        v
    }

    /// Adds a widget that can be navigated to, in the cell at `row` and
    /// `column`. The widget gets the next number.
    pub fn add_object(&mut self, row: usize, column: usize)
        requires
            row < old(self)@.cells.len(),
            column < old(self)@.cells[row as int].len(),
            old(self)@.objects < usize::MAX,
        ensures
            final(self)@ == (Nav {
                cells: old(self)@.cells.update(
                    row as int,
                    old(self)@.cells[row as int].update(
                        column as int,
                        old(self)@.cells[row as int][column as int].push(old(self).objects),
                    ),
                ),
                objects: old(self)@.objects + 1,
                ..old(self)@
            }),
    {
        let object_index: usize = self.objects;
        self.objects = self.objects + 1;
        self.nav_index[row][column].push(object_index);
        assert(self@.cells =~~= old(self)@.cells.update(
            row as int,
            old(self)@.cells[row as int].update(
                column as int,
                old(self)@.cells[row as int][column as int].push(object_index),
            ),
        ));
    }

    /// Adds a widget that cannot be navigated to. The widget gets the next
    /// number.
    pub fn add_static_object(&mut self)
        requires
            old(self)@.objects < usize::MAX,
        ensures
            final(self)@ == (Nav { objects: old(self)@.objects + 1, ..old(self)@ }),
    {
        self.objects = self.objects + 1;
    }

    /// Leaves the view. Nothing is sent.
    pub fn escape(&mut self) -> (r: Option<Event>)
        ensures
            r is None,
            *final(self) == *old(self),
    {
        None
    }

    /// What is done with the pad event `h_e` in the view's mode.
    pub fn route(&self, h_e: &HIDEvent) -> (r: Route)
        ensures
            r == routed(self@.mode, h_e.code),
    {
        match self.input_mode {
            InputMode::Navigate => match h_e.code {
                0 => Route::Ignore,
                1 => Route::Escape,
                6 => Route::ToSelected,
                _ => Route::Navigate,
            },
            InputMode::Manipulate => Route::ToSelected,
        }
    }

    /// Whether `nav` may be called for the pad event `h_e`.
    pub open spec fn can_nav(self, h_e: HIDEvent) -> bool {
        h_e.io_state == IOState::Pressed ==> {
            &&& self@.states_cover()
            &&& h_e.code == 2 || h_e.code == 3 ==> self@.selection_found()
        }
    }

    /// Whether every widget in the grid, and the selected one, has a visual
    /// state.
    pub fn states_cover(&self) -> (r: bool)
        ensures
            r == self@.states_cover(),
    {
        if self.selected_object >= self.gui_state.len() {
            return false;
        }
        let ghost cells = self@.cells;
        let mut r: usize = 0;
        while r < self.nav_index.len()
            invariant
                r <= self.nav_index.len(),
                cells == self@.cells,
                forall|a: int, c: int, i: int|
                    0 <= a < r && 0 <= c < cells[a].len() && 0 <= i < cells[a][c].len() ==> (
                    #[trigger] cells[a][c][i]) < self@.states.len(),
            decreases self.nav_index.len() - r,
        {
            let mut c: usize = 0;
            while c < self.nav_index[r].len()
                invariant
                    r < self.nav_index.len(),
                    c <= self.nav_index[r as int].len(),
                    cells == self@.cells,
                    forall|a: int, b: int, i: int|
                        0 <= a < r && 0 <= b < cells[a].len() && 0 <= i < cells[a][b].len() ==> (
                        #[trigger] cells[a][b][i]) < self@.states.len(),
                    forall|b: int, i: int|
                        0 <= b < c && 0 <= i < cells[r as int][b].len() ==> (
                        #[trigger] cells[r as int][b][i]) < self@.states.len(),
                decreases self.nav_index[r as int].len() - c,
            {
                let mut i: usize = 0;
                while i < self.nav_index[r][c].len()
                    invariant
                        r < self.nav_index.len(),
                        c < self.nav_index[r as int].len(),
                        i <= self.nav_index[r as int][c as int].len(),
                        cells == self@.cells,
                        forall|j: int|
                            0 <= j < i ==> (#[trigger] cells[r as int][c as int][j])
                                < self@.states.len(),
                    decreases self.nav_index[r as int][c as int].len() - i,
                {
                    if self.nav_index[r][c][i] >= self.gui_state.len() {
                        assert(cells[r as int][c as int][i as int] >= self@.states.len());
                        return false;
                    }
                    i = i + 1;
                }
                c = c + 1;
            }
            r = r + 1;
        }
        true
    }

    /// Whether the selected widget stands in the selected cell.
    pub fn selection_found(&self) -> (r: bool)
        ensures
            r == self@.selection_found(),
    {
        if self.selected_row < self.nav_index.len() && self.selected_column
            < self.nav_index[self.selected_row].len() {
            self.place_of_selected().is_some()
        } else {
            false
        }
    }

    /// Whether `nav` may be called for the pad event `h_e`.
    pub fn nav_allowed(&self, h_e: &HIDEvent) -> (r: bool)
        ensures
            r == self.can_nav(*h_e),
    {
        match h_e.io_state {
            IOState::Pressed => {
                if !self.states_cover() {
                    false
                } else if h_e.code == 2 || h_e.code == 3 {
                    self.selection_found()
                } else {
                    true
                }
            },
            _ => true,
        }
    }

    /// Moves the selection by the pad event `h_e`: a press of the left,
    /// right, up or down button moves it one step that way. Nothing is
    /// sent.
    pub fn nav(&mut self, h_e: &HIDEvent) -> (r: Option<Event>)
        requires
            old(self).can_nav(*h_e),
        ensures
            r is None,
            final(self)@ == if h_e.io_state != IOState::Pressed {
                old(self)@
            } else if h_e.code == 2 {
                old(self)@.h_moved(-1)
            } else if h_e.code == 3 {
                old(self)@.h_moved(1)
            } else if h_e.code == 4 {
                old(self)@.v_moved(-1)
            } else if h_e.code == 5 {
                old(self)@.v_moved(1)
            } else {
                old(self)@
            },
    {
        match h_e.io_state {
            IOState::Pressed => match h_e.code {
                2 => self.h_move(-1),
                3 => self.h_move(1),
                4 => self.v_move(-1),
                5 => self.v_move(1),
                _ => (),
            },
            _ => (),
        }
        None
    }

    fn select_first_in(&mut self, row: usize, column: usize)
        requires
            row < old(self)@.cells.len(),
            column < old(self)@.cells[row as int].len(),
            old(self)@.cells[row as int][column as int].len() > 0,
        ensures
            final(self)@ == old(self)@.selecting(row as int, column as int),
    {
        self.selected_row = row;
        self.selected_column = column;
        self.selected_object = self.nav_index[row][column][0];
    }

    fn nearest_filled_in(&self, row: usize) -> (r: Option<usize>)
        requires
            row < self@.cells.len(),
        ensures
            r matches Some(column) ==> nearest_filled(self@.cells[row as int], self@.column, 1)
                == Some(column as int) && column < self@.cells[row as int].len()
                && self@.cells[row as int][column as int].len() > 0,
            r is None ==> nearest_filled(self@.cells[row as int], self@.column, 1) is None,
    {
        let length: usize = self.nav_index[row].len();
        let ghost cells = self@.cells[row as int];
        let mut offset: usize = 1;
        while offset < length
            invariant
                1 <= offset,
                row < self@.cells.len(),
                cells == self@.cells[row as int],
                length == cells.len(),
                nearest_filled(cells, self@.column, 1) == nearest_filled(
                    cells,
                    self@.column,
                    offset as int,
                ),
            decreases length - offset,
        {
            let pos_attempt: u128 = self.selected_column as u128 + offset as u128;
            if pos_attempt < length as u128 {
                if self.nav_index[row][pos_attempt as usize].len() > 0 {
                    return Some(pos_attempt as usize);
                }
            }
            if self.selected_column >= offset && self.selected_column - offset < length {
                let neg_attempt: usize = self.selected_column - offset;
                if self.nav_index[row][neg_attempt].len() > 0 {
                    return Some(neg_attempt);
                }
            }
            offset = offset + 1;
        }
        None
    }

    fn last_filled_in(&self, row: usize) -> (r: Option<usize>)
        requires
            row < self@.cells.len(),
        ensures
            r matches Some(column) ==> last_filled(
                self@.cells[row as int],
                self@.cells[row as int].len() as int,
            ) == Some(column as int) && column < self@.cells[row as int].len()
                && self@.cells[row as int][column as int].len() > 0,
            r is None ==> last_filled(self@.cells[row as int], self@.cells[row as int].len() as int)
                is None,
    {
        let ghost cells = self@.cells[row as int];
        let mut n: usize = self.nav_index[row].len();
        while n > 0
            invariant
                row < self@.cells.len(),
                cells == self@.cells[row as int],
                n <= cells.len(),
                last_filled(cells, cells.len() as int) == last_filled(cells, n as int),
            decreases n,
        {
            if self.nav_index[row][n - 1].len() > 0 {
                return Some(n - 1);
            }
            n = n - 1;
        }
        None
    }

    /// Moves the selection `amount` rows down, or up if `amount` is
    /// negative, to where there is a widget to land on.
    pub fn v_move(&mut self, amount: isize)
        requires
            old(self)@.states_cover(),
        ensures
            final(self)@ == old(self)@.v_moved(amount as int),
            final(self)@.states_cover(),
    {
        self.v_move_by(amount as i128);
    }

    fn v_move_by(&mut self, amount: i128)
        requires
            old(self)@.states_cover(),
            isize::MIN - usize::MAX - 1 <= amount <= isize::MAX + usize::MAX + 1,
        ensures
            final(self)@ == old(self)@.v_moved(amount as int),
            final(self)@.states_cover(),
            final(self)@.cells == old(self)@.cells,
            final(self)@.states.len() == old(self)@.states.len(),
        decreases Nav::room(old(self)@.row, amount as int, old(self)@.cells.len() as int),
    {
        let original_selected_object: usize = self.selected_object;
        let row_count: i128 = self.nav_index.len() as i128;
        let attempted_row: i128 = self.selected_row as i128 + amount;
        if attempted_row >= 0 && attempted_row < row_count {
            let row: usize = attempted_row as usize;
            let attempted_row_length: usize = self.nav_index[row].len();
            if self.selected_column < attempted_row_length && attempted_row_length > 0 {
                if self.nav_index[row][self.selected_column].len() > 0 {
                    let column: usize = self.selected_column;
                    self.select_first_in(row, column);
                } else {
                    match self.nearest_filled_in(row) {
                        Some(column) => self.select_first_in(row, column),
                        None => (),
                    }
                    if original_selected_object == self.selected_object && amount != 0 {
                        let next: i128 = if amount > 0 {
                            amount + 1
                        } else {
                            amount - 1
                        };
                        self.v_move_by(next);
                    }
                }
            } else if attempted_row_length > 0 {
                match self.last_filled_in(row) {
                    Some(column) => self.select_first_in(row, column),
                    None => (),
                }
            } else if amount != 0 {
                let next: i128 = if amount > 0 {
                    amount + 1
                } else {
                    amount - 1
                };
                self.v_move_by(next);
            }
            if original_selected_object != self.selected_object {
                self.move_selection();
            }
        }
    }

    fn h_cell_move(&mut self, amount: i128)
        requires
            old(self)@.row < old(self)@.cells.len(),
            isize::MIN - usize::MAX - 1 <= amount <= isize::MAX + usize::MAX + 1,
        ensures
            final(self)@ == old(self)@.cell_moved(amount as int),
            final(self)@.cells == old(self)@.cells,
            final(self)@.states == old(self)@.states,
            final(self)@.object != old(self)@.object ==> exists|c: int, i: int|
                0 <= c < old(self)@.cells[old(self)@.row].len() && 0 <= i
                    < old(self)@.cells[old(self)@.row][c].len() && final(self)@.object
                    == #[trigger] old(self)@.cells[old(self)@.row][c][i],
        decreases
                Nav::room(
                    old(self)@.column,
                    amount as int,
                    old(self)@.cells[old(self)@.row].len() as int,
                ),
    {
        let row_length: i128 = self.nav_index[self.selected_row].len() as i128;
        let attempted_column: i128 = self.selected_column as i128 + amount;
        if attempted_column < row_length && attempted_column >= 0 {
            let column: usize = attempted_column as usize;
            let cell_length: usize = self.nav_index[self.selected_row][column].len();
            if cell_length > 0 {
                self.selected_column = column;
                if amount < 0 {
                    self.selected_object = self.nav_index[self.selected_row][column][cell_length
                        - 1];
                } else if amount > 0 {
                    self.selected_object = self.nav_index[self.selected_row][column][0];
                }
            } else {
                if amount > 0 {
                    self.h_cell_move(amount + 1);
                } else if amount < 0 {
                    self.h_cell_move(amount - 1);
                }
            }
        }
    }

    fn place_of_selected(&self) -> (r: Option<usize>)
        requires
            self@.cell_selected(),
        ensures
            r matches Some(at) ==> place_in_cell(
                self@.cells[self@.row][self@.column],
                self@.object,
                0,
            ) == Some(at as int) && at < self@.cells[self@.row][self@.column].len(),
            r is None ==> place_in_cell(self@.cells[self@.row][self@.column], self@.object, 0)
                is None,
    {
        let ghost cell = self@.cells[self@.row][self@.column];
        let length: usize = self.nav_index[self.selected_row][self.selected_column].len();
        let mut i: usize = 0;
        while i < length
            invariant
                self@.cell_selected(),
                cell == self@.cells[self@.row][self@.column],
                length == cell.len(),
                i <= length,
                place_in_cell(cell, self@.object, 0) == place_in_cell(cell, self@.object, i as int),
            decreases length - i,
        {
            if self.nav_index[self.selected_row][self.selected_column][i] == self.selected_object {
                return Some(i);
            }
            i = i + 1;
        }
        None
    }

    /// Moves the selection one widget to the left if `amount` is negative,
    /// one to the right if it is positive.
    pub fn h_move(&mut self, amount: isize)
        requires
            old(self)@.states_cover(),
            old(self)@.selection_found(),
        ensures
            final(self)@ == old(self)@.h_moved(amount as int),
            final(self)@.states_cover(),
    {
        let original_selected_object: usize = self.selected_object;
        let current_cell_length: usize =
            self.nav_index[self.selected_row][self.selected_column].len();
        let current_cell_index: usize = match self.place_of_selected() {
            Some(x) => x,
            None => 0,
        };
        if current_cell_index >= 1 && amount < 0 {
            self.selected_object =
            self.nav_index[self.selected_row][self.selected_column][current_cell_index - 1];
        } else if current_cell_index < 1 && amount < 0 {
            self.h_cell_move(-1);
        } else if (current_cell_index as i128) + (amount as i128) < current_cell_length as i128
            && amount > 0 {
            self.selected_object =
            self.nav_index[self.selected_row][self.selected_column][current_cell_index + 1];
        } else if (current_cell_index as i128) + (amount as i128) >= current_cell_length as i128
            && amount > 0 {
            self.h_cell_move(1);
        }
        if original_selected_object != self.selected_object {
            self.move_selection();
        }
    }

    /// Takes a widget's answer to a pad event: the selected widget takes the
    /// visual state `gui_state`, if there is one, and the input stays with
    /// the widget unless it hands it back.
    pub fn send_to_selected(&mut self, return_control: bool, gui_state: Option<GuiState>)
        requires
            gui_state is Some ==> old(self)@.object < old(self)@.states.len(),
        ensures
            final(self)@ == (Nav {
                states: match gui_state {
                    Some(state) => old(self)@.states.update(old(self)@.object as int, state),
                    None => old(self)@.states,
                },
                mode: if return_control {
                    InputMode::Navigate
                } else {
                    InputMode::Manipulate
                },
                ..old(self)@
            }),
    {
        match gui_state {
            Some(state) => {
                self.set_gui_state(state);
            },
            None => (),
        }
        if return_control {
            self.input_mode = InputMode::Navigate;
        } else {
            self.input_mode = InputMode::Manipulate;
        }
    }

    /// Selects the first widget of the view, as a view does when it comes
    /// up.
    pub fn activate(&mut self)
        requires
            0 < old(self)@.states.len(),
        ensures
            final(self)@ == (Nav { row: 0, column: 0, object: 0, ..old(self)@ }).selection_shown(),
    {
        self.selected_object = 0;
        self.selected_column = 0;
        self.selected_row = 0;
        self.move_selection();
    }

    /// How many widgets the view has.
    pub fn objects_len(&self) -> (r: usize)
        ensures
            r == self@.objects,
    {
        self.objects
    }

    fn first_selected(&self) -> (r: Option<usize>)
        ensures
            r matches Some(at) ==> first_in_state(self@.states, GuiState::Selected, 0) == Some(
                at as int,
            ) && at < self@.states.len(),
            r is None ==> first_in_state(self@.states, GuiState::Selected, 0) is None,
    {
        let mut i: usize = 0;
        while i < self.gui_state.len()
            invariant
                i <= self.gui_state.len(),
                first_in_state(self@.states, GuiState::Selected, 0) == first_in_state(
                    self@.states,
                    GuiState::Selected,
                    i as int,
                ),
            decreases self.gui_state.len() - i,
        {
            if eq_gui_state(&self.gui_state[i], &GuiState::Selected) {
                return Some(i);
            }
            i = i + 1;
        }
        None
    }

    /// Shows the selection in the visual states. Returns whether another
    /// widget than the selected one was shown as selected before.
    pub fn move_selection(&mut self) -> (changed: bool)
        requires
            old(self)@.object < old(self)@.states.len(),
        ensures
            final(self)@ == old(self)@.selection_shown(),
            final(self)@.states.len() == old(self)@.states.len(),
            changed == match first_in_state(old(self)@.states, GuiState::Selected, 0) {
                Some(at) => at != old(self)@.object,
                None => false,
            },
    {
        let current: Option<usize> = self.first_selected();
        let changed: bool = match current {
            Some(position) => {
                self.gui_state[position] = GuiState::Base;
                position != self.selected_object
            },
            None => false,
        };
        self.gui_state[self.selected_object] = GuiState::Selected;
        changed
    }

    /// Gives the selected widget the visual state `gui_state`. Returns
    /// whether that is a new state for it.
    pub fn set_gui_state(&mut self, gui_state: GuiState) -> (changed: bool)
        requires
            old(self)@.object < old(self)@.states.len(),
        ensures
            final(self)@ == (Nav {
                states: old(self)@.states.update(old(self)@.object as int, gui_state),
                ..old(self)@
            }),
            changed == (old(self)@.states[old(self)@.object as int] != gui_state),
    {
        if eq_gui_state(&self.gui_state[self.selected_object], &gui_state) {
            assert(self@.states =~= old(self)@.states.update(old(self)@.object as int, gui_state));
            false
        } else {
            self.gui_state[self.selected_object] = gui_state;
            true
        }
    }
}

} // verus!
