//! Tests for the terminals and the windowed views, including the two
//! scenarios from the crate's own documentation: a mutable view writing
//! through to its parent, and an empty widget centered without failure.

use tuit::draw::DummyTarget;
use tuit::terminal::{
    Cell, ConstantSize, ConstantSizeRef, MaxSize, Metadata, Rectangle, Rescalable, Terminal,
    TerminalConst, TerminalMut, ViewSplit,
};
use tuit::widgets::builtins::dummy::Dummy;
use tuit::widgets::builtins::WithLayout;
use tuit::widgets::Widget;

#[test]
fn views() {
    let terminal: ConstantSize<20, 20> = ConstantSize::new();

    let mut view = terminal
        .view_mut(Rectangle::of_size((5, 5)).at((5, 5)))
        .ok()
        .expect("Terminal should have been big enough!?");

    assert!(view.write_cell(0, 0, Cell::new('t')), "Cell should have been valid!?");

    assert!(view.cell(6, 6).is_none());

    let terminal = view.into_inner();
    assert_eq!(*terminal.cell(5, 5).expect("Cell should have been valid?"), Cell::new('t'));
}

#[test]
fn centered_empty() {
    let terminal: ConstantSize<20, 20> = ConstantSize::new();
    let empty = Dummy.centered();

    let (_terminal, result) = empty.drawn(terminal);
    result.expect("Should not fail!");
}

#[test]
fn whole_grid_view_yields_the_same_cells() {
    let mut terminal: ConstantSize<4, 3> = ConstantSize::new();
    terminal.set_cell(2, 1, Cell::new('m'));
    terminal.set_cell(3, 2, Cell::new('z'));

    let view = terminal.view(Rectangle::of_size((4, 3))).expect("the whole grid is in bounds");
    assert_eq!(view.cells(), terminal.cells());
    assert_eq!(view.dimensions(), (4, 3));
}

#[test]
fn view_writes_land_inside_the_window_only() {
    let terminal: ConstantSize<10, 10> = ConstantSize::new();
    let rect = Rectangle::new((2, 2), (5, 5));
    let mut view = terminal.view_mut(rect).ok().expect("the window is in bounds");

    let (w, h) = view.dimensions();
    assert_eq!((w, h), (3, 3));
    for y in 0..h {
        for x in 0..w {
            assert!(view.write_cell(x, y, Cell::new('x')));
        }
    }

    let terminal = view.into_inner();
    assert_eq!(terminal.cell(3, 3).unwrap().character, 'x');
    assert_eq!(terminal.cell(0, 0).unwrap().character, ' ');
    assert_eq!(terminal.cell(5, 5).unwrap().character, ' ', "the window's edges are exclusive");
    assert_eq!(terminal.cell(4, 4).unwrap().character, 'x');
}

#[test]
fn nested_views_translate_twice() {
    let terminal: ConstantSize<10, 10> = ConstantSize::new();
    let outer = terminal.view_mut(Rectangle::new((2, 2), (8, 8))).ok().unwrap();
    let mut inner = outer.view_mut(Rectangle::new((1, 1), (3, 3))).ok().unwrap();

    assert!(inner.write_cell(0, 0, Cell::new('n')));

    let outer = inner.into_inner();
    let terminal = outer.into_inner();
    assert_eq!(terminal.cell(3, 3).unwrap().character, 'n');
}

#[test]
fn rescale_round_trips_to_the_maximum() {
    let mut terminal: MaxSize<10, 10> = MaxSize::new();
    assert_eq!(terminal.dimensions(), (10, 10));

    terminal.rescale((5, 5)).expect("within the maximum");
    assert_eq!(terminal.dimensions(), (5, 5));

    terminal.rescale((10, 10)).expect("the maximum itself fits");
    assert_eq!(terminal.dimensions(), (10, 10));
}

#[test]
fn rescale_rejects_sizes_over_the_maximum() {
    let mut terminal: MaxSize<20, 20> = MaxSize::new();
    terminal.rescale((10, 10)).expect("this is below the limit");

    let (hint_x, hint_y) = terminal.rescale((21, 10)).expect_err("this must always be an error");
    assert_eq!(hint_x, 20);
    assert_eq!(hint_y, 10);
    assert_eq!(terminal.dimensions(), (10, 10), "a failed rescale changes nothing");
}

#[test]
fn rescale_hides_cells_without_clearing_them() {
    let mut terminal: MaxSize<6, 6> = MaxSize::new();
    terminal.set_cell(4, 4, Cell::new('s'));

    terminal.rescale((3, 3)).unwrap();
    assert!(terminal.cell(4, 4).is_none(), "outside the logical size");

    terminal.rescale((6, 6)).unwrap();
    assert_eq!(terminal.cell(4, 4).unwrap().character, 's', "stale content survives");
}

#[test]
fn constant_size_ref_wraps_existing_cells() {
    let cells = vec![Cell::new('a'), Cell::new('b'), Cell::new('c'), Cell::new('d')];
    let mut terminal: ConstantSizeRef<2, 2> = ConstantSizeRef::new(cells);
    assert_eq!(terminal.cell(1, 0).unwrap().character, 'b');
    terminal.set_cell(0, 1, Cell::new('q'));

    let cells = terminal.into_inner();
    assert_eq!(cells[2].character, 'q');
}

#[test]
fn rescale_grid_reflows_and_keeps_the_overlap() {
    let mut grid = tuit::terminal::Rescale::new((4, 3));
    assert_eq!(grid.dimensions(), (4, 3));
    grid.set_cell(1, 1, Cell::new('k'));
    grid.set_cell(3, 2, Cell::new('d'));

    grid.rescale((6, 2)).expect("any addressable size fits");
    assert_eq!(grid.dimensions(), (6, 2));
    assert_eq!(grid.cell(1, 1).unwrap().character, 'k', "the overlap keeps its content");
    assert_eq!(grid.cell(5, 1).unwrap().character, ' ', "new cells are blank");
    assert!(grid.cell(3, 2).is_none(), "the dropped row is gone");

    grid.rescale((2, 2)).expect("shrinking always fits");
    grid.rescale((4, 3)).expect("growing back always fits");
    assert_eq!(grid.cell(1, 1).unwrap().character, 'k', "still in every overlap");
    assert_eq!(grid.cell(3, 2).unwrap().character, ' ', "regrown cells are blank");
}

#[test]
fn constant_boxed_matches_constant_size() {
    let mut boxed: tuit::terminal::ConstantBoxed<3, 3> = tuit::terminal::ConstantBoxed::new();
    assert_eq!(boxed.dimensions(), (3, 3));
    assert!(boxed.set_cell(2, 2, Cell::new('b')));
    assert_eq!(boxed.cell(2, 2).unwrap().character, 'b');

    let plain: ConstantSize<3, 3> = ConstantSize::new();
    assert_eq!(plain.cells().len(), boxed.cells().len());
}

#[test]
fn view_split_partitions_at_the_center() {
    let terminal: ConstantSize<10, 8> = ConstantSize::new();
    let splitter = ViewSplit::new(terminal);
    assert_eq!(splitter.split_left().dimensions(), (5, 8));
    assert_eq!(splitter.split_right().dimensions(), (5, 8));
    assert_eq!(splitter.split_top().dimensions(), (10, 4));
    assert_eq!(splitter.split_bottom().dimensions(), (10, 4));

    let mut left = splitter.split_left_mut();
    assert!(left.write_cell(0, 0, Cell::new('l')));
    let terminal = left.into_inner();
    assert_eq!(terminal.cell(0, 0).unwrap().character, 'l');
}

#[test]
fn dummy_terminal_is_empty() {
    let mut nothing = tuit::terminal::dummy::Dummy;
    assert_eq!(nothing.dimensions(), (0, 0));
    assert!(nothing.cell(0, 0).is_none());
    assert!(!nothing.set_cell(0, 0, Cell::new('x')));
    assert!(nothing.cells().is_empty());
}

#[test]
fn out_of_bounds_views_are_refused() {
    let terminal: ConstantSize<5, 5> = ConstantSize::new();
    assert!(terminal.view(Rectangle::new((2, 2), (6, 4))).is_none());

    let whole: ConstantSize<5, 5> = ConstantSize::new();
    let refused = whole.view_mut(Rectangle::new((0, 0), (6, 6)));
    let terminal = refused.err().expect("the rectangle reaches outside");
    assert_eq!(terminal.dimensions(), (5, 5), "the terminal comes back unchanged");
}

#[test]
fn max_size_starts_blank_at_its_maximum() {
    let terminal: MaxSize<4, 2> = MaxSize::new();
    assert_eq!(terminal.dimensions(), (4, 2));
    for cell in terminal.cells() {
        assert_eq!(cell.character, ' ');
    }
}

#[test]
fn display_walks_the_cells() {
    let terminal: ConstantSize<3, 2> = ConstantSize::new();
    let mut target = DummyTarget;
    terminal.display(&mut target).expect("the dummy target never fails");
}

#[test]
fn debug_terminal_delegates_to_the_wrapped_one() {
    let terminal: ConstantSize<4, 4> = ConstantSize::new();
    let mut watched = tuit::terminal::debug::Debug::new(terminal, DummyTarget);
    assert_eq!(watched.dimensions(), (4, 4));
    assert!(watched.set_cell(1, 1, Cell::new('d')));
    assert_eq!(watched.terminal().cell(1, 1).unwrap().character, 'd');
}
