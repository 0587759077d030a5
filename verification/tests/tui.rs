use futurecommander::tui::{Area, Bordered, CellChoice, Event, Position, SkipCell, TextList};

const TOP_LEFT_CORNER: &str = "┌";
const TOP_RIGHT_CORNER: &str = "┐";
const BOTTOM_LEFT_CORNER: &str = "└";
const BOTTOM_RIGHT_CORNER: &str = "┘";

#[test]
fn test_bordered() {
    let render_area = Area::new(Position::new(0, 0), Position::new(10, 10));

    let border = Bordered::new(render_area);

    assert_eq!(
        border.handle(Event::CellQuery(Position::new(0, 0))),
        Event::CellResponse(String::from(TOP_LEFT_CORNER))
    );
    assert_eq!(
        border.handle(Event::CellQuery(Position::new(10, 10))),
        Event::CellResponse(String::from(BOTTOM_RIGHT_CORNER))
    );
}

#[test]
fn test_builder() {
    let render_area = Area::new(Position::new(0, 0), Position::new(20, 50));

    let outer = Bordered::new(render_area.inside(1));
    let inner = Bordered::new(render_area.inside(2));
    let list = TextList::new(
        render_area.inside(3),
        vec![String::from("testA"), String::from("testB"), String::from("testC")],
    );
    let renderer = |event: Event| list.handle(inner.handle(outer.handle(event)));

    assert_eq!(
        Event::CellResponse(String::from(TOP_LEFT_CORNER)),
        renderer(Event::CellQuery(Position::new(1, 1)))
    );

    assert_eq!(
        Event::CellResponse(String::from(TOP_LEFT_CORNER)),
        renderer(Event::CellQuery(Position::new(2, 2)))
    );

    assert_eq!(
        Event::CellResponse(String::from(BOTTOM_RIGHT_CORNER)),
        renderer(Event::CellQuery(Position::new(19, 49)))
    );

    assert_eq!(
        Event::CellResponse(String::from("t")),
        renderer(Event::CellQuery(Position::new(3, 3)))
    );
}

#[test]
fn bordered_answers_each_side_and_passes_the_rest() {
    let border = Bordered::new(Area::new(Position::new(2, 3), Position::new(8, 9)));
    assert_eq!(
        border.handle(Event::CellQuery(Position::new(8, 3))),
        Event::CellResponse(String::from(TOP_RIGHT_CORNER))
    );
    assert_eq!(
        border.handle(Event::CellQuery(Position::new(2, 9))),
        Event::CellResponse(String::from(BOTTOM_LEFT_CORNER))
    );
    assert_eq!(
        border.handle(Event::CellQuery(Position::new(2, 5))),
        Event::CellResponse(String::from("│"))
    );
    assert_eq!(
        border.handle(Event::CellQuery(Position::new(5, 9))),
        Event::CellResponse(String::from("─"))
    );
    assert_eq!(
        border.handle(Event::CellQuery(Position::new(5, 5))),
        Event::CellQuery(Position::new(5, 5))
    );
    assert_eq!(
        border.handle(Event::CellQuery(Position::new(1, 5))),
        Event::CellQuery(Position::new(1, 5))
    );
    assert_eq!(
        border.handle(Event::CellResponse(String::from("x"))),
        Event::CellResponse(String::from("x"))
    );
}

#[test]
fn text_list_shows_its_lines_and_takes_new_ones() {
    let mut list = TextList::new(
        Area::new(Position::new(1, 1), Position::new(10, 10)),
        vec![String::from("ab"), String::from("c")],
    );
    assert_eq!(
        list.handle(Event::CellQuery(Position::new(2, 1))),
        Event::CellResponse(String::from("b"))
    );
    assert_eq!(
        list.handle(Event::CellQuery(Position::new(2, 2))),
        Event::CellQuery(Position::new(2, 2))
    );
    assert_eq!(
        list.handle(Event::CellQuery(Position::new(1, 3))),
        Event::CellQuery(Position::new(1, 3))
    );
    list.set_lines(vec![String::from("xyz")]);
    assert_eq!(
        list.handle(Event::CellQuery(Position::new(3, 1))),
        Event::CellResponse(String::from("z"))
    );
}

#[test]
fn inside_shrinks_an_area_on_each_side() {
    let area = Area::new(Position::new(0, 0), Position::new(20, 50));
    let inner = area.inside(3);
    assert_eq!(inner, Area::new(Position::new(3, 3), Position::new(17, 47)));
    let flat = Area::new(Position::new(0, 0), Position::new(0, 4)).inside(1);
    assert_eq!(flat, Area::new(Position::new(1, 1), Position::new(0, 3)));
    assert!(Position::new(3, 3).is_contained_by(&inner));
    assert!(!Position::new(18, 3).is_contained_by(&inner));
    assert_eq!(Position::new(4, 7).to_tuple(), (4, 7));
}

#[test]
fn a_skipped_cell_keeps_its_position_until_it_is_drawn() {
    let choice = SkipCell::choose_to_skip(Position::new(3, 4));
    let cell = match choice {
        CellChoice::Skip(cell) => cell,
        CellChoice::Render(_) => panic!("a skipped cell is drawn"),
    };
    assert_eq!(cell.position, Position::new(3, 4));
    match cell.choose_to_render(TOP_LEFT_CORNER) {
        CellChoice::Render(drawn) => {
            assert_eq!(drawn.position, Position::new(3, 4));
            assert_eq!(drawn.content, TOP_LEFT_CORNER);
        },
        CellChoice::Skip(_) => panic!("a drawn cell is skipped"),
    }
}
