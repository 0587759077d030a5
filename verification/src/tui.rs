//! The cells of the terminal interface: positions, areas, and the
//! components that answer what a cell shows.

use vstd::prelude::*;

verus! {

/// A cell of the terminal.
#[derive(Clone, Copy, Debug, PartialEq, Eq, Structural)]
pub struct Position {
    pub x: u16,
    pub y: u16,
}

/// A rectangle of cells, corners included.
#[derive(Clone, Copy, Debug, PartialEq, Eq, Structural)]
pub struct Area {
    pub left_top: Position,
    pub right_bottom: Position,
}

pub open spec fn contained(p: Position, a: Area) -> bool {
    p.x >= a.left_top.x && p.x <= a.right_bottom.x && p.y >= a.left_top.y && p.y
        <= a.right_bottom.y
}

/// A coordinate moved `n` cells back, unless it is 0.
pub open spec fn back_view(c: u16, n: u16) -> u16 {
    if c > 0 {
        (c - n) as u16
    } else {
        0
    }
}

/// The area `n` cells inside `a`.
pub open spec fn inside_view(a: Area, n: u16) -> Area {
    Area {
        left_top: Position { x: (a.left_top.x + n) as u16, y: (a.left_top.y + n) as u16 },
        right_bottom: Position { x: back_view(a.right_bottom.x, n), y: back_view(a.right_bottom.y, n) },
    }
}

impl Position {
    pub fn new(x: u16, y: u16) -> (p: Position)
        ensures
            p == (Position { x, y }),
    {
        Position { x, y }
    }

    /// Whether this cell lies in `area`.
    pub fn is_contained_by(&self, area: &Area) -> (b: bool)
        ensures
            b == contained(*self, *area),
    {
        self.x >= area.left_top.x && self.x <= area.right_bottom.x && self.y >= area.left_top.y
            && self.y <= area.right_bottom.y
    }

    pub fn to_tuple(&self) -> (t: (u16, u16))
        ensures
            t == (self.x, self.y),
    {
        (self.x, self.y)
    }
}

fn back(c: u16, n: u16) -> (r: u16)
    requires
        c == 0 || c >= n,
    ensures
        r == back_view(c, n),
{
    if c > 0 {
        c - n
    } else {
        0
    }
}

impl Area {
    pub fn new(left_top: Position, right_bottom: Position) -> (a: Area)
        ensures
            a == (Area { left_top, right_bottom }),
    {
        Area { left_top, right_bottom }
    }

    /// The area `cell_number` cells inside this one.
    pub fn inside(&self, cell_number: u16) -> (a: Area)
        requires
            self.left_top.x + cell_number <= u16::MAX,
            self.left_top.y + cell_number <= u16::MAX,
            self.right_bottom.x == 0 || self.right_bottom.x >= cell_number,
            self.right_bottom.y == 0 || self.right_bottom.y >= cell_number,
        ensures
            a == inside_view(*self, cell_number),
    {
        Area {
            left_top: Position {
                x: self.left_top.x + cell_number,
                y: self.left_top.y + cell_number,
            },
            right_bottom: Position {
                x: back(self.right_bottom.x, cell_number),
                y: back(self.right_bottom.y, cell_number),
            },
        }
    }
}

/// What passes between the components.
#[derive(Debug, PartialEq, Eq)]
pub enum Event {
    /// Which text does this cell show?
    CellQuery(Position),
    /// This cell shows this text.
    CellResponse(String),
    /// The lines of a list are now these.
    UpdateTextList(Vec<String>),
}

pub enum EventView {
    CellQuery(Position),
    CellResponse(Seq<char>),
    UpdateTextList(Seq<Seq<char>>),
}

impl View for Event {
    type V = EventView;

    open spec fn view(&self) -> EventView {
        match self {
            Event::CellQuery(p) => EventView::CellQuery(*p),
            Event::CellResponse(s) => EventView::CellResponse(s@),
            Event::UpdateTextList(v) => EventView::UpdateTextList(
                v@.map_values(|s: String| s@),
            ),
        }
    }
}

/// What a border answers: the corner, side or top character of the cell,
/// when the cell is on the border of `area`.
pub open spec fn border_view(area: Area, e: EventView) -> EventView {
    match e {
        EventView::CellQuery(p) => if contained(p, area) {
            if p.x == area.left_top.x && p.y == area.left_top.y {
                EventView::CellResponse(seq!['┌'])
            } else if p.x == area.right_bottom.x && p.y == area.left_top.y {
                EventView::CellResponse(seq!['┐'])
            } else if p.x == area.right_bottom.x && p.y == area.right_bottom.y {
                EventView::CellResponse(seq!['┘'])
            } else if p.x == area.left_top.x && p.y == area.right_bottom.y {
                EventView::CellResponse(seq!['└'])
            } else if p.x == area.left_top.x || p.x == area.right_bottom.x {
                EventView::CellResponse(seq!['│'])
            } else if p.y == area.left_top.y || p.y == area.right_bottom.y {
                EventView::CellResponse(seq!['─'])
            } else {
                e
            }
        } else {
            e
        },
        _ => e,
    }
}

fn one_char(s: &str) -> (r: String)
    requires
        s@.len() == 1,
    ensures
        r@ == s@,
{
    s.to_owned()
}

/// A border around an area.
#[derive(Debug)]
pub struct Bordered {
    area: Area,
}

impl Bordered {
    pub fn new(area: Area) -> (b: Bordered)
        ensures
            b.area() == area,
    {
        Bordered { area }
    }

    pub closed spec fn area(&self) -> Area {
        self.area
    }

    /// The answer of the border to `event`.
    pub fn handle(&self, event: Event) -> (r: Event)
        ensures
            r@ == border_view(self.area(), event@),
    {
        let area = self.area;
        match event {
            Event::CellQuery(pos) => {
                if !pos.is_contained_by(&area) {
                    return event;
                }
                let x = pos.x;
                let y = pos.y;
                let text = if x == area.left_top.x && y == area.left_top.y {
                    proof {
                        reveal_strlit("┌");
                    }
                    let t = one_char("┌");
                    assert(t@ =~= seq!['┌']);
                    t
                } else if x == area.right_bottom.x && y == area.left_top.y {
                    proof {
                        reveal_strlit("┐");
                    }
                    let t = one_char("┐");
                    assert(t@ =~= seq!['┐']);
                    t
                } else if x == area.right_bottom.x && y == area.right_bottom.y {
                    proof {
                        reveal_strlit("┘");
                    }
                    let t = one_char("┘");
                    assert(t@ =~= seq!['┘']);
                    t
                } else if x == area.left_top.x && y == area.right_bottom.y {
                    proof {
                        reveal_strlit("└");
                    }
                    let t = one_char("└");
                    assert(t@ =~= seq!['└']);
                    t
                } else if x == area.left_top.x || x == area.right_bottom.x {
                    proof {
                        reveal_strlit("│");
                    }
                    let t = one_char("│");
                    assert(t@ =~= seq!['│']);
                    t
                } else if y == area.left_top.y || y == area.right_bottom.y {
                    proof {
                        reveal_strlit("─");
                    }
                    let t = one_char("─");
                    assert(t@ =~= seq!['─']);
                    t
                } else {
                    return event;
                };
                Event::CellResponse(text)
            },
            _ => event,
        }
    }
}

/// What a list answers: the character of the cell in its line, when there
/// is one.
pub open spec fn list_view(area: Area, lines: Seq<Seq<char>>, e: EventView) -> EventView {
    match e {
        EventView::CellQuery(p) => if contained(p, area) {
            let y = (p.y - area.left_top.y) as u16;
            let x = (p.x - area.left_top.x) as u16;
            if y < (lines.len() as u16) && y < lines.len() && x < lines[y as int].len() {
                EventView::CellResponse(seq![lines[y as int][x as int]])
            } else {
                e
            }
        } else {
            e
        },
        _ => e,
    }
}

/// Lines of text in an area.
#[derive(Debug)]
pub struct TextList {
    area: Area,
    lines: Vec<String>,
}

impl TextList {
    pub fn new(area: Area, lines: Vec<String>) -> (t: TextList)
        ensures
            t.area() == area,
            t.lines() == lines@.map_values(|s: String| s@),
    {
        TextList { area, lines }
    }

    pub closed spec fn area(&self) -> Area {
        self.area
    }

    pub closed spec fn lines(&self) -> Seq<Seq<char>> {
        self.lines@.map_values(|s: String| s@)
    }

    pub fn set_lines(&mut self, lines: Vec<String>)
        ensures
            final(self).area() == old(self).area(),
            final(self).lines() == lines@.map_values(|s: String| s@),
    {
        self.lines = lines;
    }

    /// The answer of the list to `event`.
    pub fn handle(&self, event: Event) -> (r: Event)
        ensures
            r@ == list_view(self.area(), self.lines(), event@),
    {
        match event {
            Event::CellQuery(pos) => {
                if !pos.is_contained_by(&self.area) {
                    return event;
                }
                let y = pos.y - self.area.left_top.y;
                let x = pos.x - self.area.left_top.x;
                let count = self.lines.len() as u16;
                if y < count && (y as usize) < self.lines.len() {
                    let line = self.lines[y as usize].as_str();
                    assert(line@ == self.lines()[y as int]);
                    if (x as usize) < line.unicode_len() {
                        let piece = line.substring_char(x as usize, x as usize + 1);
                        let text = piece.to_owned();
                        assert(text@ =~= seq![self.lines()[y as int][x as int]]);
                        return Event::CellResponse(text);
                    }
                }
                event
            },
            _ => event,
        }
    }
}

/// A cell to draw, with its content when it has one.
#[derive(Debug)]
pub struct RenderEvent {
    pub content: Option<String>,
    pub position: Position,
}

/// A cell that no component has claimed yet.
#[derive(Debug)]
pub struct SkipCell {
    pub position: Position,
}

/// A cell that a component draws, with the text it shows there.
#[derive(Debug)]
pub struct RenderCell {
    pub position: Position,
    pub content: String,
}

/// What becomes of a cell: left for the next component, or drawn.
#[derive(Debug)]
pub enum CellChoice {
    Skip(SkipCell),
    Render(RenderCell),
}

impl SkipCell {
    /// Leaves the cell at `position` for the next component.
    pub fn choose_to_skip(position: Position) -> (c: CellChoice)
        ensures
            c matches CellChoice::Skip(cell) && cell.position == position,
    {
        CellChoice::Skip(SkipCell { position })
    }

    /// Draws `content` in this cell.
    pub fn choose_to_render(self, content: &str) -> (c: CellChoice)
        ensures
            c matches CellChoice::Render(cell) && cell.position == self.position
                && cell.content@ == content@,
    {
        CellChoice::Render(RenderCell { position: self.position, content: content.to_owned() })
    }
}

} // verus!
