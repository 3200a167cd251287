use vstd::prelude::*;

verus! {

/// The characters from which lines, corners and arrow heads are drawn.
#[derive(PartialEq, Eq, Structural, Hash, Copy, Clone, Debug)]
pub struct Chips {
    pub horizontal: char,
    pub vertical: char,
    pub upper_left_corner: char,
    pub upper_right_corner: char,
    pub lower_left_corner: char,
    pub lower_right_corner: char,
    pub up_arrow: char,
    pub down_arrow: char,
    pub left_arrow: char,
    pub right_arrow: char,
}

/// Line style of a rectangle border or a path.
#[derive(PartialEq, Eq, Structural, Hash, Copy, Clone, Debug)]
pub enum Style {
    Single,
    SingleBold,
    Double,
    Dash,
    Dot,
    Ascii,
}

impl Style {
    /// The chip set of each style.
    pub open spec fn spec_chips(self) -> Chips {
        match self {
            Style::Single => Chips {
                horizontal: '─',
                vertical: '│',
                upper_left_corner: '┌',
                upper_right_corner: '┐',
                lower_left_corner: '└',
                lower_right_corner: '┘',
                up_arrow: '▲',
                down_arrow: '▼',
                left_arrow: '◀',
                right_arrow: '▶',
            },
            Style::SingleBold => Chips {
                horizontal: '━',
                vertical: '┃',
                upper_left_corner: '┏',
                upper_right_corner: '┓',
                lower_left_corner: '┗',
                lower_right_corner: '┛',
                up_arrow: '▲',
                down_arrow: '▼',
                left_arrow: '◀',
                right_arrow: '▶',
            },
            Style::Double => Chips {
                horizontal: '═',
                vertical: '║',
                upper_left_corner: '╔',
                upper_right_corner: '╗',
                lower_left_corner: '╚',
                lower_right_corner: '╝',
                up_arrow: '▲',
                down_arrow: '▼',
                left_arrow: '◀',
                right_arrow: '▶',
            },
            Style::Dash => Chips {
                horizontal: '╌',
                vertical: '╎',
                upper_left_corner: '┌',
                upper_right_corner: '┐',
                lower_left_corner: '└',
                lower_right_corner: '┘',
                up_arrow: '▲',
                down_arrow: '▼',
                left_arrow: '◀',
                right_arrow: '▶',
            },
            Style::Dot => Chips {
                horizontal: '.',
                vertical: '.',
                upper_left_corner: '.',
                upper_right_corner: '.',
                lower_left_corner: '.',
                lower_right_corner: '.',
                up_arrow: '^',
                down_arrow: 'v',
                left_arrow: '<',
                right_arrow: '>',
            },
            Style::Ascii => Chips {
                horizontal: '-',
                vertical: '|',
                upper_left_corner: '+',
                upper_right_corner: '+',
                lower_left_corner: '+',
                lower_right_corner: '+',
                up_arrow: '^',
                down_arrow: 'v',
                left_arrow: '<',
                right_arrow: '>',
            },
        }
    }

    /// The style that follows `self` in the cycle
    /// Single, SingleBold, Double, Dash, Dot, Ascii, Single.
    pub open spec fn spec_next(self) -> Style {
        match self {
            Style::Single => Style::SingleBold,
            Style::SingleBold => Style::Double,
            Style::Double => Style::Dash,
            Style::Dash => Style::Dot,
            Style::Dot => Style::Ascii,
            Style::Ascii => Style::Single,
        }
    }

    pub fn chips(&self) -> (r: Chips)
        ensures
            r == self.spec_chips(),
    {
        match self {
            Style::Single => Chips::new('─', '│', '┌', '┐', '└', '┘', '▲', '▼', '◀', '▶'),
            Style::SingleBold => Chips::new('━', '┃', '┏', '┓', '┗', '┛', '▲', '▼', '◀', '▶'),
            Style::Double => Chips::new('═', '║', '╔', '╗', '╚', '╝', '▲', '▼', '◀', '▶'),
            Style::Dash => Chips::new('╌', '╎', '┌', '┐', '└', '┘', '▲', '▼', '◀', '▶'),
            Style::Dot => Chips::new('.', '.', '.', '.', '.', '.', '^', 'v', '<', '>'),
            Style::Ascii => Chips::new('-', '|', '+', '+', '+', '+', '^', 'v', '<', '>'),
        }
    }

    /// Get the next style.
    pub fn next(&self) -> (r: Style)
        ensures
            r == self.spec_next(),
    {
        match self {
            Style::Single => Style::SingleBold,
            Style::SingleBold => Style::Double,
            Style::Double => Style::Dash,
            Style::Dash => Style::Dot,
            Style::Dot => Style::Ascii,
            Style::Ascii => Style::Single,
        }
    }
}

impl Chips {
    pub fn new(
        horizontal: char,
        vertical: char,
        upper_left_corner: char,
        upper_right_corner: char,
        lower_left_corner: char,
        lower_right_corner: char,
        up_arrow: char,
        down_arrow: char,
        left_arrow: char,
        right_arrow: char,
    ) -> (r: Chips)
        ensures
            r == (Chips {
                horizontal,
                vertical,
                upper_left_corner,
                upper_right_corner,
                lower_left_corner,
                lower_right_corner,
                up_arrow,
                down_arrow,
                left_arrow,
                right_arrow,
            }),
    {
        Chips {
            horizontal,
            vertical,
            upper_left_corner,
            upper_right_corner,
            lower_left_corner,
            lower_right_corner,
            up_arrow,
            down_arrow,
            left_arrow,
            right_arrow,
        }
    }
}

} // verus!
