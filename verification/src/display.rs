//! Colours for the heat of a cell, the escape sequences that select them
//! on a terminal, and the text in which the machine is drawn.

use vstd::prelude::*;
use vstd::string::StringExecFns;
use crate::state::MAX_HEAT;

verus! {

/// The eight foreground colours of a terminal, in the order of their codes.
#[derive(Clone, Copy, Debug, PartialEq, Eq, Structural)]
pub enum Foreground {
    Black,
    Red,
    Green,
    Yellow,
    Blue,
    Magenta,
    Cyan,
    White,
}

impl Foreground {
    /// The colour of a heat value: white for a cold cell, then blue, cyan,
    /// green, yellow, and red for the hottest.
    pub open spec fn of_heat(value: u8) -> Foreground {
        if value == 0 {
            Foreground::White
        } else if value == 1 {
            Foreground::Blue
        } else if value == 2 {
            Foreground::Cyan
        } else if value == 3 {
            Foreground::Green
        } else if value == 4 {
            Foreground::Yellow
        } else {
            Foreground::Red
        }
    }

    /// The colour of a heat value, which is at most `MAX_HEAT`.
    pub fn heat_from(value: u8) -> (r: Foreground)
        requires
            value <= MAX_HEAT,
        ensures
            r == Self::of_heat(value),
    {
        match value {
            0 => Foreground::White,
            1 => Foreground::Blue,
            2 => Foreground::Cyan,
            3 => Foreground::Green,
            4 => Foreground::Yellow,
            _ => Foreground::Red,
        }
    }

    /// The colour's code, from 0 for black to 7 for white.
    pub open spec fn code_of(self) -> u8 {
        match self {
            Foreground::Black => 0,
            Foreground::Red => 1,
            Foreground::Green => 2,
            Foreground::Yellow => 3,
            Foreground::Blue => 4,
            Foreground::Magenta => 5,
            Foreground::Cyan => 6,
            Foreground::White => 7,
        }
    }

    /// The colour's code, from 0 for black to 7 for white.
    pub fn code(self) -> (r: u8)
        ensures
            r == self.code_of(),
            r < 8,
    {
        match self {
            Foreground::Black => 0,
            Foreground::Red => 1,
            Foreground::Green => 2,
            Foreground::Yellow => 3,
            Foreground::Blue => 4,
            Foreground::Magenta => 5,
            Foreground::Cyan => 6,
            Foreground::White => 7,
        }
    }
}

/// The character of a decimal digit.
pub open spec fn digit_char(d: u8) -> char {
    if d == 0 {
        '0'
    } else if d == 1 {
        '1'
    } else if d == 2 {
        '2'
    } else if d == 3 {
        '3'
    } else if d == 4 {
        '4'
    } else if d == 5 {
        '5'
    } else if d == 6 {
        '6'
    } else if d == 7 {
        '7'
    } else if d == 8 {
        '8'
    } else {
        '9'
    }
}

/// A number written in decimal, without leading zeros.
pub open spec fn decimal_text(n: nat) -> Seq<char>
    decreases n,
{
    if n < 10 {
        seq![digit_char(n as u8)]
    } else {
        decimal_text(n / 10) + seq![digit_char((n % 10) as u8)]
    }
}

/// The text of one decimal digit.
pub fn digit_text(d: u8) -> (r: &'static str)
    requires
        d < 10,
    ensures
        r@ == seq![digit_char(d)],
{
    proof {
        reveal_strlit("0");
        reveal_strlit("1");
        reveal_strlit("2");
        reveal_strlit("3");
        reveal_strlit("4");
        reveal_strlit("5");
        reveal_strlit("6");
        reveal_strlit("7");
        reveal_strlit("8");
        reveal_strlit("9");
    }
    let r = match d {
        0 => "0",
        1 => "1",
        2 => "2",
        3 => "3",
        4 => "4",
        5 => "5",
        6 => "6",
        7 => "7",
        8 => "8",
        _ => "9",
    };
    assert(r@ =~= seq![digit_char(d)]);
    r
}

/// Appends a number in decimal to a text.
pub fn append_decimal(text: &mut String, n: u128)
    ensures
        final(text)@ == old(text)@ + decimal_text(n as nat),
    decreases n,
{
    if n >= 10 {
        append_decimal(text, n / 10);
    }
    text.append(digit_text((n % 10) as u8));
    assert(text@ =~= old(text)@ + decimal_text(n as nat));
}

/// The character of a hexadecimal digit, in upper case.
pub open spec fn hex_digit_char(d: u8) -> char {
    if d < 10 {
        digit_char(d)
    } else if d == 10 {
        'A'
    } else if d == 11 {
        'B'
    } else if d == 12 {
        'C'
    } else if d == 13 {
        'D'
    } else if d == 14 {
        'E'
    } else {
        'F'
    }
}

/// A byte written as two hexadecimal digits.
pub open spec fn hex_text(b: u8) -> Seq<char> {
    seq![hex_digit_char(b / 16), hex_digit_char(b % 16)]
}

/// The text of one hexadecimal digit.
pub fn hex_digit_text(d: u8) -> (r: &'static str)
    requires
        d < 16,
    ensures
        r@ == seq![hex_digit_char(d)],
{
    if d < 10 {
        digit_text(d)
    } else {
        proof {
            reveal_strlit("A");
            reveal_strlit("B");
            reveal_strlit("C");
            reveal_strlit("D");
            reveal_strlit("E");
            reveal_strlit("F");
        }
        let r = match d {
            10 => "A",
            11 => "B",
            12 => "C",
            13 => "D",
            14 => "E",
            _ => "F",
        };
        assert(r@ =~= seq![hex_digit_char(d)]);
        r
    }
}

/// Appends a byte as two hexadecimal digits to a text.
pub fn append_hex(text: &mut String, b: u8)
    ensures
        final(text)@ == old(text)@ + hex_text(b),
{
    text.append(hex_digit_text(b / 16));
    text.append(hex_digit_text(b % 16));
    assert(text@ =~= old(text)@ + hex_text(b));
}

/// A number written in hexadecimal, in upper case and without leading
/// zeros.
pub open spec fn hex_number_text(n: nat) -> Seq<char>
    decreases n,
{
    if n < 16 {
        seq![hex_digit_char(n as u8)]
    } else {
        hex_number_text(n / 16) + seq![hex_digit_char((n % 16) as u8)]
    }
}

/// Appends a number in hexadecimal to a text.
pub fn append_hex_number(text: &mut String, n: u128)
    ensures
        final(text)@ == old(text)@ + hex_number_text(n as nat),
    decreases n,
{
    if n >= 16 {
        append_hex_number(text, n / 16);
    }
    text.append(hex_digit_text((n % 16) as u8));
    assert(text@ =~= old(text)@ + hex_number_text(n as nat));
}

/// The two lines above the tables: the count of cycles in hexadecimal and
/// in decimal, and the program counter in hexadecimal.
pub open spec fn status_text(cycles: nat, pc: u8) -> Seq<char> {
    "\nProgram's Used CPU Cycles: 0x"@ + hex_number_text(cycles) + "::"@ + decimal_text(cycles)
        + "\nProgram Counter: m0x"@ + hex_number_text(pc as nat) + "\n"@
}

/// The first `n` column labels of a table: for each column a blank, the
/// table's letter and the column's number in hexadecimal.
pub open spec fn column_labels(letter: char, n: nat) -> Seq<char>
    decreases n,
{
    if n == 0 {
        Seq::empty()
    } else {
        column_labels(letter, (n - 1) as nat) + seq![' ', letter] + hex_text((n - 1) as u8)
    }
}

/// A register as it is drawn: two blanks, then its value in hexadecimal in
/// the colour of its heat, then the end of colouring.
pub open spec fn register_cell(value: u8, heat: u8) -> Seq<char> {
    seq![' ', ' '] + Terminal::fg_color_text(Foreground::of_heat(heat)) + hex_text(value)
        + Terminal::fg_color_text(Foreground::White)
}

/// The first `n` registers as they are drawn.
pub open spec fn register_cells(values: Seq<u8>, heat: Seq<u8>, n: nat) -> Seq<char>
    decreases n,
{
    if n == 0 {
        Seq::empty()
    } else {
        register_cells(values, heat, (n - 1) as nat) + register_cell(values[n - 1], heat[n - 1])
    }
}

/// The table of registers: an empty line, a line of labels, and a line of
/// values.
pub open spec fn registers_text(values: Seq<u8>, heat: Seq<u8>) -> Seq<char> {
    seq!['\n'] + column_labels('r', 16) + seq!['\n'] + register_cells(values, heat, 16)
        + seq!['\n']
}

/// A memory cell as it is drawn. The first cell of each row of sixteen is
/// preceded by a line break and the row's label. The cell under the program
/// counter is marked with `*` and drawn in magenta; any other cell follows
/// two blanks and has the colour of its heat.
pub open spec fn memory_cell(address: int, value: u8, heat: u8, pc: u8) -> Seq<char> {
    (if address % 16 == 0 {
        seq!['\n', ' ', 'm'] + hex_text(address as u8)
    } else {
        Seq::empty()
    }) + (if address == pc {
        seq![' ', '*'] + Terminal::fg_color_text(Foreground::Magenta)
    } else {
        seq![' ', ' '] + Terminal::fg_color_text(Foreground::of_heat(heat))
    }) + hex_text(value) + Terminal::fg_color_text(Foreground::White)
}

/// The first `n` memory cells as they are drawn.
pub open spec fn memory_cells(values: Seq<u8>, heat: Seq<u8>, pc: u8, n: nat) -> Seq<char>
    decreases n,
{
    if n == 0 {
        Seq::empty()
    } else {
        memory_cells(values, heat, pc, (n - 1) as nat) + memory_cell(
            n - 1,
            values[n - 1],
            heat[n - 1],
            pc,
        )
    }
}

/// The table of memory: a line of labels under an empty line, then sixteen
/// rows of sixteen cells.
pub open spec fn memory_text(values: Seq<u8>, heat: Seq<u8>, pc: u8) -> Seq<char> {
    seq!['\n', ' ', ' ', ' ', ' '] + column_labels('m', 16) + memory_cells(values, heat, pc, 256)
        + seq!['\n']
}

/// Appends the sixteen column labels of a table to a text.
pub fn append_column_labels(text: &mut String, letter: &str)
    requires
        letter@.len() == 1,
    ensures
        final(text)@ == old(text)@ + column_labels(letter@[0], 16),
{
    let mut i: u8 = 0;
    while i < 16
        invariant
            i <= 16,
            letter@.len() == 1,
            text@ == old(text)@ + column_labels(letter@[0], i as nat),
        decreases 16 - i,
    {
        text.append(" ");
        text.append(letter);
        append_hex(text, i);
        proof {
            reveal_strlit(" ");
            assert(" "@ + letter@ =~= seq![' ', letter@[0]]);
            assert(text@ =~= old(text)@ + column_labels(letter@[0], (i + 1) as nat));
        }
        i = i + 1;
    }
}

/// Appends a register as it is drawn to a text.
pub fn append_register_cell(text: &mut String, value: u8, heat: u8)
    requires
        heat <= MAX_HEAT,
    ensures
        final(text)@ == old(text)@ + register_cell(value, heat),
{
    proof {
        reveal_strlit("  ");
    }
    text.append("  ");
    text.append(Terminal::get_fg_color(Foreground::heat_from(heat)).as_str());
    append_hex(text, value);
    text.append(Terminal::get_reset_all().as_str());
    assert(text@ =~= old(text)@ + register_cell(value, heat));
}

/// Appends a memory cell as it is drawn to a text.
pub fn append_memory_cell(text: &mut String, address: u8, value: u8, heat: u8, pc: u8)
    requires
        heat <= MAX_HEAT,
    ensures
        final(text)@ == old(text)@ + memory_cell(address as int, value, heat, pc),
{
    proof {
        reveal_strlit("\n m");
        reveal_strlit(" *");
        reveal_strlit("  ");
    }
    if address % 16 == 0 {
        text.append("\n m");
        append_hex(text, address);
    }
    if address == pc {
        text.append(" *");
        text.append(Terminal::get_fg_color(Foreground::Magenta).as_str());
    } else {
        text.append("  ");
        text.append(Terminal::get_fg_color(Foreground::heat_from(heat)).as_str());
    }
    append_hex(text, value);
    text.append(Terminal::get_reset_all().as_str());
    assert(text@ =~= old(text)@ + memory_cell(address as int, value, heat, pc));
}

/// The escape sequences of a terminal.
pub struct Terminal;

impl Terminal {
    /// The sequence that selects a foreground colour: escape, `[3`, the
    /// colour's code, `m`.
    pub open spec fn fg_color_text(color: Foreground) -> Seq<char> {
        seq!['\x1B', '[', '3', digit_char(color.code_of()), 'm']
    }

    /// The sequence that selects a foreground colour by its red, green and
    /// blue parts: escape, `[38;2;`, the three parts in decimal with `;`
    /// between them, `m`.
    pub open spec fn rgb_fg_color_text(r: u8, g: u8, b: u8) -> Seq<char> {
        seq!['\x1B', '[', '3', '8', ';', '2', ';'] + decimal_text(r as nat) + seq![';']
            + decimal_text(g as nat) + seq![';'] + decimal_text(b as nat) + seq!['m']
    }

    /// The sequence that selects a foreground colour.
    pub fn get_fg_color(color: Foreground) -> (r: String)
        ensures
            r@ == Self::fg_color_text(color),
    {
        proof {
            reveal_strlit("\x1B[3");
            reveal_strlit("m");
        }
        let mut text = String::from_str("\x1B[3");
        text.append(digit_text(color.code()));
        text.append("m");
        assert(text@ =~= Self::fg_color_text(color));
        text
    }

    /// The sequence that selects a foreground colour by its red, green and
    /// blue parts.
    pub fn get_rgb_fg_color(r: u8, g: u8, b: u8) -> (text: String)
        ensures
            text@ == Self::rgb_fg_color_text(r, g, b),
    {
        proof {
            reveal_strlit("\x1B[38;2;");
            reveal_strlit(";");
            reveal_strlit("m");
        }
        let mut text = String::from_str("\x1B[38;2;");
        append_decimal(&mut text, r as u128);
        text.append(";");
        append_decimal(&mut text, g as u128);
        text.append(";");
        append_decimal(&mut text, b as u128);
        text.append("m");
        assert(text@ =~= Self::rgb_fg_color_text(r, g, b));
        text
    }

    /// The sequence that ends all colouring: it selects white.
    pub fn get_reset_all() -> (r: String)
        ensures
            r@ == Self::fg_color_text(Foreground::White),
    {
        Self::get_fg_color(Foreground::White)
    }
}

} // verus!
