//! Seats: the four seat letters, seat classes, and the grammar of seat
//! identifiers.
//!
//! A seat identifier is one or more decimal digits, the row, followed by
//! exactly one of the letters `A`, `B`, `C`, `D`.

use vstd::prelude::*;
use crate::text::decimal;
use crate::text::decimal_string;
use crate::text::all_digits;
use crate::text::digits_value;
use crate::text::lemma_decimal_digits;
use crate::text::read_digits;

verus! {

/// Number of rows that a seat map shows.
pub const ROWS: u32 = 20;

/// The position of a seat within its row.
#[derive(Clone, Copy, Debug, PartialEq, Eq, Hash, Structural)]
pub enum SeatType {
    A,
    B,
    C,
    D,
}

impl SeatType {
    /// The letter that stands for this seat type.
    pub open spec fn letter(self) -> char {
        match self {
            SeatType::A => 'A',
            SeatType::B => 'B',
            SeatType::C => 'C',
            SeatType::D => 'D',
        }
    }

    /// The seat type that a letter stands for, if any.
    pub open spec fn of_letter(c: char) -> Option<SeatType> {
        if c == 'A' {
            Some(SeatType::A)
        } else if c == 'B' {
            Some(SeatType::B)
        } else if c == 'C' {
            Some(SeatType::C)
        } else if c == 'D' {
            Some(SeatType::D)
        } else {
            None
        }
    }

    /// The seat types in the order in which a seat map lists them.
    pub open spec fn all() -> Seq<SeatType> {
        seq![SeatType::A, SeatType::B, SeatType::C, SeatType::D]
    }

    /// The letter that stands for this seat type; `from_char` reads it
    /// back.
    pub fn as_char(&self) -> (c: char)
        ensures
            c == self.letter(),
            SeatType::of_letter(c) == Some(*self),
    {
        match self {
            SeatType::A => 'A',
            SeatType::B => 'B',
            SeatType::C => 'C',
            SeatType::D => 'D',
        }
    }

    /// The seat type that a letter stands for: `A`, `B`, `C` or `D` in upper
    /// case, and nothing else.
    pub fn from_char(c: char) -> (r: Option<SeatType>)
        ensures
            r == SeatType::of_letter(c),
    {
        match c {
            'A' => Some(SeatType::A),
            'B' => Some(SeatType::B),
            'C' => Some(SeatType::C),
            'D' => Some(SeatType::D),
            _ => None,
        }
    }

    /// The four seat types in the order in which a seat map lists them.
    pub fn variants() -> (r: [SeatType; 4])
        ensures
            r@ == SeatType::all(),
    {
        let r: [SeatType; 4] = [SeatType::A, SeatType::B, SeatType::C, SeatType::D];
        assert(r@ =~= SeatType::all());
        r
    }

    /// The one-letter string of this seat type.
    pub fn as_text(&self) -> (r: &'static str)
        ensures
            r@ == seq![self.letter()],
    {
        proof {
            reveal_strlit("A");
            reveal_strlit("B");
            reveal_strlit("C");
            reveal_strlit("D");
        }
        let r: &'static str = match self {
            SeatType::A => "A",
            SeatType::B => "B",
            SeatType::C => "C",
            SeatType::D => "D",
        };
        assert(r@ =~= seq![self.letter()]);
        r
    }
}

/// A block of consecutive rows sold at one price. The block ends at row
/// `column`; it begins after the previous class of the flight, or at row 1.
#[derive(Clone, Copy, Debug, PartialEq, Eq, Structural)]
pub struct SeatClass {
    pub column: u32,
    pub price: u32,
}

/// The part of a seat identifier before its last character.
pub open spec fn row_part(seat_id: Seq<char>) -> Seq<char> {
    seat_id.drop_last()
}

/// `seat_id` follows the grammar of seat identifiers.
pub open spec fn well_formed_seat_id(seat_id: Seq<char>) -> bool {
    &&& seat_id.len() >= 2
    &&& SeatType::of_letter(seat_id.last()) is Some
    &&& all_digits(row_part(seat_id))
}

/// The row and seat type that a seat identifier names, or `None` where it
/// does not follow the grammar.
pub open spec fn parse_seat_id(seat_id: Seq<char>) -> Option<(nat, SeatType)> {
    if well_formed_seat_id(seat_id) {
        Some((digits_value(row_part(seat_id)), SeatType::of_letter(seat_id.last())->0))
    } else {
        None
    }
}

/// The identifier under which a seat map looks up the seat in `row` of
/// type `seat_type`: the row in decimal, then the letter.
pub open spec fn seat_label(row: nat, seat_type: SeatType) -> Seq<char> {
    decimal(row).push(seat_type.letter())
}

/// Position, counted from 0 and searched from `from` on, of the first class
/// whose last row is `row` or later.
pub open spec fn first_covering(classes: Seq<SeatClass>, row: nat, from: int) -> Option<int>
    decreases classes.len() - from,
{
    if from < 0 || from >= classes.len() {
        None
    } else if row <= classes[from].column {
        Some(from)
    } else {
        first_covering(classes, row, from + 1)
    }
}

/// The class, counted from 1, and the price of the seat that `seat_id`
/// names among `classes`; `None` where the identifier does not follow the
/// grammar, the row is 0, or every class ends before the row.
pub open spec fn classify(classes: Seq<SeatClass>, seat_id: Seq<char>) -> Option<(nat, u32)> {
    match parse_seat_id(seat_id) {
        Some((row, _)) => if row >= 1 {
            match first_covering(classes, row, 0) {
                Some(i) => Some(((i + 1) as nat, classes[i].price)),
                None => None,
            }
        } else {
            None
        },
        None => None,
    }
}

/// What `first_covering` finds: the class at the position it gives ends at
/// `row` or later and every class before it, from `from` on, ends earlier;
/// where it gives none, every class from `from` on ends before `row`.
pub proof fn lemma_first_covering(classes: Seq<SeatClass>, row: nat, from: int)
    requires
        0 <= from,
    ensures
        match first_covering(classes, row, from) {
            Some(i) => {
                &&& from <= i < classes.len()
                &&& row <= classes[i].column
                &&& forall|j: int| from <= j < i ==> (#[trigger] classes[j]).column < row
            },
            None => forall|j: int|
                from <= j < classes.len() ==> (#[trigger] classes[j]).column < row,
        },
    decreases classes.len() - from,
{
    if from < classes.len() && row > classes[from].column {
        lemma_first_covering(classes, row, from + 1);
    }
}

/// The label of a seat follows the grammar and names that seat.
pub proof fn lemma_seat_label_parses(row: nat, seat_type: SeatType)
    ensures
        parse_seat_id(seat_label(row, seat_type)) == Some((row, seat_type)),
{
    lemma_decimal_digits(row);
    assert(row_part(seat_label(row, seat_type)) =~= decimal(row));
    assert(seat_label(row, seat_type).last() == seat_type.letter());
}

/// Reads a seat identifier. A row too large for a `u32`, which no seat
/// class can reach, is answered like an identifier that breaks the grammar.
pub fn read_seat_id(seat_id: &str) -> (r: Option<(u32, SeatType)>)
    ensures
        match parse_seat_id(seat_id@) {
            Some((row, seat_type)) => if row <= u32::MAX {
                r == Some((row as u32, seat_type))
            } else {
                r is None
            },
            None => r is None,
        },
{
    let len: usize = seat_id.unicode_len();
    if len < 2 {
        return None;
    }
    let last: char = seat_id.get_char(len - 1);
    assert(last == seat_id@.last());
    let seat_type: SeatType = match SeatType::from_char(last) {
        Some(t) => t,
        None => {
            return None;
        },
    };
    assert(seat_id@.subrange(0, len - 1) =~= row_part(seat_id@));
    match read_digits(seat_id, 0, len - 1) {
        Some(value) => {
            assert(well_formed_seat_id(seat_id@));
            if value > 0xffff_ffff {
                None
            } else {
                Some((value as u32, seat_type))
            }
        },
        None => None,
    }
}

/// Writes the identifier of the seat in `row` of type `seat_type`.
pub fn make_seat_label(row: u32, seat_type: SeatType) -> (r: String)
    ensures
        r@ == seat_label(row as nat, seat_type),
{
    let mut r: String = decimal_string(row);
    r.append(seat_type.as_text());
    assert(r@ =~= seat_label(row as nat, seat_type));
    r
}

} // verus!
