//! Commands and their outcomes: the one entry point through which a
//! command, already read, reaches the engine.

use vstd::prelude::*;
use crate::outcome::CancelError;
use crate::outcome::ReserveError;
use crate::outcome::SeatSearchError;
use crate::flight_search::FlightAvailability;
use crate::reservation_listing::ReservationListing;
use crate::seat_map::SeatCell;
use crate::seat::SeatType;
use crate::system::ReservationSystem;
use crate::text::number_of;
use crate::text::read_number;

verus! {

/// A command. `now` is the time at which it is made; only reserving and
/// cancelling look at it.
#[derive(Debug)]
pub enum Command {
    Reserve { now: String, user_id: String, date: String, flight_id: u32, seat_id: String },
    Cancel { now: String, user_id: String, reservation_id: u32 },
    SeatSearch { now: String, date: String, flight_id: u32 },
    GetReservations { now: String, user_id: String },
    FlightSearch { now: String, date: String, departure_airport: u32, arrival_airport: u32 },
}

/// What a command answers.
#[derive(Debug)]
pub enum Outcome {
    /// The seat is reserved under this id at this price.
    Reserved { reservation_id: u32, price: u32 },
    ReserveRefused(ReserveError),
    /// The reservation is cancelled.
    Cancelled,
    CancelRefused(CancelError),
    /// The seat map: one line for each seat type.
    SeatMap(Vec<Vec<SeatCell>>),
    SeatSearchRefused(SeatSearchError),
    /// The active reservations of the user, in listing order.
    Reservations(Vec<ReservationListing>),
    /// The flights of the route, in listing order.
    Flights(Vec<FlightAvailability>),
}

/// A command as the contracts see it.
pub enum CommandView {
    Reserve { now: Seq<char>, user_id: Seq<char>, date: Seq<char>, flight_id: u32, seat_id: Seq<char> },
    Cancel { now: Seq<char>, user_id: Seq<char>, reservation_id: u32 },
    SeatSearch { now: Seq<char>, date: Seq<char>, flight_id: u32 },
    GetReservations { now: Seq<char>, user_id: Seq<char> },
    FlightSearch { now: Seq<char>, date: Seq<char>, departure_airport: u32, arrival_airport: u32 },
}

impl View for Command {
    type V = CommandView;

    open spec fn view(&self) -> CommandView {
        match *self {
            Command::Reserve { now, user_id, date, flight_id, seat_id } => CommandView::Reserve {
                now: now@,
                user_id: user_id@,
                date: date@,
                flight_id,
                seat_id: seat_id@,
            },
            Command::Cancel { now, user_id, reservation_id } => CommandView::Cancel {
                now: now@,
                user_id: user_id@,
                reservation_id,
            },
            Command::SeatSearch { now, date, flight_id } => CommandView::SeatSearch {
                now: now@,
                date: date@,
                flight_id,
            },
            Command::GetReservations { now, user_id } => CommandView::GetReservations {
                now: now@,
                user_id: user_id@,
            },
            Command::FlightSearch {
                now,
                date,
                departure_airport,
                arrival_airport,
            } => CommandView::FlightSearch {
                now: now@,
                date: date@,
                departure_airport,
                arrival_airport,
            },
        }
    }
}

/// The five kinds of command.
#[derive(Clone, Copy, Debug, PartialEq, Eq, Structural)]
pub enum CommandKind {
    Reserve,
    Cancel,
    SeatSearch,
    GetReservations,
    FlightSearch,
}

/// Why a line of words is no command.
#[derive(Clone, Copy, Debug, PartialEq, Eq, Structural)]
pub enum QueryError {
    /// The first word names a command, but the words after it are too few
    /// or too many, or one that should be a number is none.
    InvalidQuery(CommandKind),
    /// There is no first word, or it names no command.
    UnknownCommand,
}

impl CommandKind {
    /// The word that names a command of this kind.
    pub open spec fn word(self) -> Seq<char> {
        match self {
            CommandKind::Reserve => "reserve:"@,
            CommandKind::Cancel => "cancel:"@,
            CommandKind::SeatSearch => "seat-search:"@,
            CommandKind::GetReservations => "get-reservations:"@,
            CommandKind::FlightSearch => "flight-search:"@,
        }
    }

    /// Number of words of a command of this kind, its name included.
    pub open spec fn words(self) -> nat {
        match self {
            CommandKind::Reserve => 6,
            CommandKind::Cancel => 4,
            CommandKind::SeatSearch => 4,
            CommandKind::GetReservations => 3,
            CommandKind::FlightSearch => 5,
        }
    }

    /// The kind of command that `word` names, if it names one.
    pub open spec fn named(word: Seq<char>) -> Option<CommandKind> {
        if word == CommandKind::Reserve.word() {
            Some(CommandKind::Reserve)
        } else if word == CommandKind::Cancel.word() {
            Some(CommandKind::Cancel)
        } else if word == CommandKind::SeatSearch.word() {
            Some(CommandKind::SeatSearch)
        } else if word == CommandKind::GetReservations.word() {
            Some(CommandKind::GetReservations)
        } else if word == CommandKind::FlightSearch.word() {
            Some(CommandKind::FlightSearch)
        } else {
            None
        }
    }

    /// The word that names a command of this kind.
    pub fn name(&self) -> (r: &'static str)
        ensures
            r@ == self.word(),
    {
        match self {
            CommandKind::Reserve => "reserve:",
            CommandKind::Cancel => "cancel:",
            CommandKind::SeatSearch => "seat-search:",
            CommandKind::GetReservations => "get-reservations:",
            CommandKind::FlightSearch => "flight-search:",
        }
    }

    /// Number of words of a command of this kind, its name included.
    pub fn word_count(&self) -> (r: usize)
        ensures
            r == self.words(),
    {
        match self {
            CommandKind::Reserve => 6,
            CommandKind::Cancel => 4,
            CommandKind::SeatSearch => 4,
            CommandKind::GetReservations => 3,
            CommandKind::FlightSearch => 5,
        }
    }

    /// The kind of command that `word` names, if it names one.
    pub fn from_name(word: &String) -> (r: Option<CommandKind>)
        ensures
            r == CommandKind::named(word@),
    {
        if *word == String::from_str(CommandKind::Reserve.name()) {
            Some(CommandKind::Reserve)
        } else if *word == String::from_str(CommandKind::Cancel.name()) {
            Some(CommandKind::Cancel)
        } else if *word == String::from_str(CommandKind::SeatSearch.name()) {
            Some(CommandKind::SeatSearch)
        } else if *word == String::from_str(CommandKind::GetReservations.name()) {
            Some(CommandKind::GetReservations)
        } else if *word == String::from_str(CommandKind::FlightSearch.name()) {
            Some(CommandKind::FlightSearch)
        } else {
            None
        }
    }
}

/// The command that a line of words spells. The first word names the
/// command; the words after it are its arguments, the time of the command
/// first.
pub open spec fn command_of(words: Seq<Seq<char>>) -> Result<CommandView, QueryError> {
    if words.len() == 0 || CommandKind::named(words[0]) is None {
        Err(QueryError::UnknownCommand)
    } else {
        let kind = CommandKind::named(words[0])->0;
        if words.len() != kind.words() {
            Err(QueryError::InvalidQuery(kind))
        } else {
            match kind {
                CommandKind::Reserve => match number_of(words[4]) {
                    Some(flight_id) => Ok(
                        CommandView::Reserve {
                            now: words[1],
                            user_id: words[2],
                            date: words[3],
                            flight_id,
                            seat_id: words[5],
                        },
                    ),
                    None => Err(QueryError::InvalidQuery(kind)),
                },
                CommandKind::Cancel => match number_of(words[3]) {
                    Some(reservation_id) => Ok(
                        CommandView::Cancel { now: words[1], user_id: words[2], reservation_id },
                    ),
                    None => Err(QueryError::InvalidQuery(kind)),
                },
                CommandKind::SeatSearch => match number_of(words[3]) {
                    Some(flight_id) => Ok(
                        CommandView::SeatSearch { now: words[1], date: words[2], flight_id },
                    ),
                    None => Err(QueryError::InvalidQuery(kind)),
                },
                CommandKind::GetReservations => Ok(
                    CommandView::GetReservations { now: words[1], user_id: words[2] },
                ),
                CommandKind::FlightSearch => match (number_of(words[3]), number_of(words[4])) {
                    (Some(departure_airport), Some(arrival_airport)) => Ok(
                        CommandView::FlightSearch {
                            now: words[1],
                            date: words[2],
                            departure_airport,
                            arrival_airport,
                        },
                    ),
                    _ => Err(QueryError::InvalidQuery(kind)),
                },
            }
        }
    }
}

/// The words of a line as the contracts see them.
pub open spec fn words_of(words: Seq<String>) -> Seq<Seq<char>> {
    words.map_values(|w: String| w@)
}

impl Command {
    /// Reads a command from the words of a line.
    pub fn from_words(words: &Vec<String>) -> (r: Result<Command, QueryError>)
        ensures
            match r {
                Ok(command) => command_of(words_of(words@)) == Ok::<CommandView, QueryError>(
                    command@,
                ),
                Err(e) => command_of(words_of(words@)) == Err::<CommandView, QueryError>(e),
            },
    {
        let ghost texts: Seq<Seq<char>> = words_of(words@);
        if words.len() == 0 {
            return Err(QueryError::UnknownCommand);
        }
        assert(texts[0] == words@[0]@);
        let kind: CommandKind = match CommandKind::from_name(&words[0]) {
            Some(kind) => kind,
            None => {
                return Err(QueryError::UnknownCommand);
            },
        };
        if words.len() != kind.word_count() {
            return Err(QueryError::InvalidQuery(kind));
        }
        assert forall|i: int| 0 <= i < words@.len() implies #[trigger] texts[i] == words@[i]@ by {}
        match kind {
            CommandKind::Reserve => match read_number(words[4].as_str()) {
                Some(flight_id) => Ok(
                    Command::Reserve {
                        now: words[1].clone(),
                        user_id: words[2].clone(),
                        date: words[3].clone(),
                        flight_id,
                        seat_id: words[5].clone(),
                    },
                ),
                None => Err(QueryError::InvalidQuery(kind)),
            },
            CommandKind::Cancel => match read_number(words[3].as_str()) {
                Some(reservation_id) => Ok(
                    Command::Cancel {
                        now: words[1].clone(),
                        user_id: words[2].clone(),
                        reservation_id,
                    },
                ),
                None => Err(QueryError::InvalidQuery(kind)),
            },
            CommandKind::SeatSearch => match read_number(words[3].as_str()) {
                Some(flight_id) => Ok(
                    Command::SeatSearch { now: words[1].clone(), date: words[2].clone(), flight_id },
                ),
                None => Err(QueryError::InvalidQuery(kind)),
            },
            CommandKind::GetReservations => Ok(
                Command::GetReservations { now: words[1].clone(), user_id: words[2].clone() },
            ),
            CommandKind::FlightSearch => {
                let departure: Option<u32> = read_number(words[3].as_str());
                let arrival: Option<u32> = read_number(words[4].as_str());
                match (departure, arrival) {
                    (Some(departure_airport), Some(arrival_airport)) => Ok(
                        Command::FlightSearch {
                            now: words[1].clone(),
                            date: words[2].clone(),
                            departure_airport,
                            arrival_airport,
                        },
                    ),
                    _ => Err(QueryError::InvalidQuery(kind)),
                }
            },
        }
    }
}

impl ReservationSystem {
    /// Carries out one command. Only reserving and cancelling change the
    /// state; what each command answers is what the function of the engine
    /// that carries it out answers.
    pub fn execute(&mut self, command: &Command) -> (outcome: Outcome)
        requires
            old(self).wf(),
            command is Reserve ==> old(self)@.has_room(),
        ensures
            final(self).wf(),
            old(self)@.bookings_consistent() ==> final(self)@.bookings_consistent(),
            match *command {
                Command::Reserve { now, user_id, date, flight_id, seat_id } => {
                    &&& final(self)@ == old(self)@.reserve(now@, user_id@, date@, flight_id, seat_id@)
                    &&& match old(self)@.reserve_result(now@, date@, flight_id, seat_id@) {
                        Ok((reservation_id, price)) => outcome == (Outcome::Reserved {
                            reservation_id,
                            price,
                        }),
                        Err(e) => outcome == Outcome::ReserveRefused(e),
                    }
                },
                Command::Cancel { now, user_id, reservation_id } => {
                    &&& final(self)@ == old(self)@.cancel(now@, user_id@, reservation_id)
                    &&& match old(self)@.cancel_result(now@, user_id@, reservation_id) {
                        Ok(_) => outcome == Outcome::Cancelled,
                        Err(e) => outcome == Outcome::CancelRefused(e),
                    }
                },
                Command::SeatSearch { now, date, flight_id } => {
                    &&& final(self)@ == old(self)@
                    &&& match outcome {
                        Outcome::SeatMap(lines) => {
                            &&& old(self)@.flights.contains_key(flight_id)
                            &&& lines@.len() == 4
                            &&& forall|t: int|
                                0 <= t < 4 ==> (#[trigger] lines@[t])@ == old(self)@.seat_line(
                                    date@,
                                    flight_id,
                                    SeatType::all()[t],
                                )
                        },
                        Outcome::SeatSearchRefused(e) => !old(self)@.flights.contains_key(flight_id)
                            && e == SeatSearchError::FlightNotFound,
                        _ => false,
                    }
                },
                Command::GetReservations { now, user_id } => {
                    &&& final(self)@ == old(self)@
                    &&& match outcome {
                        Outcome::Reservations(listing) => old(self)@.is_reservation_listing(
                            user_id@,
                            listing@.map_values(|r: ReservationListing| r@),
                        ),
                        _ => false,
                    }
                },
                Command::FlightSearch { now, date, departure_airport, arrival_airport } => {
                    &&& final(self)@ == old(self)@
                    &&& match outcome {
                        Outcome::Flights(listing) => old(self)@.is_flight_listing(
                            date@,
                            departure_airport,
                            arrival_airport,
                            listing@.map_values(|f: FlightAvailability| f@),
                        ),
                        _ => false,
                    }
                },
            },
    {
        match command {
            Command::Reserve { now, user_id, date, flight_id, seat_id } => {
                match self.process_reserve(
                    now.as_str(),
                    user_id.as_str(),
                    date.as_str(),
                    *flight_id,
                    seat_id.as_str(),
                ) {
                    Ok((reservation_id, price)) => Outcome::Reserved { reservation_id, price },
                    Err(e) => Outcome::ReserveRefused(e),
                }
            },
            Command::Cancel { now, user_id, reservation_id } => {
                match self.process_cancel(now.as_str(), user_id.as_str(), *reservation_id) {
                    Ok(_) => Outcome::Cancelled,
                    Err(e) => Outcome::CancelRefused(e),
                }
            },
            Command::SeatSearch { now, date, flight_id } => {
                match self.process_seat_search(now.as_str(), date.as_str(), *flight_id) {
                    Ok(lines) => Outcome::SeatMap(lines),
                    Err(e) => Outcome::SeatSearchRefused(e),
                }
            },
            Command::GetReservations { now, user_id } => {
                Outcome::Reservations(self.process_get_reservations(now.as_str(), user_id.as_str()))
            },
            Command::FlightSearch { now, date, departure_airport, arrival_airport } => {
                Outcome::Flights(
                    self.process_flight_search(
                        now.as_str(),
                        date.as_str(),
                        *departure_airport,
                        *arrival_airport,
                    ),
                )
            },
        }
    }
}

} // verus!
