//! The closed enumerations of the format and the byte that stands for each
//! of their members.

use crate::error::Error;
use vstd::prelude::*;

verus! {

/// The kind of a record, as its header's tag names it.
#[derive(Debug, Clone, Copy, PartialEq, Eq, Hash, Structural)]
pub enum RType {
    Mbp1,
    Ohlcv,
    Trade,
    Tbbo,
    Bbo,
}

impl RType {
    /// The tag that stands for this record type.
    pub open spec fn spec_as_u8(self) -> u8 {
        match self {
            RType::Mbp1 => 1,
            RType::Ohlcv => 2,
            RType::Trade => 3,
            RType::Tbbo => 4,
            RType::Bbo => 5,
        }
    }

    /// The record type that `value` stands for, if it stands for one.
    pub open spec fn spec_from_u8(value: u8) -> Option<RType> {
        if value == 1 {
            Some(RType::Mbp1)
        } else if value == 2 {
            Some(RType::Ohlcv)
        } else if value == 3 {
            Some(RType::Trade)
        } else if value == 4 {
            Some(RType::Tbbo)
        } else if value == 5 {
            Some(RType::Bbo)
        } else {
            None
        }
    }

    pub fn as_u8(self) -> (b: u8)
        ensures
            b == self.spec_as_u8(),
            RType::spec_from_u8(b) == Some(self),
    {
        match self {
            RType::Mbp1 => 1,
            RType::Ohlcv => 2,
            RType::Trade => 3,
            RType::Tbbo => 4,
            RType::Bbo => 5,
        }
    }

    pub fn from_u8(value: u8) -> (r: Option<RType>)
        ensures
            r == RType::spec_from_u8(value),
            r matches Some(t) ==> t.spec_as_u8() == value,
    {
        match value {
            1 => Some(RType::Mbp1),
            2 => Some(RType::Ohlcv),
            3 => Some(RType::Trade),
            4 => Some(RType::Tbbo),
            5 => Some(RType::Bbo),
            _ => None,
        }
    }

    /// The record type in which records of `schema` are carried.
    pub fn from_schema(schema: Schema) -> (r: RType)
        ensures
            r == schema.spec_rtype(),
    {
        match schema {
            Schema::Mbp1 => RType::Mbp1,
            Schema::Ohlcv1S => RType::Ohlcv,
            Schema::Ohlcv1M => RType::Ohlcv,
            Schema::Ohlcv1H => RType::Ohlcv,
            Schema::Ohlcv1D => RType::Ohlcv,
            Schema::Trade => RType::Trade,
            Schema::Tbbo => RType::Tbbo,
            Schema::Bbo1S => RType::Bbo,
            Schema::Bbo1M => RType::Bbo,
        }
    }

    /// As `from_u8`, with an error for a tag that names no record type.
    pub fn from_int(value: u8) -> (r: Result<RType, Error>)
        ensures
            r == (match RType::spec_from_u8(value) {
                Some(t) => Ok::<RType, Error>(t),
                None => Err::<RType, Error>(Error::InvalidValue),
            }),
    {
        match RType::from_u8(value) {
            Some(t) => Ok(t),
            None => Err(Error::InvalidValue),
        }
    }
}

/// The schema of a stream, as the metadata block names it.
#[derive(Debug, Clone, Copy, PartialEq, Eq, Hash, Structural)]
pub enum Schema {
    Mbp1,
    Ohlcv1S,
    Ohlcv1M,
    Ohlcv1H,
    Ohlcv1D,
    Trade,
    Tbbo,
    Bbo1S,
    Bbo1M,
}

impl Schema {
    /// The tag that stands for this schema.
    pub open spec fn spec_as_u8(self) -> u8 {
        match self {
            Schema::Mbp1 => 1,
            Schema::Ohlcv1S => 2,
            Schema::Ohlcv1M => 3,
            Schema::Ohlcv1H => 4,
            Schema::Ohlcv1D => 5,
            Schema::Trade => 6,
            Schema::Tbbo => 7,
            Schema::Bbo1S => 8,
            Schema::Bbo1M => 9,
        }
    }

    /// The schema that `value` stands for, if it stands for one.
    pub open spec fn spec_from_u8(value: u8) -> Option<Schema> {
        if value == 1 {
            Some(Schema::Mbp1)
        } else if value == 2 {
            Some(Schema::Ohlcv1S)
        } else if value == 3 {
            Some(Schema::Ohlcv1M)
        } else if value == 4 {
            Some(Schema::Ohlcv1H)
        } else if value == 5 {
            Some(Schema::Ohlcv1D)
        } else if value == 6 {
            Some(Schema::Trade)
        } else if value == 7 {
            Some(Schema::Tbbo)
        } else if value == 8 {
            Some(Schema::Bbo1S)
        } else if value == 9 {
            Some(Schema::Bbo1M)
        } else {
            None
        }
    }

    /// The record type in which records of this schema are carried.
    pub open spec fn spec_rtype(self) -> RType {
        match self {
            Schema::Mbp1 => RType::Mbp1,
            Schema::Ohlcv1S | Schema::Ohlcv1M | Schema::Ohlcv1H | Schema::Ohlcv1D => RType::Ohlcv,
            Schema::Trade => RType::Trade,
            Schema::Tbbo => RType::Tbbo,
            Schema::Bbo1S | Schema::Bbo1M => RType::Bbo,
        }
    }

    pub fn as_u8(self) -> (b: u8)
        ensures
            b == self.spec_as_u8(),
            Schema::spec_from_u8(b) == Some(self),
    {
        match self {
            Schema::Mbp1 => 1,
            Schema::Ohlcv1S => 2,
            Schema::Ohlcv1M => 3,
            Schema::Ohlcv1H => 4,
            Schema::Ohlcv1D => 5,
            Schema::Trade => 6,
            Schema::Tbbo => 7,
            Schema::Bbo1S => 8,
            Schema::Bbo1M => 9,
        }
    }

    pub fn from_u8(value: u8) -> (r: Option<Schema>)
        ensures
            r == Schema::spec_from_u8(value),
            r matches Some(t) ==> t.spec_as_u8() == value,
    {
        match value {
            1 => Some(Schema::Mbp1),
            2 => Some(Schema::Ohlcv1S),
            3 => Some(Schema::Ohlcv1M),
            4 => Some(Schema::Ohlcv1H),
            5 => Some(Schema::Ohlcv1D),
            6 => Some(Schema::Trade),
            7 => Some(Schema::Tbbo),
            8 => Some(Schema::Bbo1S),
            9 => Some(Schema::Bbo1M),
            _ => None,
        }
    }
}

/// The side of the book that an event is on.
#[derive(Debug, Clone, Copy, PartialEq, Eq, Hash, Structural)]
pub enum Side {
    Ask,
    Bid,
    Neither,
}

impl Side {
    /// The ASCII letter that stands for this side.
    pub open spec fn spec_as_u8(self) -> u8 {
        match self {
            Side::Ask => 65,
            Side::Bid => 66,
            Side::Neither => 78,
        }
    }

    /// The side that `value` stands for, if it stands for one.
    pub open spec fn spec_from_u8(value: u8) -> Option<Side> {
        if value == 65 {
            Some(Side::Ask)
        } else if value == 66 {
            Some(Side::Bid)
        } else if value == 78 {
            Some(Side::Neither)
        } else {
            None
        }
    }

    pub fn as_u8(self) -> (b: u8)
        ensures
            b == self.spec_as_u8(),
            Side::spec_from_u8(b) == Some(self),
    {
        match self {
            Side::Ask => 65,
            Side::Bid => 66,
            Side::Neither => 78,
        }
    }

    /// The side that `value` stands for, or an error where it stands for none.
    pub fn from_int(value: u8) -> (r: Result<Side, Error>)
        ensures
            r == (match Side::spec_from_u8(value) {
                Some(t) => Ok::<Side, Error>(t),
                None => Err::<Side, Error>(Error::InvalidValue),
            }),
    {
        match value {
            65 => Ok(Side::Ask),
            66 => Ok(Side::Bid),
            78 => Ok(Side::Neither),
            _ => Err(Error::InvalidValue),
        }
    }
}

/// What an event did to the book.
#[derive(Debug, Clone, Copy, PartialEq, Eq, Hash, Structural)]
pub enum Action {
    Modify,
    Trade,
    Fill,
    Cancel,
    Add,
    Clear,
}

impl Action {
    /// The ASCII letter that stands for this action.
    pub open spec fn spec_as_u8(self) -> u8 {
        match self {
            Action::Modify => 77,
            Action::Trade => 84,
            Action::Fill => 70,
            Action::Cancel => 67,
            Action::Add => 65,
            Action::Clear => 82,
        }
    }

    /// The action that `value` stands for, if it stands for one.
    pub open spec fn spec_from_u8(value: u8) -> Option<Action> {
        if value == 77 {
            Some(Action::Modify)
        } else if value == 84 {
            Some(Action::Trade)
        } else if value == 70 {
            Some(Action::Fill)
        } else if value == 67 {
            Some(Action::Cancel)
        } else if value == 65 {
            Some(Action::Add)
        } else if value == 82 {
            Some(Action::Clear)
        } else {
            None
        }
    }

    pub fn as_u8(self) -> (b: u8)
        ensures
            b == self.spec_as_u8(),
            Action::spec_from_u8(b) == Some(self),
    {
        match self {
            Action::Modify => 77,
            Action::Trade => 84,
            Action::Fill => 70,
            Action::Cancel => 67,
            Action::Add => 65,
            Action::Clear => 82,
        }
    }

    /// The action that `value` stands for, or an error where it stands for none.
    pub fn from_int(value: u8) -> (r: Result<Action, Error>)
        ensures
            r == (match Action::spec_from_u8(value) {
                Some(t) => Ok::<Action, Error>(t),
                None => Err::<Action, Error>(Error::InvalidValue),
            }),
    {
        match value {
            77 => Ok(Action::Modify),
            84 => Ok(Action::Trade),
            70 => Ok(Action::Fill),
            67 => Ok(Action::Cancel),
            65 => Ok(Action::Add),
            82 => Ok(Action::Clear),
            _ => Err(Error::InvalidValue),
        }
    }
}

} // verus!
