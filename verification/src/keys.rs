use vstd::prelude::*;
use crate::geometry::{Overzone, Pos, PosOffset, SubzoneLevel, ZoneLevel};
use crate::units::EntityId;
use crate::vec_map::MapKey;

verus! {

impl MapKey for Pos {
    fn same(&self, other: &Self) -> (res: bool) {
        *self == *other
    }
}

impl MapKey for PosOffset {
    fn same(&self, other: &Self) -> (res: bool) {
        *self == *other
    }
}

impl MapKey for ZoneLevel {
    fn same(&self, other: &Self) -> (res: bool) {
        *self == *other
    }
}

impl MapKey for SubzoneLevel {
    fn same(&self, other: &Self) -> (res: bool) {
        *self == *other
    }
}

impl MapKey for Overzone {
    fn same(&self, other: &Self) -> (res: bool) {
        *self == *other
    }
}

impl MapKey for EntityId {
    fn same(&self, other: &Self) -> (res: bool) {
        *self == *other
    }
}

} // verus!
