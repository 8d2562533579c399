//! Lazy, restartable enumeration of Cartesian products of finite value sets.
//!
//! A parameter is a finite, ordered, non-empty domain of values. Leaves wrap a
//! list; composites combine two or three parameters into their product, which
//! is walked like an odometer: the last component turns fastest.

pub mod entropy;
pub mod enum_param;
pub mod enum_param2;
pub mod enum_param3;
pub mod product;
pub mod traits;

pub use crate::enum_param::{EnumParam, EnumParamIter};
pub use crate::enum_param2::{EnumParam2, EnumParam2Iter};
pub use crate::enum_param3::{EnumParam3, EnumParam3Iter};
pub use crate::traits::{enumerate, exhaust, replay, AsEnumParam, Reset};
