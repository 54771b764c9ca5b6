//! Largest and smallest values of the integer types, behind traits, so that
//! callers can name the sentinel a tree pads with.

use vstd::prelude::*;

verus! {

/// A type with a largest value.
pub trait MaxValue: Sized {
    /// The largest value, as the specifications see it.
    spec fn spec_max_value() -> Self;

    /// The largest value of the type.
    fn max_value() -> (r: Self)
        ensures
            r == Self::spec_max_value(),
    ;
}

/// A type with a smallest value.
pub trait MinValue: Sized {
    /// The smallest value, as the specifications see it.
    spec fn spec_min_value() -> Self;

    /// The smallest value of the type.
    fn min_value() -> (r: Self)
        ensures
            r == Self::spec_min_value(),
    ;
}

impl MaxValue for u8 {
    open spec fn spec_max_value() -> u8 {
        u8::MAX
    }

    fn max_value() -> u8 {
        u8::MAX
    }
}

impl MaxValue for i8 {
    open spec fn spec_max_value() -> i8 {
        i8::MAX
    }

    fn max_value() -> i8 {
        i8::MAX
    }
}

impl MaxValue for u16 {
    open spec fn spec_max_value() -> u16 {
        u16::MAX
    }

    fn max_value() -> u16 {
        u16::MAX
    }
}

impl MaxValue for i16 {
    open spec fn spec_max_value() -> i16 {
        i16::MAX
    }

    fn max_value() -> i16 {
        i16::MAX
    }
}

impl MaxValue for u32 {
    open spec fn spec_max_value() -> u32 {
        u32::MAX
    }

    fn max_value() -> u32 {
        u32::MAX
    }
}

impl MaxValue for i32 {
    open spec fn spec_max_value() -> i32 {
        i32::MAX
    }

    fn max_value() -> i32 {
        i32::MAX
    }
}

impl MaxValue for u64 {
    open spec fn spec_max_value() -> u64 {
        u64::MAX
    }

    fn max_value() -> u64 {
        u64::MAX
    }
}

impl MaxValue for i64 {
    open spec fn spec_max_value() -> i64 {
        i64::MAX
    }

    fn max_value() -> i64 {
        i64::MAX
    }
}

impl MaxValue for usize {
    open spec fn spec_max_value() -> usize {
        usize::MAX
    }

    fn max_value() -> usize {
        usize::MAX
    }
}

impl MaxValue for isize {
    open spec fn spec_max_value() -> isize {
        isize::MAX
    }

    fn max_value() -> isize {
        isize::MAX
    }
}

impl MinValue for u8 {
    open spec fn spec_min_value() -> u8 {
        u8::MIN
    }

    fn min_value() -> u8 {
        u8::MIN
    }
}

impl MinValue for i8 {
    open spec fn spec_min_value() -> i8 {
        i8::MIN
    }

    fn min_value() -> i8 {
        i8::MIN
    }
}

impl MinValue for u16 {
    open spec fn spec_min_value() -> u16 {
        u16::MIN
    }

    fn min_value() -> u16 {
        u16::MIN
    }
}

impl MinValue for i16 {
    open spec fn spec_min_value() -> i16 {
        i16::MIN
    }

    fn min_value() -> i16 {
        i16::MIN
    }
}

impl MinValue for u32 {
    open spec fn spec_min_value() -> u32 {
        u32::MIN
    }

    fn min_value() -> u32 {
        u32::MIN
    }
}

impl MinValue for i32 {
    open spec fn spec_min_value() -> i32 {
        i32::MIN
    }

    fn min_value() -> i32 {
        i32::MIN
    }
}

impl MinValue for u64 {
    open spec fn spec_min_value() -> u64 {
        u64::MIN
    }

    fn min_value() -> u64 {
        u64::MIN
    }
}

impl MinValue for i64 {
    open spec fn spec_min_value() -> i64 {
        i64::MIN
    }

    fn min_value() -> i64 {
        i64::MIN
    }
}

impl MinValue for usize {
    open spec fn spec_min_value() -> usize {
        usize::MIN
    }

    fn min_value() -> usize {
        usize::MIN
    }
}

impl MinValue for isize {
    open spec fn spec_min_value() -> isize {
        isize::MIN
    }

    fn min_value() -> isize {
        isize::MIN
    }
}

} // verus!
