//! The coefficient width a key is instantiated with, as a type-level witness.

use vstd::prelude::*;

verus! {

/// The two supported coefficient widths.
#[derive(Clone, Copy, Debug, PartialEq, Eq, Structural)]
pub enum Width {
    Width32,
    Width64,
}

/// Bytes taken by one coefficient of width `w`.
pub open spec fn bytes_of(w: Width) -> nat {
    match w {
        Width::Width32 => 4,
        Width::Width64 => 8,
    }
}

/// A coefficient type usable in a device key; its width is fixed by the type.
pub trait Coefficient: Copy {
    spec fn width_spec() -> Width;

    fn width() -> (r: Width)
        ensures
            r == Self::width_spec(),
    ;

    fn byte_width() -> (r: usize)
        ensures
            r as nat == bytes_of(Self::width_spec()),
    ;
}

impl Coefficient for u32 {
    open spec fn width_spec() -> Width {
        Width::Width32
    }

    fn width() -> (r: Width) {
        Width::Width32
    }

    fn byte_width() -> (r: usize) {
        4
    }
}

impl Coefficient for u64 {
    open spec fn width_spec() -> Width {
        Width::Width64
    }

    fn width() -> (r: Width) {
        Width::Width64
    }

    fn byte_width() -> (r: usize) {
        8
    }
}

} // verus!
