//! The integer element types of matrices: each one's value as a mathematical integer, its
//! range, and its checked-free arithmetic on values whose result is in range.
use vstd::prelude::*;

use crate::matrix::IntegerEntry;
use crate::sealed::Sealed;

verus! {

impl Sealed for i8 {}

impl IntegerEntry for i8 {
    open spec fn as_int(self) -> int {
        self as int
    }

    open spec fn fits(v: int) -> bool {
        i8::MIN <= v <= i8::MAX
    }

    proof fn lemma_as_int_injective(a: Self, b: Self) {
    }

    proof fn lemma_in_range(a: Self) {
    }

    fn plus(self, other: Self) -> (r: Self) {
        self + other
    }

    fn minus(self, other: Self) -> (r: Self) {
        self - other
    }

    fn times(self, other: Self) -> (r: Self) {
        self * other
    }

    fn zero_value() -> (r: Self) {
        0
    }
}

impl Sealed for i16 {}

impl IntegerEntry for i16 {
    open spec fn as_int(self) -> int {
        self as int
    }

    open spec fn fits(v: int) -> bool {
        i16::MIN <= v <= i16::MAX
    }

    proof fn lemma_as_int_injective(a: Self, b: Self) {
    }

    proof fn lemma_in_range(a: Self) {
    }

    fn plus(self, other: Self) -> (r: Self) {
        self + other
    }

    fn minus(self, other: Self) -> (r: Self) {
        self - other
    }

    fn times(self, other: Self) -> (r: Self) {
        self * other
    }

    fn zero_value() -> (r: Self) {
        0
    }
}

impl Sealed for i32 {}

impl IntegerEntry for i32 {
    open spec fn as_int(self) -> int {
        self as int
    }

    open spec fn fits(v: int) -> bool {
        i32::MIN <= v <= i32::MAX
    }

    proof fn lemma_as_int_injective(a: Self, b: Self) {
    }

    proof fn lemma_in_range(a: Self) {
    }

    fn plus(self, other: Self) -> (r: Self) {
        self + other
    }

    fn minus(self, other: Self) -> (r: Self) {
        self - other
    }

    fn times(self, other: Self) -> (r: Self) {
        self * other
    }

    fn zero_value() -> (r: Self) {
        0
    }
}

impl Sealed for i64 {}

impl IntegerEntry for i64 {
    open spec fn as_int(self) -> int {
        self as int
    }

    open spec fn fits(v: int) -> bool {
        i64::MIN <= v <= i64::MAX
    }

    proof fn lemma_as_int_injective(a: Self, b: Self) {
    }

    proof fn lemma_in_range(a: Self) {
    }

    fn plus(self, other: Self) -> (r: Self) {
        self + other
    }

    fn minus(self, other: Self) -> (r: Self) {
        self - other
    }

    fn times(self, other: Self) -> (r: Self) {
        self * other
    }

    fn zero_value() -> (r: Self) {
        0
    }
}

impl Sealed for i128 {}

impl IntegerEntry for i128 {
    open spec fn as_int(self) -> int {
        self as int
    }

    open spec fn fits(v: int) -> bool {
        i128::MIN <= v <= i128::MAX
    }

    proof fn lemma_as_int_injective(a: Self, b: Self) {
    }

    proof fn lemma_in_range(a: Self) {
    }

    fn plus(self, other: Self) -> (r: Self) {
        self + other
    }

    fn minus(self, other: Self) -> (r: Self) {
        self - other
    }

    fn times(self, other: Self) -> (r: Self) {
        self * other
    }

    fn zero_value() -> (r: Self) {
        0
    }
}

impl Sealed for isize {}

impl IntegerEntry for isize {
    open spec fn as_int(self) -> int {
        self as int
    }

    open spec fn fits(v: int) -> bool {
        isize::MIN <= v <= isize::MAX
    }

    proof fn lemma_as_int_injective(a: Self, b: Self) {
    }

    proof fn lemma_in_range(a: Self) {
    }

    fn plus(self, other: Self) -> (r: Self) {
        self + other
    }

    fn minus(self, other: Self) -> (r: Self) {
        self - other
    }

    fn times(self, other: Self) -> (r: Self) {
        self * other
    }

    fn zero_value() -> (r: Self) {
        0
    }
}

impl Sealed for u8 {}

impl IntegerEntry for u8 {
    open spec fn as_int(self) -> int {
        self as int
    }

    open spec fn fits(v: int) -> bool {
        u8::MIN <= v <= u8::MAX
    }

    proof fn lemma_as_int_injective(a: Self, b: Self) {
    }

    proof fn lemma_in_range(a: Self) {
    }

    fn plus(self, other: Self) -> (r: Self) {
        self + other
    }

    fn minus(self, other: Self) -> (r: Self) {
        self - other
    }

    fn times(self, other: Self) -> (r: Self) {
        self * other
    }

    fn zero_value() -> (r: Self) {
        0
    }
}

impl Sealed for u16 {}

impl IntegerEntry for u16 {
    open spec fn as_int(self) -> int {
        self as int
    }

    open spec fn fits(v: int) -> bool {
        u16::MIN <= v <= u16::MAX
    }

    proof fn lemma_as_int_injective(a: Self, b: Self) {
    }

    proof fn lemma_in_range(a: Self) {
    }

    fn plus(self, other: Self) -> (r: Self) {
        self + other
    }

    fn minus(self, other: Self) -> (r: Self) {
        self - other
    }

    fn times(self, other: Self) -> (r: Self) {
        self * other
    }

    fn zero_value() -> (r: Self) {
        0
    }
}

impl Sealed for u32 {}

impl IntegerEntry for u32 {
    open spec fn as_int(self) -> int {
        self as int
    }

    open spec fn fits(v: int) -> bool {
        u32::MIN <= v <= u32::MAX
    }

    proof fn lemma_as_int_injective(a: Self, b: Self) {
    }

    proof fn lemma_in_range(a: Self) {
    }

    fn plus(self, other: Self) -> (r: Self) {
        self + other
    }

    fn minus(self, other: Self) -> (r: Self) {
        self - other
    }

    fn times(self, other: Self) -> (r: Self) {
        self * other
    }

    fn zero_value() -> (r: Self) {
        0
    }
}

impl Sealed for u64 {}

impl IntegerEntry for u64 {
    open spec fn as_int(self) -> int {
        self as int
    }

    open spec fn fits(v: int) -> bool {
        u64::MIN <= v <= u64::MAX
    }

    proof fn lemma_as_int_injective(a: Self, b: Self) {
    }

    proof fn lemma_in_range(a: Self) {
    }

    fn plus(self, other: Self) -> (r: Self) {
        self + other
    }

    fn minus(self, other: Self) -> (r: Self) {
        self - other
    }

    fn times(self, other: Self) -> (r: Self) {
        self * other
    }

    fn zero_value() -> (r: Self) {
        0
    }
}

impl Sealed for u128 {}

impl IntegerEntry for u128 {
    open spec fn as_int(self) -> int {
        self as int
    }

    open spec fn fits(v: int) -> bool {
        u128::MIN <= v <= u128::MAX
    }

    proof fn lemma_as_int_injective(a: Self, b: Self) {
    }

    proof fn lemma_in_range(a: Self) {
    }

    fn plus(self, other: Self) -> (r: Self) {
        self + other
    }

    fn minus(self, other: Self) -> (r: Self) {
        self - other
    }

    fn times(self, other: Self) -> (r: Self) {
        self * other
    }

    fn zero_value() -> (r: Self) {
        0
    }
}

impl Sealed for usize {}

impl IntegerEntry for usize {
    open spec fn as_int(self) -> int {
        self as int
    }

    open spec fn fits(v: int) -> bool {
        usize::MIN <= v <= usize::MAX
    }

    proof fn lemma_as_int_injective(a: Self, b: Self) {
    }

    proof fn lemma_in_range(a: Self) {
    }

    fn plus(self, other: Self) -> (r: Self) {
        self + other
    }

    fn minus(self, other: Self) -> (r: Self) {
        self - other
    }

    fn times(self, other: Self) -> (r: Self) {
        self * other
    }

    fn zero_value() -> (r: Self) {
        0
    }
}

} // verus!
