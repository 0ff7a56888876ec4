//! Marker traits that say which types may cross a domain boundary: the
//! compiler requires them of the parameter types of interface methods.
//! Floating-point types get no impls in this library, which holds no floats.

use vstd::prelude::*;

verus! {

/// A trait object that can be handed to another domain by reference.
pub trait Proxy {}

/// A type a method of an interface may take or return.
pub trait Exchangeable {}

/// A type a field of an exchanged struct may have.
pub trait MemberExchangeable {}

/// A type an `RRef` may hold.
pub trait RRefable {}

/// A type an element of an `RRef`ed array may have (not `Option<RRef<_>>`).
pub trait ElementRRefable {}

/// A type a field of an `RRef`ed struct may have (`Option<RRef<_>>` too).
pub trait FieldRRefable {}

impl<T: Proxy + ?Sized> Exchangeable for &T {}
impl<T: Proxy + ?Sized> Exchangeable for &mut T {}
impl<T: Proxy + ?Sized> RRefable for &T {}
impl<T: Proxy + ?Sized> RRefable for &mut T {}

impl Exchangeable for i8 {}
impl Exchangeable for i16 {}
impl Exchangeable for i32 {}
impl Exchangeable for i64 {}
impl Exchangeable for i128 {}
impl Exchangeable for isize {}
impl Exchangeable for u8 {}
impl Exchangeable for u16 {}
impl Exchangeable for u32 {}
impl Exchangeable for u64 {}
impl Exchangeable for u128 {}
impl Exchangeable for usize {}
impl Exchangeable for char {}
impl Exchangeable for bool {}

impl MemberExchangeable for i8 {}
impl MemberExchangeable for i16 {}
impl MemberExchangeable for i32 {}
impl MemberExchangeable for i64 {}
impl MemberExchangeable for i128 {}
impl MemberExchangeable for isize {}
impl MemberExchangeable for u8 {}
impl MemberExchangeable for u16 {}
impl MemberExchangeable for u32 {}
impl MemberExchangeable for u64 {}
impl MemberExchangeable for u128 {}
impl MemberExchangeable for usize {}
impl MemberExchangeable for char {}
impl MemberExchangeable for bool {}

impl RRefable for i8 {}
impl RRefable for i16 {}
impl RRefable for i32 {}
impl RRefable for i64 {}
impl RRefable for i128 {}
impl RRefable for isize {}
impl RRefable for u8 {}
impl RRefable for u16 {}
impl RRefable for u32 {}
impl RRefable for u64 {}
impl RRefable for u128 {}
impl RRefable for usize {}
impl RRefable for char {}
impl RRefable for bool {}

impl<T: Exchangeable, const N: usize> Exchangeable for [T; N] {}
impl<T: Exchangeable> Exchangeable for [T] {}
impl<T: Exchangeable, const N: usize> MemberExchangeable for [T; N] {}
impl<T: Exchangeable> MemberExchangeable for [T] {}
impl<T: RRefable, const N: usize> RRefable for [T; N] {}
impl<T: RRefable> RRefable for [T] {}

impl<A: Exchangeable, B: Exchangeable> Exchangeable for (A, B) {}
impl<A: Exchangeable, B: Exchangeable, C: Exchangeable> Exchangeable for (A, B, C) {}
impl<A: Exchangeable, B: Exchangeable, C: Exchangeable, D: Exchangeable> Exchangeable for (A, B, C, D) {}
impl<A: Exchangeable, B: Exchangeable, C: Exchangeable, D: Exchangeable, E: Exchangeable> Exchangeable for (A, B, C, D, E) {}
impl<A: Exchangeable, B: Exchangeable, C: Exchangeable, D: Exchangeable, E: Exchangeable, F: Exchangeable> Exchangeable for (A, B, C, D, E, F) {}
impl<A: Exchangeable, B: Exchangeable, C: Exchangeable, D: Exchangeable, E: Exchangeable, F: Exchangeable, G: Exchangeable> Exchangeable for (A, B, C, D, E, F, G) {}
impl<A: Exchangeable, B: Exchangeable, C: Exchangeable, D: Exchangeable, E: Exchangeable, F: Exchangeable, G: Exchangeable, H: Exchangeable> Exchangeable for (A, B, C, D, E, F, G, H) {}
impl<A: Exchangeable, B: Exchangeable, C: Exchangeable, D: Exchangeable, E: Exchangeable, F: Exchangeable, G: Exchangeable, H: Exchangeable, I: Exchangeable> Exchangeable for (A, B, C, D, E, F, G, H, I) {}
impl<A: Exchangeable, B: Exchangeable, C: Exchangeable, D: Exchangeable, E: Exchangeable, F: Exchangeable, G: Exchangeable, H: Exchangeable, I: Exchangeable, J: Exchangeable> Exchangeable for (A, B, C, D, E, F, G, H, I, J) {}
impl<A: Exchangeable, B: Exchangeable, C: Exchangeable, D: Exchangeable, E: Exchangeable, F: Exchangeable, G: Exchangeable, H: Exchangeable, I: Exchangeable, J: Exchangeable, K: Exchangeable> Exchangeable for (A, B, C, D, E, F, G, H, I, J, K) {}
impl<A: Exchangeable, B: Exchangeable, C: Exchangeable, D: Exchangeable, E: Exchangeable, F: Exchangeable, G: Exchangeable, H: Exchangeable, I: Exchangeable, J: Exchangeable, K: Exchangeable, L: Exchangeable> Exchangeable for (A, B, C, D, E, F, G, H, I, J, K, L) {}
impl<A: Exchangeable, B: Exchangeable, C: Exchangeable, D: Exchangeable, E: Exchangeable, F: Exchangeable, G: Exchangeable, H: Exchangeable, I: Exchangeable, J: Exchangeable, K: Exchangeable, L: Exchangeable, M: Exchangeable> Exchangeable for (A, B, C, D, E, F, G, H, I, J, K, L, M) {}

impl<A: MemberExchangeable, B: MemberExchangeable> MemberExchangeable for (A, B) {}
impl<A: MemberExchangeable, B: MemberExchangeable, C: MemberExchangeable> MemberExchangeable for (A, B, C) {}
impl<A: MemberExchangeable, B: MemberExchangeable, C: MemberExchangeable, D: MemberExchangeable> MemberExchangeable for (A, B, C, D) {}
impl<A: MemberExchangeable, B: MemberExchangeable, C: MemberExchangeable, D: MemberExchangeable, E: MemberExchangeable> MemberExchangeable for (A, B, C, D, E) {}
impl<A: MemberExchangeable, B: MemberExchangeable, C: MemberExchangeable, D: MemberExchangeable, E: MemberExchangeable, F: MemberExchangeable> MemberExchangeable for (A, B, C, D, E, F) {}
impl<A: MemberExchangeable, B: MemberExchangeable, C: MemberExchangeable, D: MemberExchangeable, E: MemberExchangeable, F: MemberExchangeable, G: MemberExchangeable> MemberExchangeable for (A, B, C, D, E, F, G) {}
impl<A: MemberExchangeable, B: MemberExchangeable, C: MemberExchangeable, D: MemberExchangeable, E: MemberExchangeable, F: MemberExchangeable, G: MemberExchangeable, H: MemberExchangeable> MemberExchangeable for (A, B, C, D, E, F, G, H) {}
impl<A: MemberExchangeable, B: MemberExchangeable, C: MemberExchangeable, D: MemberExchangeable, E: MemberExchangeable, F: MemberExchangeable, G: MemberExchangeable, H: MemberExchangeable, I: MemberExchangeable> MemberExchangeable for (A, B, C, D, E, F, G, H, I) {}
impl<A: MemberExchangeable, B: MemberExchangeable, C: MemberExchangeable, D: MemberExchangeable, E: MemberExchangeable, F: MemberExchangeable, G: MemberExchangeable, H: MemberExchangeable, I: MemberExchangeable, J: MemberExchangeable> MemberExchangeable for (A, B, C, D, E, F, G, H, I, J) {}
impl<A: MemberExchangeable, B: MemberExchangeable, C: MemberExchangeable, D: MemberExchangeable, E: MemberExchangeable, F: MemberExchangeable, G: MemberExchangeable, H: MemberExchangeable, I: MemberExchangeable, J: MemberExchangeable, K: MemberExchangeable> MemberExchangeable for (A, B, C, D, E, F, G, H, I, J, K) {}
impl<A: MemberExchangeable, B: MemberExchangeable, C: MemberExchangeable, D: MemberExchangeable, E: MemberExchangeable, F: MemberExchangeable, G: MemberExchangeable, H: MemberExchangeable, I: MemberExchangeable, J: MemberExchangeable, K: MemberExchangeable, L: MemberExchangeable> MemberExchangeable for (A, B, C, D, E, F, G, H, I, J, K, L) {}
impl<A: MemberExchangeable, B: MemberExchangeable, C: MemberExchangeable, D: MemberExchangeable, E: MemberExchangeable, F: MemberExchangeable, G: MemberExchangeable, H: MemberExchangeable, I: MemberExchangeable, J: MemberExchangeable, K: MemberExchangeable, L: MemberExchangeable, M: MemberExchangeable> MemberExchangeable for (A, B, C, D, E, F, G, H, I, J, K, L, M) {}

impl<A: RRefable, B: RRefable> RRefable for (A, B) {}
impl<A: RRefable, B: RRefable, C: RRefable> RRefable for (A, B, C) {}
impl<A: RRefable, B: RRefable, C: RRefable, D: RRefable> RRefable for (A, B, C, D) {}
impl<A: RRefable, B: RRefable, C: RRefable, D: RRefable, E: RRefable> RRefable for (A, B, C, D, E) {}
impl<A: RRefable, B: RRefable, C: RRefable, D: RRefable, E: RRefable, F: RRefable> RRefable for (A, B, C, D, E, F) {}
impl<A: RRefable, B: RRefable, C: RRefable, D: RRefable, E: RRefable, F: RRefable, G: RRefable> RRefable for (A, B, C, D, E, F, G) {}
impl<A: RRefable, B: RRefable, C: RRefable, D: RRefable, E: RRefable, F: RRefable, G: RRefable, H: RRefable> RRefable for (A, B, C, D, E, F, G, H) {}
impl<A: RRefable, B: RRefable, C: RRefable, D: RRefable, E: RRefable, F: RRefable, G: RRefable, H: RRefable, I: RRefable> RRefable for (A, B, C, D, E, F, G, H, I) {}
impl<A: RRefable, B: RRefable, C: RRefable, D: RRefable, E: RRefable, F: RRefable, G: RRefable, H: RRefable, I: RRefable, J: RRefable> RRefable for (A, B, C, D, E, F, G, H, I, J) {}
impl<A: RRefable, B: RRefable, C: RRefable, D: RRefable, E: RRefable, F: RRefable, G: RRefable, H: RRefable, I: RRefable, J: RRefable, K: RRefable> RRefable for (A, B, C, D, E, F, G, H, I, J, K) {}
impl<A: RRefable, B: RRefable, C: RRefable, D: RRefable, E: RRefable, F: RRefable, G: RRefable, H: RRefable, I: RRefable, J: RRefable, K: RRefable, L: RRefable> RRefable for (A, B, C, D, E, F, G, H, I, J, K, L) {}
impl<A: RRefable, B: RRefable, C: RRefable, D: RRefable, E: RRefable, F: RRefable, G: RRefable, H: RRefable, I: RRefable, J: RRefable, K: RRefable, L: RRefable, M: RRefable> RRefable for (A, B, C, D, E, F, G, H, I, J, K, L, M) {}

trait Device {}

impl Proxy for dyn Device {}

struct _Foo {}

impl Device for _Foo {}

/// Accepts any exchangeable value.
pub fn _test_val<T: Exchangeable>(_v: T) {
}

/// Compiles only for exchangeable types.
pub fn _check_type<T: Exchangeable + ?Sized>() {
}

/// Compiles only for proxies: the trait object of an interface.
pub fn test_proxy<T: Proxy + ?Sized>() {
}

/// The reference it is given.
pub fn _unwrap<'a, T: ?Sized>(item: &'a T) -> (r: &'a T)
    ensures
        r == item,
{
    item
}

} // verus!
