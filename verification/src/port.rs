//! Typed handles on I/O ports.

use vstd::prelude::*;
use std::marker::PhantomData;
use vstd::std_specs::cmp::PartialEqSpecImpl;
use crate::hardware::{Access, Hardware};

verus! {

/// A value that an I/O port can be read as.
pub trait PortRead: Sized {
    /// The access that reading `value` from `port` is.
    spec fn read_access(port: u16, value: Self) -> Access;

    /// Reads `port` once, at the width of `Self`.
    fn read_from_port<H: Hardware>(hw: &mut H, port: u16) -> (value: Self)
        requires
            old(hw).state().ports.contains(port),
        ensures
            final(hw).state() == old(hw).state().record(Self::read_access(port, value)),
    ;
}

/// A value that can be written to an I/O port.
pub trait PortWrite: Sized {
    /// The access that writing `value` to `port` is.
    spec fn write_access(port: u16, value: Self) -> Access;

    /// Writes `value` to `port` once, at the width of `Self`.
    fn write_to_port<H: Hardware>(hw: &mut H, port: u16, value: Self)
        requires
            old(hw).state().ports.contains(port),
        ensures
            final(hw).state() == old(hw).state().record(Self::write_access(port, value)),
    ;
}

impl PortRead for u8 {
    open spec fn read_access(port: u16, value: u8) -> Access {
        Access::In8 { port, value }
    }

    fn read_from_port<H: Hardware>(hw: &mut H, port: u16) -> (value: u8) {
        hw.in8(port)
    }
}

impl PortWrite for u8 {
    open spec fn write_access(port: u16, value: u8) -> Access {
        Access::Out8 { port, value }
    }

    fn write_to_port<H: Hardware>(hw: &mut H, port: u16, value: u8) {
        hw.out8(port, value)
    }
}

impl PortRead for u16 {
    open spec fn read_access(port: u16, value: u16) -> Access {
        Access::In16 { port, value }
    }

    fn read_from_port<H: Hardware>(hw: &mut H, port: u16) -> (value: u16) {
        hw.in16(port)
    }
}

impl PortWrite for u16 {
    open spec fn write_access(port: u16, value: u16) -> Access {
        Access::Out16 { port, value }
    }

    fn write_to_port<H: Hardware>(hw: &mut H, port: u16, value: u16) {
        hw.out16(port, value)
    }
}

impl PortRead for u32 {
    open spec fn read_access(port: u16, value: u32) -> Access {
        Access::In32 { port, value }
    }

    fn read_from_port<H: Hardware>(hw: &mut H, port: u16) -> (value: u32) {
        hw.in32(port)
    }
}

impl PortWrite for u32 {
    open spec fn write_access(port: u16, value: u32) -> Access {
        Access::Out32 { port, value }
    }

    fn write_to_port<H: Hardware>(hw: &mut H, port: u16, value: u32) {
        hw.out32(port, value)
    }
}

/// A handle on the I/O port at one address, read and written as `T`. It is a
/// plain value: it owns nothing, and two handles are equal when their
/// addresses are.
#[derive(Debug)]
pub struct Port<T> {
    port: u16,
    phantom: PhantomData<T>,
}

impl<T> Clone for Port<T> {
    fn clone(&self) -> (copy: Self)
        ensures
            copy == *self,
    {
        Port { port: self.port, phantom: PhantomData }
    }
}

impl<T> PartialEq for Port<T> {
    fn eq(&self, other: &Self) -> (equal: bool) {
        self.port == other.port
    }
}

impl<T> Eq for Port<T> {

}

impl<T> PartialEqSpecImpl for Port<T> {
    open spec fn obeys_eq_spec() -> bool {
        true
    }

    open spec fn eq_spec(&self, other: &Self) -> bool {
        self.address() == other.address()
    }
}

impl<T> Port<T> {
    /// The address of the port.
    pub closed spec fn spec_address(&self) -> u16 {
        self.port
    }

    /// A handle on the port at address `port`.
    pub fn new(port: u16) -> (p: Port<T>)
        ensures
            p.address() == port,
    {
        Port { port, phantom: PhantomData }
    }

    /// The address of the port.
    #[verifier::when_used_as_spec(spec_address)]
    pub fn address(&self) -> (port: u16)
        ensures
            port == self.spec_address(),
    {
        self.port
    }
}

impl<T: PortRead> Port<T> {
    /// Reads the port once, at the width of `T`.
    pub fn read<H: Hardware>(&mut self, hw: &mut H) -> (value: T)
        requires
            old(hw).state().ports.contains(old(self).address()),
        ensures
            *final(self) == *old(self),
            final(hw).state() == old(hw).state().record(T::read_access(old(self).address(), value)),
    {
        T::read_from_port(hw, self.port)
    }
}

impl<T: PortWrite> Port<T> {
    /// Writes `value` to the port once, at the width of `T`.
    pub fn write<H: Hardware>(&mut self, hw: &mut H, value: T)
        requires
            old(hw).state().ports.contains(old(self).address()),
        ensures
            *final(self) == *old(self),
            final(hw).state() == old(hw).state().record(T::write_access(old(self).address(), value)),
    {
        T::write_to_port(hw, self.port, value)
    }
}

} // verus!
