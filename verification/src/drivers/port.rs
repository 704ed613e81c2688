//! Handles for x86 I/O ports.
//!
//! A handle only records which port it names and the width of the values
//! that go through it; the `in`/`out` instructions themselves are issued
//! by the kernel binary, which owns the hardware.
use core::marker::PhantomData;
use vstd::prelude::*;

verus! {

/// The widths of value that an I/O port transfers: 8, 16 or 32 bits.
pub trait PortValue: Copy {

}

impl PortValue for u8 {

}

impl PortValue for u16 {

}

impl PortValue for u32 {

}

/// A port that is only read.
pub struct PortRead<T: PortValue> {
    port: u16,
    _phantom: PhantomData<T>,
}

/// A port that is only written.
pub struct PortWrite<T: PortValue> {
    port: u16,
    _phantom: PhantomData<T>,
}

/// A port that is read and written.
pub struct Port<T: PortValue> {
    port: u16,
    _phantom: PhantomData<T>,
}

impl<T: PortValue> PortRead<T> {
    /// The port number of this handle.
    pub closed spec fn number(&self) -> u16 {
        self.port
    }

    pub fn new(port: u16) -> (r: Self)
        ensures
            r.number() == port,
    {
        PortRead { port, _phantom: PhantomData }
    }

    pub fn port(&self) -> (r: u16)
        ensures
            r == self.number(),
    {
        self.port
    }
}

impl<T: PortValue> PortWrite<T> {
    /// The port number of this handle.
    pub closed spec fn number(&self) -> u16 {
        self.port
    }

    pub fn new(port: u16) -> (r: Self)
        ensures
            r.number() == port,
    {
        PortWrite { port, _phantom: PhantomData }
    }

    pub fn port(&self) -> (r: u16)
        ensures
            r == self.number(),
    {
        self.port
    }
}

impl<T: PortValue> Port<T> {
    /// The port number of this handle.
    pub closed spec fn number(&self) -> u16 {
        self.port
    }

    pub fn new(port: u16) -> (r: Self)
        ensures
            r.number() == port,
    {
        Port { port, _phantom: PhantomData }
    }

    pub fn port(&self) -> (r: u16)
        ensures
            r == self.number(),
    {
        self.port
    }
}

} // verus!
