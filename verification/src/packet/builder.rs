//! The builder of packets.

use crate::formats::WriteFormat;
use crate::object::ObjectRef;
use crate::packet::writer::Writer;
use crate::packet::{BuilderView, Packet, PacketBuilder, PacketView};
use crate::transaction::TransactionFlags;
use vstd::prelude::*;

verus! {

impl PacketBuilder {
    /// Whether the table of offsets names well-formed references.
    pub open spec fn wf(&self) -> bool {
        self@.wf()
    }

    /// A builder with nothing gathered.
    pub fn new() -> (builder: PacketBuilder)
        ensures
            builder@ == BuilderView::empty(),
            builder.wf(),
    {
        PacketBuilder {
            code: None,
            flags: None,
            target: None,
            data_buffer: Vec::new(),
            offsets_buffer: Vec::new(),
        }
    }

    /// Sets the flags of the packet to be.
    pub fn set_flags(&mut self, flags: TransactionFlags) -> (r: &mut Self)
        ensures
            r@ == (BuilderView { flags: Some(flags), ..old(self)@ }),
            *final(self) == *final(r),
    {
        self.flags = Some(flags);
        self
    }

    /// Names the object that the packet to be is for.
    pub fn set_target(&mut self, target: ObjectRef) -> (r: &mut Self)
        ensures
            r@ == (BuilderView { target: Some(target), ..old(self)@ }),
            *final(self) == *final(r),
    {
        self.target = Some(target);
        self
    }

    /// Sets the code of the packet to be.
    pub fn set_code(&mut self, code: u32) -> (r: &mut Self)
        ensures
            r@ == (BuilderView { code: Some(code), ..old(self)@ }),
            *final(self) == *final(r),
    {
        self.code = Some(code);
        self
    }

    /// Whether a code and a target were given, so that a packet can be
    /// built.
    pub fn is_complete(&self) -> (yes: bool)
        ensures
            yes == (self@.code is Some && self@.target is Some),
    {
        self.code.is_some() && self.target.is_some()
    }

    /// Forgets all that was gathered.
    pub fn clear(&mut self)
        ensures
            final(self)@ == BuilderView::empty(),
            final(self).wf(),
    {
        self.code = None;
        self.flags = None;
        self.target = None;
        self.data_buffer = Vec::new();
        self.offsets_buffer = Vec::new();
    }

    /// The packet of what was gathered; the builder is left with nothing.
    /// A code and a target must have been given; flags that were not given
    /// are none.
    pub fn build(&mut self) -> (packet: Packet)
        requires
            old(self).wf(),
            old(self)@.code is Some,
            old(self)@.target is Some,
        ensures
            packet.wf(),
            packet@ == (PacketView {
                code: old(self)@.code.unwrap(),
                flags: match old(self)@.flags {
                    Some(flags) => flags,
                    None => TransactionFlags::spec_empty(),
                },
                target: old(self)@.target.unwrap(),
                data: old(self)@.data,
                offsets: old(self)@.offsets,
            }),
            final(self)@ == BuilderView::empty(),
            final(self).wf(),
    {
        let mut data: Vec<u8> = Vec::new();
        let mut offsets: Vec<usize> = Vec::new();
        core::mem::swap(&mut data, &mut self.data_buffer);
        core::mem::swap(&mut offsets, &mut self.offsets_buffer);
        let code = self.code.unwrap();
        let target = self.target.unwrap();
        let flags = match self.flags {
            Some(flags) => flags,
            None => TransactionFlags::empty(),
        };
        self.code = None;
        self.flags = None;
        self.target = None;
        Packet { code, flags, target, data, offsets }
    }

    /// A writer that adds to the data of the builder in the given format.
    pub fn writer<'packet, F: WriteFormat>(&'packet mut self, format: F) -> (writer: Writer<
        'packet,
        F,
    >)
        requires
            old(self).wf(),
            format.wf(),
        ensures
            writer.wf(),
            writer.format == format,
            writer@ == old(self)@,
            *final(self) == *final(writer.result),
    {
        Writer { format, result: self }
    }
}

} // verus!
