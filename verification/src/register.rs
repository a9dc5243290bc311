//! The registration message: a fixed 38-byte device identity header encoded
//! verbatim, followed by the service table's own encoding.

use vstd::prelude::*;

use crate::wire::push_bytes;

verus! {

/// The fixed identity header: device UUID, MAC, and password, all opaque
/// byte blocks carried with no byte-order transformation.
pub struct RegisterMessageHeader {
    pub uuid: [u8; 16],
    pub mac: [u8; 6],
    pub passwd: [u8; 16],
}

impl RegisterMessageHeader {
    /// The 38 header bytes, verbatim.
    pub open spec fn header_bytes(&self) -> Seq<u8> {
        self.uuid@ + self.mac@ + self.passwd@
    }

    pub fn new(uuid: [u8; 16], mac: [u8; 6], passwd: [u8; 16]) -> (r: RegisterMessageHeader)
        ensures
            r.uuid == uuid,
            r.mac == mac,
            r.passwd == passwd,
    {
        RegisterMessageHeader { uuid, mac, passwd }
    }

    /// Encode the header, appending to `buf`.
    pub fn encode(&self, buf: &mut Vec<u8>)
        ensures
            final(buf)@ == old(buf)@ + self.header_bytes(),
    {
        push_bytes(buf, &self.uuid);
        push_bytes(buf, &self.mac);
        push_bytes(buf, &self.passwd);
        proof {
            assert(buf@ =~= old(buf)@ + self.header_bytes());
        }
    }
}

/// The registration message body: the identity header followed by the
/// service table, which this core carries as the opaque bytes of its own
/// encoding.
pub struct RegisterMessage {
    pub header: RegisterMessageHeader,
    pub svc_table: Vec<u8>,
}

impl RegisterMessage {
    /// The message body's wire form.
    pub open spec fn message_bytes(&self) -> Seq<u8> {
        self.header.header_bytes() + self.svc_table@
    }

    pub fn new(header: RegisterMessageHeader, svc_table: Vec<u8>) -> (r: RegisterMessage)
        ensures
            r.header == header,
            r.svc_table@ == svc_table@,
    {
        RegisterMessage { header, svc_table }
    }

    /// Encode the message body, appending to `buf`.
    pub fn encode(&self, buf: &mut Vec<u8>)
        ensures
            final(buf)@ == old(buf)@ + self.message_bytes(),
    {
        self.header.encode(buf);
        let mut i: usize = 0;
        while i < self.svc_table.len()
            invariant
                i <= self.svc_table@.len(),
                buf@ == old(buf)@ + self.header.header_bytes() + self.svc_table@.take(i as int),
            decreases self.svc_table@.len() - i,
        {
            let b = self.svc_table[i];
            buf.push(b);
            i = i + 1;
            proof {
                assert(buf@ =~= old(buf)@ + self.header.header_bytes() + self.svc_table@.take(
                    i as int,
                ));
            }
        }
        proof {
            assert(self.svc_table@.take(self.svc_table@.len() as int) =~= self.svc_table@);
            assert(buf@ =~= old(buf)@ + self.message_bytes());
        }
    }

    /// The exact encoded byte length: the 38 fixed bytes plus the table's.
    pub fn len(&self) -> (r: usize)
        requires
            38 + self.svc_table@.len() <= usize::MAX,
        ensures
            r == 38 + self.svc_table@.len(),
            r == self.message_bytes().len(),
    {
        38 + self.svc_table.len()
    }
}

} // verus!
