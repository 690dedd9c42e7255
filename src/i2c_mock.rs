//! An in-memory register map that stands in for an I2C device: a write's
//! first byte selects a register and the following bytes fill the registers
//! from there on; a read returns the registers from the selected one on.
use vstd::prelude::*;

verus! {

/// Number of registers in the map.
pub const REGISTER_COUNT: usize = 0xFF;

/// An access beyond the last register, or a write with no register byte.
#[derive(Clone, Copy, Debug, PartialEq, Eq, Structural)]
pub struct MockI2CDeviceError;

/// `regs` with the registers from `offset` on replaced by `data`.
pub open spec fn with_regs(regs: Seq<u8>, offset: int, data: Seq<u8>) -> Seq<u8> {
    Seq::new(
        regs.len(),
        |i: int|
            if offset <= i < offset + data.len() {
                data[i - offset]
            } else {
                regs[i]
            },
    )
}

/// The registers and the register that the next read starts at.
pub struct I2CRegisterMap {
    registers: Vec<u8>,
    offset: usize,
}

impl I2CRegisterMap {
    /// The register values.
    pub closed spec fn registers(&self) -> Seq<u8> {
        self.registers@
    }

    /// The register that the next read starts at.
    pub closed spec fn offset(&self) -> int {
        self.offset as int
    }

    /// There are `REGISTER_COUNT` registers and the read position lies
    /// within them or just past the last.
    pub open spec fn wf(&self) -> bool {
        self.registers().len() == REGISTER_COUNT && 0 <= self.offset() <= REGISTER_COUNT
    }

    /// A map with every register 0, reading from register 0.
    pub fn new() -> (r: I2CRegisterMap)
        ensures
            r.wf(),
            r.registers() == Seq::new(REGISTER_COUNT as nat, |i: int| 0u8),
            r.offset() == 0,
    {
        let r = I2CRegisterMap { registers: vec![0u8; REGISTER_COUNT], offset: 0 };
        assert(r.registers() =~= Seq::new(REGISTER_COUNT as nat, |i: int| 0u8));
        r
    }

    /// Writes `data` to the registers from `offset` on. The read position
    /// does not move.
    pub fn write_regs(&mut self, offset: usize, data: &[u8]) -> (r: Result<(), MockI2CDeviceError>)
        requires
            old(self).wf(),
        ensures
            final(self).wf(),
            r is Err <==> offset + data@.len() > REGISTER_COUNT,
            r is Err ==> final(self).registers() == old(self).registers(),
            r is Ok ==> final(self).registers() == with_regs(
                old(self).registers(),
                offset as int,
                data@,
            ),
            final(self).offset() == old(self).offset(),
    {
        if data.len() > REGISTER_COUNT || offset > REGISTER_COUNT - data.len() {
            return Err(MockI2CDeviceError);
        }
        let mut i: usize = 0;
        while i < data.len()
            invariant
                offset + data@.len() <= REGISTER_COUNT,
                i <= data@.len(),
                self.registers@.len() == REGISTER_COUNT,
                self.offset == old(self).offset,
                forall|j: int|
                    0 <= j < REGISTER_COUNT ==> #[trigger] self.registers@[j] == if offset <= j
                        < offset + i {
                        data@[j - offset]
                    } else {
                        old(self).registers@[j]
                    },
            decreases data@.len() - i,
        {
            self.registers.set(offset + i, data[i]);
            i = i + 1;
        }
        assert(self.registers() =~= with_regs(old(self).registers(), offset as int, data@));
        Ok(())
    }

    /// Fills `data` with the registers from the read position on, and moves
    /// the read position past them.
    pub fn read(&mut self, data: &mut [u8]) -> (r: Result<(), MockI2CDeviceError>)
        requires
            old(self).wf(),
        ensures
            final(self).wf(),
            final(self).registers() == old(self).registers(),
            final(data)@.len() == old(data)@.len(),
            r is Err <==> old(self).offset() + old(data)@.len() > REGISTER_COUNT,
            r is Err ==> final(self).offset() == old(self).offset() && final(data)@ == old(data)@,
            r is Ok ==> final(data)@ == old(self).registers().subrange(
                old(self).offset(),
                old(self).offset() + old(data)@.len(),
            ) && final(self).offset() == old(self).offset() + old(data)@.len(),
    {
        let len = data.len();
        if len > REGISTER_COUNT - self.offset {
            return Err(MockI2CDeviceError);
        }
        let start = self.offset;
        let mut i: usize = 0;
        while i < len
            invariant
                len == old(data)@.len(),
                data@.len() == len,
                start == old(self).offset,
                start + len <= REGISTER_COUNT,
                i <= len,
                self.offset == start + i,
                self.registers@ == old(self).registers@,
                self.registers@.len() == REGISTER_COUNT,
                forall|j: int| 0 <= j < i ==> #[trigger] data@[j] == self.registers@[start + j],
                forall|j: int| i <= j < len ==> #[trigger] data@[j] == old(data)@[j],
            decreases len - i,
        {
            let v = self.registers[self.offset];
            data[i] = v;
            self.offset = self.offset + 1;
            i = i + 1;
        }
        assert(data@ =~= old(self).registers().subrange(start as int, start + len));
        Ok(())
    }

    /// Writes `data`: its first byte selects the register, the rest fill
    /// the registers from there on, and the read position moves past them.
    pub fn write(&mut self, data: &[u8]) -> (r: Result<(), MockI2CDeviceError>)
        requires
            old(self).wf(),
        ensures
            final(self).wf(),
            r is Err <==> data@.len() == 0 || data@[0] + data@.len() - 1 > REGISTER_COUNT,
            r is Err ==> final(self).registers() == old(self).registers() && final(self).offset()
                == old(self).offset(),
            r is Ok ==> final(self).registers() == with_regs(
                old(self).registers(),
                data@[0] as int,
                data@.subrange(1, data@.len() as int),
            ) && final(self).offset() == data@[0] + data@.len() - 1,
    {
        if data.len() == 0 {
            return Err(MockI2CDeviceError);
        }
        let offset = data[0] as usize;
        let rest = vstd::slice::slice_subrange(data, 1, data.len());
        match self.write_regs(offset, rest) {
            Ok(()) => {},
            Err(e) => {
                return Err(e);
            },
        }
        self.offset = offset + rest.len();
        Ok(())
    }
}

} // verus!
