use vstd::prelude::*;

verus! {

/// A half-open range of byte positions in the process image.
#[derive(Debug, Clone, Copy, PartialEq, Eq, Structural)]
pub struct ByteRange {
    pub start: usize,
    pub end: usize,
}

/// One registered PDO entry: its length in bits and its byte offset in the image.
#[derive(Debug, Clone, Copy, PartialEq, Eq, Structural)]
pub struct PdoEntry {
    pub bit_len: u8,
    pub byte_offset: usize,
}

/// The byte range of an entry: whole bytes from its offset.
pub open spec fn entry_range(e: PdoEntry) -> ByteRange {
    ByteRange { start: e.byte_offset, end: (e.byte_offset + e.bit_len / 8) as usize }
}

/// An entry whose byte range can be computed without overflow.
pub open spec fn entry_fits(e: PdoEntry) -> bool {
    e.byte_offset + 32 <= usize::MAX
}

/// All replicas of one register name on a slave, in registration order.
#[derive(Debug, Clone)]
pub struct RegisterEntries {
    pub name: String,
    pub entries: Vec<PdoEntry>,
}

/// The registers of one slave, each name listed once.
#[derive(Debug, Clone)]
pub struct PdoOffsets {
    pub registers: Vec<RegisterEntries>,
}

/// The registers of every slave, indexed by slave position.
#[derive(Debug, Clone)]
pub struct SlaveOffsets {
    pub slaves: Vec<PdoOffsets>,
}

/// Position `i` of `regs` holds the register called `name`.
pub open spec fn names_at(regs: Seq<RegisterEntries>, name: Seq<char>, i: int) -> bool {
    0 <= i < regs.len() && regs[i].name@ == name
}

/// The replicas registered under `name`, empty if there are none.
pub open spec fn entries_named(regs: Seq<RegisterEntries>, name: Seq<char>) -> Seq<PdoEntry> {
    if exists|i: int| names_at(regs, name, i) {
        regs[choose|i: int| names_at(regs, name, i)].entries@
    } else {
        seq![]
    }
}

impl PdoOffsets {
    /// Names are unique and every entry's range can be computed.
    pub open spec fn wf(&self) -> bool {
        &&& forall|i: int, j: int|
            0 <= i < self.registers@.len() && 0 <= j < self.registers@.len()
                && #[trigger] self.registers@[i].name@ == #[trigger] self.registers@[j].name@ ==> i
                == j
        &&& forall|i: int, k: int|
            0 <= i < self.registers@.len() && 0 <= k < self.registers@[i].entries@.len()
                ==> entry_fits(#[trigger] self.registers@[i].entries@[k])
    }

    /// The replicas of `name`, in registration order.
    pub open spec fn entries(&self, name: Seq<char>) -> Seq<PdoEntry> {
        entries_named(self.registers@, name)
    }

    /// A slave with no registered entry.
    pub fn new() -> (r: PdoOffsets)
        ensures
            r.wf(),
            forall|name: Seq<char>| r.entries(name) == Seq::<PdoEntry>::empty(),
    {
        PdoOffsets { registers: Vec::new() }
    }

    fn position(&self, name: &String) -> (r: Option<usize>)
        requires
            self.wf(),
        ensures
            r is Some ==> names_at(self.registers@, name@, r->0 as int),
            r is None ==> !exists|i: int| names_at(self.registers@, name@, i),
    {
        let mut i: usize = 0;
        while i < self.registers.len()
            invariant
                i <= self.registers@.len(),
                forall|j: int| 0 <= j < i ==> !names_at(self.registers@, name@, j),
            decreases self.registers@.len() - i,
        {
            if self.registers[i].name == *name {
                return Some(i);
            }
            i = i + 1;
        }
        None
    }

    /// Registers one more replica of `name`: the entry is appended to the
    /// replicas of that name, and every other name keeps its replicas.
    pub fn register_entry(self, name: String, entry: PdoEntry) -> (r: PdoOffsets)
        requires
            self.wf(),
            entry_fits(entry),
        ensures
            r.wf(),
            r.entries(name@) == self.entries(name@).push(entry),
            forall|other: Seq<char>| other != name@ ==> r.entries(other) == self.entries(other),
    {
        let pos = self.position(&name);
        let ghost old_regs = self.registers@;
        let mut this = self;
        match pos {
            Some(i) => {
                let mut reg = this.registers.remove(i);
                assert(reg == old_regs[i as int]);
                reg.entries.push(entry);
                this.registers.insert(i, reg);
                proof {
                    let regs = this.registers@;
                    assert(regs =~= old_regs.update(i as int, regs[i as int]));
                    assert(regs[i as int].name@ == old_regs[i as int].name@);
                    assert(regs[i as int].entries@ == old_regs[i as int].entries@.push(entry));
                    assert forall|j: int| 0 <= j < regs.len() implies #[trigger] regs[j].name@
                        == old_regs[j].name@ by {}
                    assert forall|j: int, k: int|
                        0 <= j < regs.len() && 0 <= k < regs[j].entries@.len() implies entry_fits(
                        #[trigger] regs[j].entries@[k],
                    ) by {
                        if j == i as int && k == old_regs[j].entries@.len() {
                        } else {
                            assert(regs[j].entries@[k] == old_regs[j].entries@[k]);
                        }
                    }
                    assert forall|a: int, b: int|
                        0 <= a < regs.len() && 0 <= b < regs.len() && #[trigger] regs[a].name@
                            == #[trigger] regs[b].name@ implies a == b by {
                        assert(old_regs[a].name@ == regs[a].name@);
                        assert(old_regs[b].name@ == regs[b].name@);
                    }
                    assert(names_at(regs, name@, i as int));
                    assert forall|other: Seq<char>| other != name@ implies entries_named(
                        regs,
                        other,
                    ) == entries_named(old_regs, other) by {
                        assert forall|j: int| names_at(regs, other, j) <==> names_at(
                            old_regs,
                            other,
                            j,
                        ) by {}
                        if exists|j: int| names_at(regs, other, j) {
                            let a = choose|j: int| names_at(regs, other, j);
                            let b = choose|j: int| names_at(old_regs, other, j);
                            assert(a == b);
                        }
                    }
                    let c = choose|j: int| names_at(regs, name@, j);
                    assert(c == i);
                    let d = choose|j: int| names_at(old_regs, name@, j);
                    assert(d == i);
                }
            },
            None => {
                let mut entries: Vec<PdoEntry> = Vec::new();
                entries.push(entry);
                this.registers.push(RegisterEntries { name, entries });
                proof {
                    let regs = this.registers@;
                    let n = old_regs.len() as int;
                    assert(regs =~= old_regs.push(regs[n]));
                    assert(names_at(regs, name@, n));
                    assert forall|j: int| names_at(regs, name@, j) implies j == n by {
                        if j < n {
                            assert(names_at(old_regs, name@, j));
                        }
                    }
                    assert(regs[n].entries@ =~= seq![entry]);
                    assert forall|a: int, b: int|
                        0 <= a < regs.len() && 0 <= b < regs.len() && #[trigger] regs[a].name@
                            == #[trigger] regs[b].name@ implies a == b by {
                        if a < n && b < n {
                            assert(old_regs[a].name@ == regs[a].name@);
                            assert(old_regs[b].name@ == regs[b].name@);
                        } else if a < n {
                            assert(names_at(old_regs, name@, a));
                        } else if b < n {
                            assert(names_at(old_regs, name@, b));
                        }
                    }
                    assert forall|j: int, k: int|
                        0 <= j < regs.len() && 0 <= k < regs[j].entries@.len() implies entry_fits(
                        #[trigger] regs[j].entries@[k],
                    ) by {
                        if j < n {
                            assert(regs[j] == old_regs[j]);
                        }
                    }
                    assert forall|other: Seq<char>| other != name@ implies entries_named(
                        regs,
                        other,
                    ) == entries_named(old_regs, other) by {
                        assert forall|j: int| names_at(regs, other, j) <==> names_at(
                            old_regs,
                            other,
                            j,
                        ) by {}
                        if exists|j: int| names_at(regs, other, j) {
                            let a = choose|j: int| names_at(regs, other, j);
                            let b = choose|j: int| names_at(old_regs, other, j);
                            assert(a == b);
                        }
                    }
                    let c = choose|j: int| names_at(regs, name@, j);
                    assert(c == n);
                    assert(regs[n].entries@ =~= seq![entry]);
                }
            },
        }
        this
    }
}

impl SlaveOffsets {
    pub open spec fn wf(&self) -> bool {
        forall|s: int| 0 <= s < self.slaves@.len() ==> (#[trigger] self.slaves@[s]).wf()
    }

    /// The replicas of `name` on slave `slave`, empty for an unknown slave.
    pub open spec fn entries(&self, slave: int, name: Seq<char>) -> Seq<PdoEntry> {
        if 0 <= slave < self.slaves@.len() {
            self.slaves@[slave].entries(name)
        } else {
            seq![]
        }
    }
}

/// Byte range of replica `index` of register `register` on slave `slave_id`,
/// or `None` when the slave, the name or the replica does not exist.
pub fn get_reg_addr_range(offsets: &SlaveOffsets, slave_id: u16, register: &String, index: usize) -> (r:
    Option<ByteRange>)
    requires
        offsets.wf(),
    ensures
        r == (if index < offsets.entries(slave_id as int, register@).len() {
            Some(entry_range(offsets.entries(slave_id as int, register@)[index as int]))
        } else {
            None
        }),
{
    let s = slave_id as usize;
    if s >= offsets.slaves.len() {
        return None;
    }
    let slave = &offsets.slaves[s];
    proof {
        assert(slave.wf());
    }
    match slave.position(register) {
        None => None,
        Some(i) => {
            let reg = &slave.registers[i];
            proof {
                let c = choose|j: int| names_at(slave.registers@, register@, j);
                assert(c == i as int);
            }
            if index < reg.entries.len() {
                let e = reg.entries[index];
                proof {
                    assert(entry_fits(slave.registers@[i as int].entries@[index as int]));
                }
                Some(ByteRange { start: e.byte_offset, end: e.byte_offset + (e.bit_len / 8) as usize })
            } else {
                None
            }
        },
    }
}

/// Byte ranges of every replica of a register, in registration order.
pub fn get_reg_addr_ranges(offsets: &SlaveOffsets, slave_id: u16, register: &String) -> (r: Vec<
    ByteRange,
>)
    requires
        offsets.wf(),
    ensures
        r@ == offsets.entries(slave_id as int, register@).map_values(|e: PdoEntry| entry_range(e)),
{
    let mut ranges: Vec<ByteRange> = Vec::new();
    let s = slave_id as usize;
    if s >= offsets.slaves.len() {
        proof {
            assert(ranges@ =~= Seq::<PdoEntry>::empty().map_values(|e: PdoEntry| entry_range(e)));
        }
        return ranges;
    }
    let slave = &offsets.slaves[s];
    proof {
        assert(slave.wf());
    }
    match slave.position(register) {
        None => {
            proof {
                assert(ranges@ =~= Seq::<PdoEntry>::empty().map_values(|e: PdoEntry| entry_range(e)));
            }
            ranges
        },
        Some(p) => {
            let reg = &slave.registers[p];
            let ghost want = reg.entries@;
            proof {
                let c = choose|j: int| names_at(slave.registers@, register@, j);
                assert(c == p as int);
                assert(want == offsets.entries(slave_id as int, register@));
            }
            let mut i: usize = 0;
            while i < reg.entries.len()
                invariant
                    want == reg.entries@,
                    i <= want.len(),
                    forall|k: int| 0 <= k < want.len() ==> entry_fits(#[trigger] want[k]),
                    ranges@ == want.subrange(0, i as int).map_values(|e: PdoEntry| entry_range(e)),
                decreases want.len() - i,
            {
                let e = reg.entries[i];
                assert(entry_fits(want[i as int]));
                let range = ByteRange {
                    start: e.byte_offset,
                    end: e.byte_offset + (e.bit_len / 8) as usize,
                };
                proof {
                    assert(want.subrange(0, i + 1).map_values(|e: PdoEntry| entry_range(e))
                        =~= want.subrange(0, i as int).map_values(|e: PdoEntry| entry_range(e)).push(
                        range,
                    ));
                }
                ranges.push(range);
                i = i + 1;
            }
            proof {
                assert(want.subrange(0, i as int) =~= want);
            }
            ranges
        },
    }
}

/// How the bus scan treats a sync manager, from its control register: bit 1
/// set means mailbox mode, bit 2 set means output (master to slave).
#[derive(Debug, Clone, Copy, PartialEq, Eq, Structural)]
pub struct SyncManagerKind {
    pub mailbox: bool,
    pub output: bool,
}

impl SyncManagerKind {
    /// Classifies a sync manager by its control register.
    pub fn from_control_register(control_register: u8) -> (r: SyncManagerKind)
        ensures
            r.mailbox == (control_register & 0b10 != 0),
            r.output == (control_register & 0b100 != 0),
    {
        SyncManagerKind { mailbox: control_register & 0b10 != 0, output: control_register & 0b100 != 0 }
    }

    /// Its entries are mailbox inputs: the ones the mailbox check watches.
    pub fn holds_mailbox_inputs(&self) -> (r: bool)
        ensures
            r == (self.mailbox && !self.output),
    {
        self.mailbox && !self.output
    }
}

} // verus!
