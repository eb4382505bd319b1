use vstd::prelude::*;

verus! {

/// The shape of a value an entry point takes or returns.
#[derive(Clone, Copy, Debug, PartialEq, Eq, Structural)]
pub enum ValueType {
    Unit,
    U32,
}

/// Who may invoke an entry point.
#[derive(Clone, Copy, Debug, PartialEq, Eq, Structural)]
pub enum EntryPointAccess {
    Public,
    Restricted,
}

/// Where an entry point runs: as stateless session code of the caller, or
/// inside the installed program with its own registries in scope.
#[derive(Clone, Copy, Debug, PartialEq, Eq, Structural)]
pub enum EntryPointContext {
    Session,
    Contract,
}

/// One callable operation of a program version: its name, the ordered types
/// of its parameters, its return type, visibility and execution context.
pub struct EntryPoint {
    pub name: String,
    pub params: Vec<ValueType>,
    pub ret: ValueType,
    pub access: EntryPointAccess,
    pub context: EntryPointContext,
}

impl EntryPoint {
    pub fn new(
        name: String,
        params: Vec<ValueType>,
        ret: ValueType,
        access: EntryPointAccess,
        context: EntryPointContext,
    ) -> (r: EntryPoint)
        ensures
            r == (EntryPoint { name, params, ret, access, context }),
    {
        EntryPoint { name, params, ret, access, context }
    }
}

/// The static table of operations one program version exposes.
pub struct EntryPoints {
    pub entries: Vec<EntryPoint>,
}

impl EntryPoints {
    /// Entry point names are unique within one program version.
    pub open spec fn wf(self) -> bool {
        forall|i: int, j: int|
            0 <= i < j < self.entries@.len() ==> #[trigger] self.entries@[i].name@
                != #[trigger] self.entries@[j].name@
    }

    /// Whether some entry point carries this name.
    pub open spec fn has_name(self, name: Seq<char>) -> bool {
        exists|i: int| 0 <= i < self.entries@.len() && #[trigger] self.entries@[i].name@ == name
    }

    /// An empty table.
    pub fn new() -> (r: EntryPoints)
        ensures
            r.wf(),
            r.entries@.len() == 0,
    {
        EntryPoints { entries: Vec::new() }
    }

    /// Adds one operation, replacing a previous one of the same name.
    pub fn add_entry_point(&mut self, ep: EntryPoint)
        requires
            old(self).wf(),
        ensures
            final(self).wf(),
            !old(self).has_name(ep.name@) ==> final(self).entries@ == old(self).entries@.push(ep),
            old(self).has_name(ep.name@) ==> (exists|i: int|
                0 <= i < old(self).entries@.len() && #[trigger] old(self).entries@[i].name@
                    == ep.name@ && final(self).entries@ == old(self).entries@.update(i, ep)),
    {
        let n = self.entries.len();
        let mut i: usize = 0;
        while i < n
            invariant
                i <= n,
                n == self.entries@.len(),
                self.wf(),
                *self == *old(self),
                forall|j: int| 0 <= j < i ==> #[trigger] self.entries@[j].name@ != ep.name@,
            decreases n - i,
        {
            if self.entries[i].name == ep.name {
                let ghost s = self.entries@;
                let ghost ix = i as int;
                self.entries[i] = ep;
                proof {
                    assert(old(self).entries@[ix].name@ == self.entries@[ix].name@);
                    assert forall|i2: int, j2: int|
                        0 <= i2 < j2 < self.entries@.len() implies #[trigger] self.entries@[i2].name@
                        != #[trigger] self.entries@[j2].name@ by {
                        assert(self.entries@[i2].name@ == s[i2].name@);
                        assert(self.entries@[j2].name@ == s[j2].name@);
                    }
                }
                return ;
            }
            i += 1;
        }
        self.entries.push(ep);
    }
}

} // verus!
