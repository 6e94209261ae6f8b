use vstd::prelude::*;

verus! {

/// Whether two byte strings hold the same bytes.
pub fn bytes_eq(a: &[u8], b: &[u8]) -> (r: bool)
    ensures
        r <==> a@ =~= b@,
{
    if a.len() != b.len() {
        return false;
    }
    let mut j: usize = 0;
    while j < a.len()
        invariant
            j <= a@.len(),
            a@.len() == b@.len(),
            forall|t: int| 0 <= t < j ==> a@[t] == b@[t],
        decreases a@.len() - j,
    {
        if a[j] != b[j] {
            return false;
        }
        j = j + 1;
    }
    true
}

/// The first address recorded under a name, if any.
pub open spec fn spec_lookup(entries: Seq<(Seq<u8>, u16)>, name: Seq<u8>) -> Option<u16>
    decreases entries.len(),
{
    if entries.len() == 0 {
        None
    } else if entries[0].0 == name {
        Some(entries[0].1)
    } else {
        spec_lookup(entries.drop_first(), name)
    }
}

/// Whether some entry records the name.
pub open spec fn spec_has_label(entries: Seq<(Seq<u8>, u16)>, name: Seq<u8>) -> bool {
    spec_lookup(entries, name) is Some
}

/// The label table of the assembler's first pass: each definition's name
/// and the emission-cursor address it stands for.
///
/// Definitions are appended in source order; duplicates are rejected
/// before insertion, so lookups are unambiguous.
pub struct LabelMap {
    entries: Vec<(Vec<u8>, u16)>,
}

impl LabelMap {
    /// The recorded entries in insertion order, for use in contracts.
    pub closed spec fn view(self) -> Seq<(Seq<u8>, u16)> {
        self.entries@.map_values(|e: (Vec<u8>, u16)| (e.0@, e.1))
    }

    /// An empty table.
    pub fn new() -> (r: Self)
        ensures
            r@ =~= Seq::<(Seq<u8>, u16)>::empty(),
    {
        LabelMap { entries: Vec::new() }
    }

    /// Look a name up; yields the address of its first definition.
    pub fn get(&self, name: &[u8]) -> (r: Option<u16>)
        ensures
            r == spec_lookup(self@, name@),
    {
        let mut j: usize = 0;
        proof {
            assert(self@.skip(0) =~= self@);
        }
        while j < self.entries.len()
            invariant
                j <= self.entries@.len(),
                self@.len() == self.entries@.len(),
                forall|t: int|
                    0 <= t < self.entries@.len() ==> self@[t] == (self.entries@[t].0@, self.entries@[t].1),
                spec_lookup(self@, name@) == spec_lookup(self@.skip(j as int), name@),
            decreases self.entries@.len() - j,
        {
            let hit = bytes_eq(self.entries[j].0.as_slice(), name);
            proof {
                assert(self@.skip(j as int).drop_first() =~= self@.skip(j + 1));
            }
            if hit {
                return Some(self.entries[j].1);
            }
            j = j + 1;
        }
        proof {
            assert(self@.skip(self.entries@.len() as int) =~= Seq::<(Seq<u8>, u16)>::empty());
        }
        None
    }

    /// Whether the name has a recorded definition.
    pub fn contains(&self, name: &[u8]) -> (r: bool)
        ensures
            r == spec_has_label(self@, name@),
    {
        self.get(name).is_some()
    }

    /// Record a definition at the end of the table.
    pub fn insert(&mut self, name: Vec<u8>, address: u16)
        ensures
            final(self)@ =~= old(self)@.push((name@, address)),
    {
        self.entries.push((name, address));
    }
}

} // verus!
