use vstd::prelude::*;

verus! {

/// The text a name maps to in a list of (name, text) entries: that of the
/// first entry with the name, or `None` where no entry has it.
pub open spec fn lookup(entries: Seq<(String, String)>, name: Seq<char>) -> Option<Seq<char>>
    decreases entries.len(),
{
    if entries.len() == 0 {
        None
    } else if entries[0].0@ == name {
        Some(entries[0].1@)
    } else {
        lookup(entries.drop_first(), name)
    }
}

/// No two entries have the same name.
pub open spec fn names_distinct(entries: Seq<(String, String)>) -> bool {
    forall|i: int, j: int|
        0 <= i < entries.len() && 0 <= j < entries.len() && i != j ==> #[trigger] entries[i].0@
            != #[trigger] entries[j].0@
}

/// Where no two entries share a name, looking up the name of an entry gives
/// that entry's text: the list behaves as a map from names to texts.
pub proof fn lemma_lookup_finds_entry(entries: Seq<(String, String)>, i: int)
    requires
        names_distinct(entries),
        0 <= i < entries.len(),
    ensures
        lookup(entries, entries[i].0@) == Some(entries[i].1@),
    decreases entries.len(),
{
    if i > 0 {
        let rest = entries.drop_first();
        assert(entries[0].0@ != entries[i].0@);
        assert(rest[i - 1] == entries[i]);
        assert(names_distinct(rest)) by {
            assert forall|a: int, b: int|
                0 <= a < rest.len() && 0 <= b < rest.len() && a != b implies #[trigger] rest[a].0@
                != #[trigger] rest[b].0@ by {
                assert(rest[a] == entries[a + 1]);
                assert(rest[b] == entries[b + 1]);
            }
        }
        lemma_lookup_finds_entry(rest, i - 1);
    }
}

/// A list with `x` added at the end: a name already in the list keeps its
/// text, and the new entry's name, where it is new, gives the new text.
pub proof fn lemma_lookup_push(entries: Seq<(String, String)>, x: (String, String), name: Seq<char>)
    ensures
        lookup(entries.push(x), name) == match lookup(entries, name) {
            Some(text) => Some(text),
            None => if x.0@ == name {
                Some(x.1@)
            } else {
                None
            },
        },
    decreases entries.len(),
{
    reveal_with_fuel(lookup, 2);
    if entries.len() > 0 {
        assert(entries.push(x)[0] == entries[0]);
        assert(entries.push(x).drop_first() =~= entries.drop_first().push(x));
        lemma_lookup_push(entries.drop_first(), x, name);
    } else {
        assert(entries.push(x)[0] == x);
        assert(entries.push(x).drop_first() =~= Seq::<(String, String)>::empty());
    }
}

proof fn lemma_distinct_drop_first(entries: Seq<(String, String)>)
    requires
        names_distinct(entries),
        entries.len() > 0,
    ensures
        names_distinct(entries.drop_first()),
{
    let rest = entries.drop_first();
    assert forall|a: int, b: int|
        0 <= a < rest.len() && 0 <= b < rest.len() && a != b implies #[trigger] rest[a].0@
        != #[trigger] rest[b].0@ by {
        assert(rest[a] == entries[a + 1]);
        assert(rest[b] == entries[b + 1]);
    }
}

/// Where no two entries share a name, replacing an entry by one of the same
/// name changes the text of that name and no other.
pub proof fn lemma_lookup_replace(
    entries: Seq<(String, String)>,
    i: int,
    x: (String, String),
    name: Seq<char>,
)
    requires
        names_distinct(entries),
        0 <= i < entries.len(),
        x.0@ == entries[i].0@,
    ensures
        lookup(entries.update(i, x), name) == if name == x.0@ {
            Some(x.1@)
        } else {
            lookup(entries, name)
        },
    decreases entries.len(),
{
    if i > 0 {
        assert(entries[0].0@ != entries[i].0@);
        assert(entries.update(i, x).drop_first() =~= entries.drop_first().update(i - 1, x));
        lemma_distinct_drop_first(entries);
        lemma_lookup_replace(entries.drop_first(), i - 1, x, name);
    } else {
        assert(entries.update(i, x).drop_first() =~= entries.drop_first());
    }
}

/// A name that no entry has looks up to `None`.
pub proof fn lemma_lookup_absent(entries: Seq<(String, String)>, name: Seq<char>)
    requires
        forall|k: int| 0 <= k < entries.len() ==> #[trigger] entries[k].0@ != name,
    ensures
        lookup(entries, name) is None,
    decreases entries.len(),
{
    if entries.len() > 0 {
        let rest = entries.drop_first();
        assert forall|k: int| 0 <= k < rest.len() implies #[trigger] rest[k].0@ != name by {
            assert(rest[k] == entries[k + 1]);
        }
        lemma_lookup_absent(rest, name);
    }
}

/// A snapshot of the registers for display: each register's name with the
/// text of its value, no name twice.
pub struct Registers {
    registers: Vec<(String, String)>,
}

impl Registers {
    #[verifier::type_invariant]
    spec fn inv(self) -> bool {
        names_distinct(self.registers@)
    }

    /// The entries of the snapshot, in the order they were first added.
    pub closed spec fn entries(self) -> Seq<(String, String)> {
        self.registers@
    }

    /// An empty snapshot.
    pub fn new() -> (r: Registers)
        ensures
            r.entries() == Seq::<(String, String)>::empty(),
    {
        Registers { registers: Vec::new() }
    }

    /// Sets the text of the named register: the name then gives `value` and
    /// every other name keeps its text; no name is ever held twice.
    pub fn insert(&mut self, name: String, value: String)
        ensures
            names_distinct(final(self).entries()),
            forall|n: Seq<char>|
                #![trigger lookup(final(self).entries(), n)]
                lookup(final(self).entries(), n) == if n == name@ {
                    Some(value@)
                } else {
                    lookup(old(self).entries(), n)
                },
    {
        proof {
            use_type_invariant(&*self);
        }
        let mut entries: Vec<(String, String)> = Vec::new();
        std::mem::swap(&mut entries, &mut self.registers);
        let ghost before = entries@;
        let mut i: usize = 0;
        while i < entries.len()
            invariant
                entries@ == before,
                before == old(self).entries(),
                names_distinct(before),
                i <= before.len(),
                forall|k: int| 0 <= k < i ==> #[trigger] before[k].0@ != name@,
            decreases before.len() - i,
        {
            if entries[i].0 == name {
                let ghost x = (name, value);
                proof {
                    assert forall|n: Seq<char>|
                        #![trigger lookup(before.update(i as int, x), n)]
                        lookup(before.update(i as int, x), n) == if n == name@ {
                            Some(value@)
                        } else {
                            lookup(before, n)
                        } by {
                        lemma_lookup_replace(before, i as int, x, n);
                    }
                    assert forall|a: int, b: int|
                        0 <= a < before.len() && 0 <= b < before.len() && a != b implies
                        #[trigger] before.update(i as int, x)[a].0@
                        != #[trigger] before.update(i as int, x)[b].0@ by {
                    }
                }
                entries[i] = (name, value);
                proof {
                    assert(entries@ =~= before.update(i as int, x));
                }
                self.registers = entries;
                return;
            }
            i = i + 1;
        }
        let ghost x = (name, value);
        proof {
            lemma_lookup_absent(before, name@);
            assert forall|n: Seq<char>|
                #![trigger lookup(before.push(x), n)]
                lookup(before.push(x), n) == if n == name@ {
                    Some(value@)
                } else {
                    lookup(before, n)
                } by {
                lemma_lookup_push(before, x, n);
            }
            assert forall|a: int, b: int|
                0 <= a < before.len() + 1 && 0 <= b < before.len() + 1 && a != b implies
                #[trigger] before.push(x)[a].0@ != #[trigger] before.push(x)[b].0@ by {
            }
        }
        entries.push((name, value));
        proof {
            assert(entries@ =~= before.push(x));
        }
        self.registers = entries;
    }

    /// The text of the value of the named register, or `Invalid register`
    /// where no register has that name.
    pub fn get_register_val(&self, register: &String) -> (v: String)
        ensures
            names_distinct(self.entries()),
            v@ == match lookup(self.entries(), register@) {
                Some(text) => text,
                None => "Invalid register"@,
            },
    {
        proof {
            use_type_invariant(self);
        }
        let mut i: usize = 0;
        proof {
            assert(self.registers@.skip(0) =~= self.registers@);
        }
        while i < self.registers.len()
            invariant
                i <= self.registers@.len(),
                names_distinct(self.registers@),
                lookup(self.registers@, register@) == lookup(self.registers@.skip(i as int), register@),
            decreases self.registers@.len() - i,
        {
            proof {
                assert(self.registers@.skip(i as int).drop_first() =~= self.registers@.skip(i + 1));
            }
            if self.registers[i].0 == *register {
                return self.registers[i].1.clone();
            }
            i = i + 1;
        }
        String::from_str("Invalid register")
    }
}

/// An instruction at an address, with its mnemonic.
pub struct Instruction {
    pub address: u16,
    pub opcode: String,
}

impl Instruction {
    /// The address of the instruction.
    pub fn get_address(&self) -> (a: u16)
        ensures
            a == self.address,
    {
        self.address
    }

    /// The mnemonic of the instruction.
    pub fn get_opcode(&self) -> (s: String)
        ensures
            s@ == self.opcode@,
    {
        self.opcode.clone()
    }
}

} // verus!
