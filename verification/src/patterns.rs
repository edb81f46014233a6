use crate::barrage::PatternProgram;
use vstd::pervasive::VecAdditionalExecFns;
use vstd::prelude::*;

verus! {

/// Whether two byte strings hold the same bytes.
pub fn bytes_eq(a: &[u8], b: &[u8]) -> (r: bool)
    ensures
        r <==> a@ == b@,
{
    if a.len() != b.len() {
        proof {
            assert(a@.len() != b@.len());
        }
        return false;
    }
    let n = a.len();
    let mut i: usize = 0;
    while i < n
        invariant
            n == a@.len() == b@.len(),
            0 <= i <= n,
            forall|j: int| 0 <= j < i ==> a@[j] == b@[j],
        decreases n - i,
    {
        if a[i] != b[i] {
            return false;
        }
        i = i + 1;
    }
    proof {
        assert(a@ =~= b@);
    }
    true
}

/// The first value paired with key `key`, scanning in order.
pub open spec fn spec_config_lookup(s: Seq<(i64, Vec<u8>)>, key: int) -> Option<Seq<u8>>
    decreases s.len(),
{
    if s.len() == 0 {
        None
    } else if s[0].0 == key {
        Some(s[0].1@)
    } else {
        spec_config_lookup(s.skip(1), key)
    }
}

/// No pair carries the key exactly when the lookup finds nothing.
proof fn lemma_config_lookup_none(s: Seq<(i64, Vec<u8>)>, key: int)
    ensures
        spec_config_lookup(s, key) is None <==> forall|i: int|
            0 <= i < s.len() ==> (#[trigger] s[i]).0 != key,
    decreases s.len(),
{
    if s.len() > 0 {
        lemma_config_lookup_none(s.skip(1), key);
        if s[0].0 != key {
            assert(forall|i: int| 1 <= i < s.len() ==> s[i] == s.skip(1)[i - 1]);
        }
    }
}

/// Appending a pair with a fresh key adds exactly that key's entry.
proof fn lemma_config_lookup_push(s: Seq<(i64, Vec<u8>)>, life: i64, name: Vec<u8>, key: int)
    requires
        spec_config_lookup(s, life as int) is None,
    ensures
        spec_config_lookup(s.push((life, name)), key) == if key == life {
            Some(name@)
        } else {
            spec_config_lookup(s, key)
        },
    decreases s.len(),
{
    let t = s.push((life, name));
    if s.len() == 0 {
        assert(t[0] == (life, name));
        assert(t.skip(1) =~= Seq::<(i64, Vec<u8>)>::empty());
        assert(spec_config_lookup(t.skip(1), key) is None);
        assert(spec_config_lookup(s, key) is None);
    } else {
        assert(t[0] == s[0]);
        assert(t.skip(1) =~= s.skip(1).push((life, name)));
        assert(s[0].0 != life);
        lemma_config_lookup_push(s.skip(1), life, name, key);
        if s[0].0 == key {
            assert(spec_config_lookup(t, key) == Some(s[0].1@));
            assert(spec_config_lookup(s, key) == Some(s[0].1@));
            assert(key != life);
        } else {
            assert(spec_config_lookup(t, key) == spec_config_lookup(t.skip(1), key));
            assert(spec_config_lookup(s, key) == spec_config_lookup(s.skip(1), key));
        }
    }
}

/// Replacing the pair that holds a key rebinds exactly that key.
proof fn lemma_config_lookup_update(
    s: Seq<(i64, Vec<u8>)>,
    i: int,
    life: i64,
    name: Vec<u8>,
    key: int,
)
    requires
        0 <= i < s.len(),
        s[i].0 == life,
        forall|a: int, b: int|
            0 <= a < b < s.len() ==> (#[trigger] s[a]).0 != (#[trigger] s[b]).0,
    ensures
        spec_config_lookup(s.update(i, (life, name)), key) == if key == life {
            Some(name@)
        } else {
            spec_config_lookup(s, key)
        },
    decreases s.len(),
{
    let t = s.update(i, (life, name));
    if i == 0 {
        assert(t[0] == (life, name));
        assert(t.skip(1) =~= s.skip(1));
        if key != life {
            assert(s[0].0 == life && life != key);
        }
    } else {
        assert(t[0] == s[0]);
        assert(t.skip(1) =~= s.skip(1).update(i - 1, (life, name)));
        assert(forall|a: int, b: int|
            0 <= a < b < s.skip(1).len() ==> (#[trigger] s.skip(1)[a]).0 != (#[trigger] s.skip(
                1,
            )[b]).0);
        lemma_config_lookup_update(s.skip(1), i - 1, life, name, key);
        if s[0].0 == key {
            assert(s[0].0 != life);
        }
    }
}

/// The mapping from trigger lifetime values to pattern-program
/// names that an enemy carries: when its lifetime reaches a mapped
/// value, the named barrage starts. Immutable once assigned.
#[derive(Clone, Debug)]
pub struct BarrageConfiguration {
    pub entries: Vec<(i64, Vec<u8>)>,
}

impl BarrageConfiguration {
    /// Each trigger lifetime is mapped at most once.
    pub open spec fn wf(&self) -> bool {
        forall|a: int, b: int|
            0 <= a < b < self.entries@.len() ==> (#[trigger] self.entries@[a]).0 != (
            #[trigger] self.entries@[b]).0
    }

    /// The pattern name a lifetime value triggers, if any.
    pub open spec fn spec_lookup(&self, key: int) -> Option<Seq<u8>> {
        spec_config_lookup(self.entries@, key)
    }

    /// An empty configuration: no lifetime triggers anything.
    pub fn new() -> (r: BarrageConfiguration)
        ensures
            r.wf(),
            forall|k: int| r.spec_lookup(k) is None,
    {
        let r = BarrageConfiguration { entries: Vec::new() };
        proof {
            assert forall|k: int| r.spec_lookup(k) is None by {
                lemma_config_lookup_none(r.entries@, k);
            }
        }
        r
    }

    /// Binds a trigger lifetime to a pattern name, replacing any
    /// earlier binding of the same lifetime.
    pub fn insert_barrage_type(&mut self, life_count: i64, barrage_type: Vec<u8>)
        requires
            old(self).wf(),
        ensures
            final(self).wf(),
            final(self).spec_lookup(life_count as int) == Some(barrage_type@),
            forall|k: int|
                k != life_count ==> final(self).spec_lookup(k) == old(self).spec_lookup(k),
    {
        let ghost pre = self.entries@;
        let n = self.entries.len();
        let mut i: usize = 0;
        while i < n
            invariant
                n == self.entries@.len(),
                0 <= i <= n,
                self.entries@ == pre,
                pre == old(self).entries@,
                old(self).wf(),
                forall|j: int| 0 <= j < i ==> (#[trigger] self.entries@[j]).0 != life_count,
            decreases n - i,
        {
            if self.entries[i].0 == life_count {
                self.entries.set(i, (life_count, barrage_type));
                proof {
                    lemma_config_lookup_update(
                        pre,
                        i as int,
                        life_count,
                        barrage_type,
                        life_count as int,
                    );
                    assert forall|k: int|
                        k != life_count implies spec_config_lookup(self.entries@, k)
                        == spec_config_lookup(pre, k) by {
                        lemma_config_lookup_update(pre, i as int, life_count, barrage_type, k);
                    }
                }
                return ;
            }
            i = i + 1;
        }
        proof {
            lemma_config_lookup_none(pre, life_count as int);
        }
        self.entries.push((life_count, barrage_type));
        proof {
            lemma_config_lookup_push(pre, life_count, barrage_type, life_count as int);
            assert forall|k: int|
                k != life_count implies spec_config_lookup(self.entries@, k) == spec_config_lookup(
                pre,
                k,
            ) by {
                lemma_config_lookup_push(pre, life_count, barrage_type, k);
            }
        }
    }

    /// The pattern name to start when the lifetime reaches
    /// `life_count`, or nothing if that value triggers no barrage.
    pub fn get_barrage_type_for_life_count(&self, life_count: i64) -> (r: Option<&Vec<u8>>)
        ensures
            match r {
                Some(name) => self.spec_lookup(life_count as int) == Some(name@),
                None => self.spec_lookup(life_count as int) is None,
            },
    {
        let n = self.entries.len();
        let mut i: usize = 0;
        proof {
            assert(self.entries@.skip(0) =~= self.entries@);
        }
        while i < n
            invariant
                n == self.entries@.len(),
                0 <= i <= n,
                spec_config_lookup(self.entries@, life_count as int) == spec_config_lookup(
                    self.entries@.skip(i as int),
                    life_count as int,
                ),
            decreases n - i,
        {
            proof {
                assert(self.entries@.skip(i as int)[0] == self.entries@[i as int]);
                assert(self.entries@.skip(i as int).skip(1) =~= self.entries@.skip(i as int + 1));
            }
            if self.entries[i].0 == life_count {
                return Some(&self.entries[i].1);
            }
            i = i + 1;
        }
        proof {
            assert(self.entries@.skip(n as int) =~= Seq::<(i64, Vec<u8>)>::empty());
        }
        None
    }
}

/// The first program paired with a name, scanning in order.
pub open spec fn spec_library_lookup(
    s: Seq<(Vec<u8>, PatternProgram)>,
    name: Seq<u8>,
) -> Option<PatternProgram>
    decreases s.len(),
{
    if s.len() == 0 {
        None
    } else if s[0].0@ == name {
        Some(s[0].1)
    } else {
        spec_library_lookup(s.skip(1), name)
    }
}

/// The read-only library of named pattern programs a stage loads at
/// start: barrage configurations and boss scenarios refer to
/// programs by these names.
#[derive(Clone, Debug)]
pub struct PatternLibrary {
    pub entries: Vec<(Vec<u8>, PatternProgram)>,
}

impl PatternLibrary {
    /// Every stored program is well formed.
    pub open spec fn wf(&self) -> bool {
        forall|i: int| 0 <= i < self.entries@.len() ==> (#[trigger] self.entries@[i]).1.wf()
    }

    pub open spec fn spec_get(&self, name: Seq<u8>) -> Option<PatternProgram> {
        spec_library_lookup(self.entries@, name)
    }

    pub fn new() -> (r: PatternLibrary)
        ensures
            r.wf(),
            r.entries@.len() == 0,
    {
        PatternLibrary { entries: Vec::new() }
    }

    /// Adds a named program; an earlier entry of the same name keeps
    /// priority.
    pub fn load(&mut self, name: Vec<u8>, program: PatternProgram)
        requires
            old(self).wf(),
            program.wf(),
        ensures
            final(self).wf(),
            final(self).entries@ == old(self).entries@.push((name, program)),
    {
        self.entries.push((name, program));
    }

    /// The position of the entry a name resolves to.
    pub fn find(&self, name: &[u8]) -> (r: Option<usize>)
        ensures
            match r {
                Some(i) => (i as int) < self.entries@.len() && self.spec_get(name@) == Some(
                    self.entries@[i as int].1,
                ),
                None => self.spec_get(name@) is None,
            },
    {
        let n = self.entries.len();
        let mut i: usize = 0;
        proof {
            assert(self.entries@.skip(0) =~= self.entries@);
        }
        while i < n
            invariant
                n == self.entries@.len(),
                0 <= i <= n,
                spec_library_lookup(self.entries@, name@) == spec_library_lookup(
                    self.entries@.skip(i as int),
                    name@,
                ),
            decreases n - i,
        {
            proof {
                assert(self.entries@.skip(i as int)[0] == self.entries@[i as int]);
                assert(self.entries@.skip(i as int).skip(1) =~= self.entries@.skip(i as int + 1));
            }
            if bytes_eq(self.entries[i].0.as_slice(), name) {
                return Some(i);
            }
            i = i + 1;
        }
        proof {
            assert(self.entries@.skip(n as int) =~= Seq::<(Vec<u8>, PatternProgram)>::empty());
        }
        None
    }

    /// Looks a program up by name.
    pub fn get(&self, name: &[u8]) -> (r: Option<&PatternProgram>)
        ensures
            match r {
                Some(p) => self.spec_get(name@) == Some(*p),
                None => self.spec_get(name@) is None,
            },
    {
        let n = self.entries.len();
        let mut i: usize = 0;
        proof {
            assert(self.entries@.skip(0) =~= self.entries@);
        }
        while i < n
            invariant
                n == self.entries@.len(),
                0 <= i <= n,
                spec_library_lookup(self.entries@, name@) == spec_library_lookup(
                    self.entries@.skip(i as int),
                    name@,
                ),
            decreases n - i,
        {
            proof {
                assert(self.entries@.skip(i as int)[0] == self.entries@[i as int]);
                assert(self.entries@.skip(i as int).skip(1) =~= self.entries@.skip(i as int + 1));
            }
            if bytes_eq(self.entries[i].0.as_slice(), name) {
                return Some(&self.entries[i].1);
            }
            i = i + 1;
        }
        proof {
            assert(self.entries@.skip(n as int) =~= Seq::<(Vec<u8>, PatternProgram)>::empty());
        }
        None
    }
}

} // verus!
