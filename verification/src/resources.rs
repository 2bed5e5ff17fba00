//! The build roots that local builds take turns in.
use vstd::prelude::*;

use crate::pieces;
use crate::pieces::{decimal_of, path_of};
use crate::text;
use crate::text::{ascii_alnum, cat3, chars_of};

verus! {

pub const MAX_LOCAL_BUILD_SLOTS: usize = 5;

/// A character that may stand in the name of a directory.
pub open spec fn is_safe_char(c: char) -> bool {
    text::is_ascii_alnum(c) || c == '.' || c == '_' || c == '-'
}

/// A text as the name of a directory: with underscores for what may not stand there, and
/// `unknown` for nothing.
pub open spec fn path_segment(s: Seq<char>) -> Seq<char> {
    if s.len() == 0 {
        "unknown"@
    } else {
        Seq::new(
            s.len(),
            |i: int|
                if is_safe_char(s[i]) {
                    s[i]
                } else {
                    '_'
                },
        )
    }
}

pub fn sanitize_path_segment(input: &str) -> (r: String)
    ensures
        r@ == path_segment(input@),
{
    let v = chars_of(input);
    if v.len() == 0 {
        return "unknown".to_owned();
    }
    let mut out = String::new();
    let mut i: usize = 0;
    while i < v.len()
        invariant
            i <= v@.len(),
            v@ == input@,
            v@.len() > 0,
            out@ == path_segment(input@).take(i as int),
        decreases v@.len() - i,
    {
        let c = v[i];
        out.push(
            if ascii_alnum(c) || c == '.' || c == '_' || c == '-' {
                c
            } else {
                '_'
            },
        );
        i += 1;
        assert(path_segment(input@).take(i as int) =~= path_segment(input@).take(i - 1).push(
            path_segment(input@)[i - 1],
        ));
    }
    assert(path_segment(input@).take(v@.len() as int) =~= path_segment(input@));
    out
}

/// A sanitised segment is not empty and holds safe characters only, so it names one directory.
pub proof fn law_segment_is_safe(s: Seq<char>)
    ensures
        path_segment(s).len() > 0,
        forall|i: int|
            0 <= i < path_segment(s).len() ==> is_safe_char(#[trigger] path_segment(s)[i])
                && path_segment(s)[i] != '/',
{
    reveal_strlit("unknown");
}

/// The build root of a slot.
pub open spec fn slot_root(
    base_dir: Seq<char>,
    id: nat,
    repository: Seq<char>,
    arch: Seq<char>,
) -> Seq<char> {
    pieces::path_join(
        base_dir,
        "packfix-"@ + pieces::decimal(id + 1) + "-"@ + repository + "-"@ + arch,
    )
}

/// Two slots never share a build root.
pub proof fn law_slot_roots_differ(
    base_dir: Seq<char>,
    a: nat,
    b: nat,
    repository: Seq<char>,
    arch: Seq<char>,
)
    requires
        a < MAX_LOCAL_BUILD_SLOTS,
        b < MAX_LOCAL_BUILD_SLOTS,
        a != b,
    ensures
        slot_root(base_dir, a, repository, arch) != slot_root(base_dir, b, repository, arch),
{
    reveal_strlit("packfix-");
    let p = slot_root(base_dir, a, repository, arch);
    let q = slot_root(base_dir, b, repository, arch);
    let x = "packfix-"@ + pieces::decimal(a + 1) + "-"@ + repository + "-"@ + arch;
    let y = "packfix-"@ + pieces::decimal(b + 1) + "-"@ + repository + "-"@ + arch;
    assert(x[8] == pieces::digit(a + 1));
    assert(y[8] == pieces::digit(b + 1));
    let k = p.len() - x.len();
    assert(p[k + 8] == x[8]);
    assert(x.len() == y.len());
    assert(q[k + 8] == y[8]);
}

/// The first slot from `i` on that is free, the number of slots where there is none.
pub open spec fn free_slot(used: Seq<bool>, i: int) -> int
    decreases used.len() - i,
{
    if 0 <= i < used.len() && used[i] {
        free_slot(used, i + 1)
    } else {
        i
    }
}

/// A slot in use.
#[derive(Debug, Clone, PartialEq, Eq)]
pub struct LocalBuildSlot {
    id: u32,
    root: String,
}

impl LocalBuildSlot {
    pub closed spec fn number(&self) -> nat {
        self.id as nat
    }

    pub closed spec fn path(&self) -> Seq<char> {
        self.root@
    }

    pub fn id(&self) -> (r: u32)
        ensures
            r == self.number(),
    {
        self.id
    }

    /// The build root of this slot.
    pub fn root(&self) -> (r: &str)
        ensures
            r@ == self.path(),
    {
        self.root.as_str()
    }
}

/// A fixed number of build roots, each used by one build at a time.
#[derive(Debug)]
pub struct LocalBuildPool {
    pub slots: Vec<bool>,
    pub base_dir: String,
    pub repository: String,
    pub arch: String,
}

impl LocalBuildPool {
    /// Which slots are in use.
    pub open spec fn used(&self) -> Seq<bool> {
        self.slots@
    }

    pub open spec fn wf(&self) -> bool {
        self.used().len() == MAX_LOCAL_BUILD_SLOTS
    }

    /// The build root of a slot of this pool.
    pub open spec fn root_of(&self, id: nat) -> Seq<char> {
        slot_root(self.base_dir@, id, self.repository@, self.arch@)
    }

    pub fn new(base_dir: String, repository: String, arch: String) -> (r: Self)
        ensures
            r.wf(),
            forall|i: int| 0 <= i < r.used().len() ==> !#[trigger] r.used()[i],
            r.base_dir@ == base_dir@,
            r.repository@ == path_segment(repository@),
            r.arch@ == path_segment(arch@),
    {
        LocalBuildPool {
            slots: vec![false, false, false, false, false],
            base_dir,
            repository: sanitize_path_segment(repository.as_str()),
            arch: sanitize_path_segment(arch.as_str()),
        }
    }

    /// Takes the first free slot, where there is one.
    pub fn acquire(&mut self) -> (r: Option<LocalBuildSlot>)
        requires
            old(self).wf(),
        ensures
            final(self).wf(),
            final(self).base_dir@ == old(self).base_dir@,
            final(self).repository@ == old(self).repository@,
            final(self).arch@ == old(self).arch@,
            match r {
                Some(slot) => {
                    &&& slot.number() == free_slot(old(self).used(), 0)
                    &&& slot.number() < MAX_LOCAL_BUILD_SLOTS
                    &&& !old(self).used()[slot.number() as int]
                    &&& slot.path() == old(self).root_of(slot.number())
                    &&& final(self).used() == old(self).used().update(slot.number() as int, true)
                },
                None => {
                    &&& free_slot(old(self).used(), 0) == MAX_LOCAL_BUILD_SLOTS
                    &&& forall|i: int|
                        0 <= i < old(self).used().len() ==> #[trigger] old(self).used()[i]
                    &&& final(self).used() == old(self).used()
                },
            },
    {
        let mut i: usize = 0;
        while i < self.slots.len() && self.slots[i]
            invariant
                i <= self.slots@.len(),
                self.slots@.len() == MAX_LOCAL_BUILD_SLOTS,
                free_slot(self.slots@, 0) == free_slot(self.slots@, i as int),
                forall|k: int| 0 <= k < i ==> self.slots@[k],
            decreases self.slots@.len() - i,
        {
            i += 1;
        }
        if i == self.slots.len() {
            return None;
        }
        self.slots.set(i, true);
        let mut name = cat3("packfix-", decimal_of((i + 1) as u64).as_str(), "-");
        name.append(self.repository.as_str());
        name.append("-");
        name.append(self.arch.as_str());
        Some(
            LocalBuildSlot {
                id: i as u32,
                root: path_of(self.base_dir.as_str(), name.as_str()),
            },
        )
    }

    /// Gives a slot back. A number that is not one of a slot changes nothing.
    pub fn release(&mut self, id: u32)
        requires
            old(self).wf(),
        ensures
            final(self).wf(),
            final(self).base_dir@ == old(self).base_dir@,
            final(self).repository@ == old(self).repository@,
            final(self).arch@ == old(self).arch@,
            final(self).used() == (if id < MAX_LOCAL_BUILD_SLOTS {
                old(self).used().update(id as int, false)
            } else {
                old(self).used()
            }),
    {
        if (id as usize) < self.slots.len() {
            self.slots.set(id as usize, false);
        }
    }
}

proof fn lemma_free_slot(used: Seq<bool>, i: int)
    requires
        0 <= i <= used.len(),
    ensures
        i <= free_slot(used, i) <= used.len(),
        forall|k: int| i <= k < free_slot(used, i) ==> used[k],
        free_slot(used, i) < used.len() ==> !used[free_slot(used, i)],
    decreases used.len() - i,
{
    if i < used.len() && used[i] {
        lemma_free_slot(used, i + 1);
    }
}

/// A slot that is taken and given back leaves the pool as it was, so that it is the next to be
/// taken; and two slots taken one after the other are not the same.
pub proof fn law_slots_are_exclusive_and_reused(used: Seq<bool>)
    requires
        free_slot(used, 0) < used.len(),
    ensures
        ({
            let id = free_slot(used, 0);
            &&& used.update(id, true).update(id, false) == used
            &&& free_slot(used.update(id, true), 0) != id
        }),
{
    let id = free_slot(used, 0);
    lemma_free_slot(used, 0);
    lemma_free_slot(used.update(id, true), 0);
    assert(used.update(id, true).update(id, false) =~= used);
}

} // verus!
