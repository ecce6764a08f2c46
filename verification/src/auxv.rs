//! The auxiliary vector: what the kernel tells a process at its start, and
//! where in it the fast-path function's image and the page size are found.

use vstd::prelude::*;

verus! {

/// The key that ends the vector.
pub const AT_NULL: u64 = 0;

/// The key of the page size.
pub const AT_PAGESZ: u64 = 6;

/// The key of the address at which the kernel mapped its image.
pub const AT_SYSINFO_EHDR: u64 = 33;

/// `linux_raw_sys::auxvec::AT_NULL`, which is 0.
#[verifier::external_body]
fn key_null() -> (key: u64)
    ensures
        key == AT_NULL,
{
    linux_raw_sys::auxvec::AT_NULL as u64
}

/// `linux_raw_sys::auxvec::AT_PAGESZ`, which is 6.
#[verifier::external_body]
fn key_page_size() -> (key: u64)
    ensures
        key == AT_PAGESZ,
{
    linux_raw_sys::auxvec::AT_PAGESZ as u64
}

/// `linux_raw_sys::auxvec::AT_SYSINFO_EHDR`, which is 33.
#[verifier::external_body]
fn key_image() -> (key: u64)
    ensures
        key == AT_SYSINFO_EHDR,
{
    linux_raw_sys::auxvec::AT_SYSINFO_EHDR as u64
}

/// One entry of the vector.
#[derive(Clone, Copy, Debug, PartialEq, Eq, Structural)]
pub struct AuxvEntry {
    pub key: u64,
    pub value: u64,
}

/// The entries that a vector lists: those before the first entry with the
/// key `AT_NULL`.
pub open spec fn listed(entries: Seq<AuxvEntry>) -> Seq<AuxvEntry>
    decreases entries.len(),
{
    if entries.len() == 0 || entries.first().key == AT_NULL {
        Seq::empty()
    } else {
        seq![entries.first()] + listed(entries.drop_first())
    }
}

/// The value of the last of `entries` that has the key `key`.
pub open spec fn last_value(entries: Seq<AuxvEntry>, key: u64) -> Option<u64>
    decreases entries.len(),
{
    if entries.len() == 0 {
        None
    } else if entries.last().key == key {
        Some(entries.last().value)
    } else {
        last_value(entries.drop_last(), key)
    }
}

/// What a vector lists is a prefix of it, free of `AT_NULL`, and ends
/// where the vector ends or has `AT_NULL`.
pub proof fn lemma_listed(entries: Seq<AuxvEntry>)
    ensures
        listed(entries).len() <= entries.len(),
        forall|i: int|
            0 <= i < listed(entries).len() ==> (#[trigger] listed(entries)[i]) == entries[i]
                && entries[i].key != AT_NULL,
        listed(entries).len() < entries.len() ==> entries[listed(entries).len() as int].key
            == AT_NULL,
    decreases entries.len(),
{
    if entries.len() == 0 || entries.first().key == AT_NULL {
    } else {
        let rest = entries.drop_first();
        lemma_listed(rest);
        assert forall|i: int| 0 <= i < listed(entries).len() implies (#[trigger] listed(
            entries,
        )[i]) == entries[i] && entries[i].key != AT_NULL by {
            if i > 0 {
                assert(listed(entries)[i] == listed(rest)[i - 1]);
                assert(rest[i - 1] == entries[i]);
            }
        }
        if listed(entries).len() < entries.len() {
            assert(rest[listed(rest).len() as int] == entries[listed(entries).len() as int]);
        }
    }
}

/// The auxiliary vector as the kernel wrote it.
pub struct Auxv {
    entries: Vec<AuxvEntry>,
}

/// A walk along the entries that a vector lists.
pub struct AuxvIter<'a> {
    auxv: &'a Auxv,
    index: usize,
}

impl Auxv {
    /// The entries as the kernel wrote them.
    pub closed spec fn entries(&self) -> Seq<AuxvEntry> {
        self.entries@
    }

    /// The vector that holds `entries`.
    pub fn new(entries: Vec<AuxvEntry>) -> (auxv: Self)
        ensures
            auxv.entries() == entries@,
    {
        Auxv { entries }
    }

    /// A walk that starts at the first entry.
    pub fn iter(&self) -> (iter: AuxvIter<'_>)
        ensures
            iter.auxv() == self,
            iter.index() == 0,
    {
        AuxvIter { auxv: self, index: 0 }
    }

    /// Where the kernel mapped its image, and the page size: the values of
    /// the last listed entries with the keys `AT_SYSINFO_EHDR` and
    /// `AT_PAGESZ`.
    pub fn locate(&self) -> (found: (Option<u64>, Option<u64>))
        ensures
            found.0 == last_value(listed(self.entries()), AT_SYSINFO_EHDR),
            found.1 == last_value(listed(self.entries()), AT_PAGESZ),
    {
        let mut image: Option<u64> = None;
        let mut page_size: Option<u64> = None;
        let mut iter = self.iter();
        proof {
            lemma_listed(self.entries());
            assert(listed(self.entries()).take(0) =~= Seq::<AuxvEntry>::empty());
        }
        loop
            invariant
                iter.auxv() == self,
                iter.index() <= listed(self.entries()).len(),
                image == last_value(listed(self.entries()).take(iter.index() as int), AT_SYSINFO_EHDR),
                page_size == last_value(listed(self.entries()).take(iter.index() as int), AT_PAGESZ),
            ensures
                iter.index() == listed(self.entries()).len(),
                image == last_value(listed(self.entries()).take(iter.index() as int), AT_SYSINFO_EHDR),
                page_size == last_value(listed(self.entries()).take(iter.index() as int), AT_PAGESZ),
            decreases listed(self.entries()).len() - iter.index(),
        {
            let ghost before = iter.index() as int;
            match iter.next() {
                Some(entry) => {
                    proof {
                        let all = listed(self.entries());
                        assert(all.take(before + 1).drop_last() =~= all.take(before));
                        assert(all.take(before + 1).last() == entry);
                    }
                    if entry.key == key_image() {
                        image = Some(entry.value);
                    }
                    if entry.key == key_page_size() {
                        page_size = Some(entry.value);
                    }
                },
                None => {
                    break ;
                },
            }
        }
        proof {
            let all = listed(self.entries());
            assert(all.take(all.len() as int) =~= all);
        }
        (image, page_size)
    }
}

impl<'a> AuxvIter<'a> {
    /// The vector that is walked.
    pub closed spec fn auxv(&self) -> &Auxv {
        self.auxv
    }

    /// How many entries the walk has passed.
    pub closed spec fn index(&self) -> usize {
        self.index
    }

    /// The next listed entry, if there is one.  The walk ends at the end of
    /// the vector and at the first entry with the key `AT_NULL`, and stays
    /// there.
    pub fn next(&mut self) -> (entry: Option<AuxvEntry>)
        requires
            old(self).index() <= listed(old(self).auxv().entries()).len(),
        ensures
            final(self).auxv() == old(self).auxv(),
            old(self).index() < listed(old(self).auxv().entries()).len() ==> {
                &&& entry == Some(listed(old(self).auxv().entries())[old(self).index() as int])
                &&& final(self).index() == old(self).index() + 1
            },
            old(self).index() == listed(old(self).auxv().entries()).len() ==> {
                &&& entry.is_none()
                &&& final(self).index() == old(self).index()
            },
    {
        proof {
            lemma_listed(self.auxv.entries());
        }
        if self.index >= self.auxv.entries.len() {
            return None;
        }
        let current = self.auxv.entries[self.index];
        if current.key == key_null() {
            return None;
        }
        self.index = self.index + 1;
        Some(current)
    }
}

} // verus!
