use vstd::prelude::*;

verus! {

/// Shared-read / exclusive-write discipline guarding one node's data.
///
/// Any number of readers may hold the scope at once; a writer holds it alone.
#[derive(Clone, Copy, Debug, PartialEq, Eq, Structural)]
pub struct AccessScope {
    pub readers: u32,
    pub writer: bool,
}

impl AccessScope {
    /// A writer never coexists with a reader.
    pub open spec fn wf(&self) -> bool {
        self.writer ==> self.readers == 0
    }

    /// Whether a reader may enter now.
    pub open spec fn can_read(&self) -> bool {
        !self.writer && self.readers < u32::MAX
    }

    /// Whether a writer may enter now.
    pub open spec fn can_write(&self) -> bool {
        !self.writer && self.readers == 0
    }

    /// A scope that nobody holds.
    pub fn new() -> (r: AccessScope)
        ensures
            r.wf(),
            r.readers == 0,
            !r.writer,
    {
        AccessScope { readers: 0, writer: false }
    }

    /// Whether nobody holds the scope.
    pub fn is_free(&self) -> (r: bool)
        ensures
            r == (self.readers == 0 && !self.writer),
    {
        self.readers == 0 && !self.writer
    }

    /// Enters as a reader if no writer holds the scope; returns whether it entered.
    pub fn try_read(&mut self) -> (r: bool)
        requires
            old(self).wf(),
        ensures
            final(self).wf(),
            r == old(self).can_read(),
            r ==> *final(self) == (AccessScope { readers: (old(self).readers + 1) as u32, ..*old(self) }),
            !r ==> *final(self) == *old(self),
    {
        if !self.writer && self.readers < u32::MAX {
            self.readers = self.readers + 1;
            true
        } else {
            false
        }
    }

    /// Leaves as a reader.
    pub fn release_read(&mut self)
        requires
            old(self).wf(),
            old(self).readers > 0,
        ensures
            final(self).wf(),
            *final(self) == (AccessScope { readers: (old(self).readers - 1) as u32, ..*old(self) }),
    {
        self.readers = self.readers - 1;
    }

    /// Enters as the writer if nobody holds the scope; returns whether it entered.
    pub fn try_write(&mut self) -> (r: bool)
        requires
            old(self).wf(),
        ensures
            final(self).wf(),
            r == old(self).can_write(),
            r ==> *final(self) == (AccessScope { writer: true, ..*old(self) }),
            !r ==> *final(self) == *old(self),
    {
        if !self.writer && self.readers == 0 {
            self.writer = true;
            true
        } else {
            false
        }
    }

    /// Leaves as the writer.
    pub fn release_write(&mut self)
        requires
            old(self).wf(),
            old(self).writer,
        ensures
            final(self).wf(),
            *final(self) == (AccessScope { writer: false, ..*old(self) }),
    {
        self.writer = false;
    }
}

/// Readers do not exclude one another: with no writer inside, a reader may enter,
/// and another may enter after it.
pub proof fn lemma_readers_share(s: AccessScope)
    requires
        s.wf(),
        !s.writer,
        s.readers < u32::MAX - 1,
    ensures
        s.can_read(),
        (AccessScope { readers: (s.readers + 1) as u32, ..s }).can_read(),
        (AccessScope { readers: (s.readers + 1) as u32, ..s }).wf(),
{
}

/// A writer excludes everyone: while it is inside, neither a reader nor another
/// writer may enter; and a writer may not enter while any reader is inside.
pub proof fn lemma_writer_excludes(s: AccessScope)
    requires
        s.wf(),
    ensures
        s.writer ==> !s.can_read() && !s.can_write(),
        s.readers > 0 ==> !s.can_write(),
        s.can_write() ==> (AccessScope { writer: true, ..s }).wf(),
{
}

} // verus!
