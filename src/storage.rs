use vstd::prelude::*;

use crate::error::ConfigError;

verus! {

/// Size of the transfer unit shared by every attribute show and store.
pub const PAGE_SIZE: usize = 4096;

/// Writes `src[0..n]` to the front of `page`, or refuses with `Overflow` when
/// `page` is too short; on refusal `page` is untouched.
pub fn fill_page(page: &mut Vec<u8>, src: &[u8], n: usize) -> (r: Result<usize, ConfigError>)
    requires
        n <= src@.len(),
    ensures
        final(page)@.len() == old(page)@.len(),
        n > old(page)@.len() ==> r == Err::<usize, ConfigError>(ConfigError::Overflow)
            && final(page)@ == old(page)@,
        n <= old(page)@.len() ==> r == Ok::<usize, ConfigError>(n) && final(page)@ == src@.subrange(
            0,
            n as int,
        ) + old(page)@.subrange(n as int, old(page)@.len() as int),
{
    if n > page.len() {
        return Err(ConfigError::Overflow);
    }
    let mut i: usize = 0;
    while i < n
        invariant
            n <= src@.len(),
            n <= page@.len(),
            i <= n,
            page@.len() == old(page)@.len(),
            forall|j: int| 0 <= j < i ==> page@[j] == src@[j],
            forall|j: int| n <= j < page@.len() ==> page@[j] == old(page)@[j],
        decreases n - i,
    {
        page.set(i, src[i]);
        i = i + 1;
    }
    assert(page@ =~= src@.subrange(0, n as int) + old(page)@.subrange(
        n as int,
        old(page)@.len() as int,
    ));
    Ok(n)
}

/// A fixed-capacity byte buffer with an explicit length of valid content.
///
/// Callers hold it behind `&mut` to write and `&` to read, so a write and a
/// read never overlap: each read sees the content of one whole write.
pub struct Storage {
    buf: Vec<u8>,
    len: usize,
}

impl Storage {
    /// The content last stored.
    pub closed spec fn view(&self) -> Seq<u8> {
        self.buf@.subrange(0, self.len as int)
    }

    /// How many bytes the storage can hold.
    pub closed spec fn capacity(&self) -> nat {
        self.buf@.len()
    }

    /// The length of the content never exceeds the capacity.
    pub closed spec fn wf(&self) -> bool {
        self.len <= self.buf@.len()
    }

    pub proof fn lemma_len(&self)
        requires
            self.wf(),
        ensures
            self@.len() <= self.capacity(),
    {
    }

    /// An empty storage able to hold `capacity` bytes.
    pub fn new(capacity: usize) -> (s: Self)
        ensures
            s.wf(),
            s@ == Seq::<u8>::empty(),
            s.capacity() == capacity,
    {
        let mut buf: Vec<u8> = Vec::new();
        let mut i: usize = 0;
        while i < capacity
            invariant
                i <= capacity,
                buf@.len() == i,
            decreases capacity - i,
        {
            buf.push(0u8);
            i = i + 1;
        }
        let s = Storage { buf, len: 0 };
        assert(s@ =~= Seq::<u8>::empty());
        s
    }

    /// The number of bytes the storage can hold.
    pub fn capacity_of(&self) -> (r: usize)
        ensures
            r == self.capacity(),
    {
        self.buf.len()
    }

    /// The length of the stored content.
    pub fn len(&self) -> (r: usize)
        requires
            self.wf(),
        ensures
            r == self@.len(),
    {
        self.len
    }

    /// Replaces the content with `input`, or refuses with `CapacityExceeded`
    /// before touching anything when `input` does not fit.
    pub fn store(&mut self, input: &[u8]) -> (r: Result<(), ConfigError>)
        requires
            old(self).wf(),
        ensures
            final(self).wf(),
            final(self).capacity() == old(self).capacity(),
            input@.len() > old(self).capacity() ==> r == Err::<(), ConfigError>(
                ConfigError::CapacityExceeded,
            ) && final(self)@ == old(self)@,
            input@.len() <= old(self).capacity() ==> r == Ok::<(), ConfigError>(()) && final(self)@
                == input@,
    {
        if input.len() > self.buf.len() {
            return Err(ConfigError::CapacityExceeded);
        }
        let n = input.len();
        let mut i: usize = 0;
        while i < n
            invariant
                n == input@.len(),
                n <= self.buf@.len(),
                self.buf@.len() == old(self).buf@.len(),
                i <= n,
                forall|j: int| 0 <= j < i ==> self.buf@[j] == input@[j],
            decreases n - i,
        {
            self.buf.set(i, input[i]);
            i = i + 1;
        }
        self.len = n;
        assert(self@ =~= input@);
        Ok(())
    }

    /// Copies the content to the front of `page`; refuses with `Overflow`,
    /// leaving `page` untouched, when `page` is shorter than the content.
    pub fn show(&self, page: &mut Vec<u8>) -> (r: Result<usize, ConfigError>)
        requires
            self.wf(),
        ensures
            final(page)@.len() == old(page)@.len(),
            self@.len() > old(page)@.len() ==> r == Err::<usize, ConfigError>(ConfigError::Overflow)
                && final(page)@ == old(page)@,
            self@.len() <= old(page)@.len() ==> r == Ok::<usize, ConfigError>(self@.len() as usize)
                && final(page)@ == self@ + old(page)@.subrange(self@.len() as int, old(page)@.len() as int),
    {
        let r = fill_page(page, self.buf.as_slice(), self.len);
        proof {
            assert(self.buf@.subrange(0, self.len as int) == self@);
        }
        r
    }
}

} // verus!
