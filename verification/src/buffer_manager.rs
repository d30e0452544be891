//! The set of open buffers, each under an id of its own.

use crate::buffer::{Buffer, FileProbe};
use crate::error::BufferError;
use crate::document::Lines;
use crate::lines::file_lines;
use vstd::prelude::*;

verus! {

/// Owns every open buffer. Ids are handed out in rising order and never
/// given twice.
pub struct BufferManager {
    /// The buffers, in the order in which they were added.
    pub buffers: Vec<Buffer>,
    /// Index into `buffers` of the buffer that was added or chosen last.
    pub current_buffer: Option<usize>,
    /// The id that the next buffer gets.
    pub next_id: usize,
}

impl BufferManager {
    /// The ids of the buffers, in order.
    pub open spec fn ids(&self) -> Seq<usize> {
        self.buffers@.map_values(|b: Buffer| b.id)
    }

    /// Whether a buffer with this id is held.
    pub open spec fn has_id(&self, id: usize) -> bool {
        self.ids().contains(id)
    }

    /// Position in `buffers` of the buffer with this id.
    pub open spec fn index_of(&self, id: usize) -> int {
        self.ids().index_of(id)
    }

    /// The buffer with this id.
    pub open spec fn buffer(&self, id: usize) -> Buffer {
        self.buffers[self.index_of(id)]
    }

    /// Whether `self` is `before` with the content of buffer `id` changed
    /// to `lines` by one logged edit, and nothing else touched.
    pub open spec fn buffer_edited(&self, before: &BufferManager, id: usize, lines: Lines) -> bool {
        let i = before.index_of(id);
        &&& before.has_id(id)
        &&& self.buffers@.len() == before.buffers@.len()
        &&& self.buffers@ == before.buffers@.update(i, self.buffers[i])
        &&& self.buffers[i].changed_from(&before.buffers[i], lines)
        &&& self.current_buffer == before.current_buffer
        &&& self.next_id == before.next_id
    }

    /// Whether `self` is `before` with one more buffer: an empty buffer
    /// named `name`, bound to no file and counted as saved. It has the
    /// next id and is the current buffer.
    pub open spec fn buffer_added(&self, before: &BufferManager, name: Seq<char>) -> bool {
        let id = before.next_id;
        &&& self.next_id == before.next_id + 1
        &&& !before.has_id(id)
        &&& self.buffers@.len() == before.buffers@.len() + 1
        &&& self.buffers@.drop_last() == before.buffers@
        &&& self.current_buffer == Some(before.buffers.len())
        &&& self.has_id(id)
        &&& self.buffer(id).id == id
        &&& self.buffer(id).lines() == seq![Seq::<char>::empty()]
        &&& self.buffer(id).name@ == name
        &&& self.buffer(id).path is None
        &&& self.buffer(id).saved
    }

    /// The manager's invariant: every buffer is well formed, no id occurs
    /// twice, and every id was handed out already.
    pub open spec fn wf(&self) -> bool {
        &&& forall|i: int| 0 <= i < self.buffers.len() ==> (#[trigger] self.buffers[i]).wf()
        &&& self.ids().no_duplicates()
        &&& forall|i: int| 0 <= i < self.buffers.len() ==> (#[trigger] self.buffers[i]).id < self.next_id
    }

    /// A manager without buffers.
    pub fn new() -> (r: Self)
        ensures
            r.wf(),
            r.buffers@.len() == 0,
            r.current_buffer is None,
            r.next_id == 0,
    {
        Self { buffers: Vec::new(), current_buffer: None, next_id: 0 }
    }

    /// Position of the buffer with id `id`, if there is one.
    pub fn find_index(&self, id: usize) -> (r: Option<usize>)
        ensures
            match r {
                Some(i) => i < self.buffers.len() && self.buffers[i as int].id == id
                    && self.has_id(id) && (self.ids().no_duplicates() ==> i == self.index_of(id)),
                None => !self.has_id(id),
            },
    {
        let mut i: usize = 0;
        while i < self.buffers.len()
            invariant
                0 <= i <= self.buffers.len(),
                forall|j: int| 0 <= j < i ==> self.buffers[j].id != id,
            decreases self.buffers.len() - i,
        {
            if self.buffers[i].id == id {
                proof {
                    assert(self.ids()[i as int] == id);
                    let k = self.ids().index_of(id);
                    assert(self.ids()[k] == id);
                }
                return Some(i);
            }
            i = i + 1;
        }
        proof {
            assert forall|j: int| 0 <= j < self.ids().len() implies self.ids()[j] != id by {
                assert(self.buffers[j].id != id);
            }
        }
        None
    }

    /// Takes `buf` in under a fresh id, makes it the current buffer and
    /// returns the id.
    pub fn add_buffer(&mut self, buf: Buffer) -> (id: usize)
        requires
            old(self).wf(),
            old(self).next_id < usize::MAX,
            buf.wf(),
        ensures
            final(self).wf(),
            id == old(self).next_id,
            final(self).next_id == old(self).next_id + 1,
            !old(self).has_id(id),
            final(self).buffers@ == old(self).buffers@.push(Buffer { id, ..buf }),
            final(self).current_buffer == Some(old(self).buffers.len()),
            final(self).has_id(id),
            final(self).buffer(id) == (Buffer { id, ..buf }),
    {
        let id: usize = self.next_id;
        let mut buf = buf;
        buf.id = id;
        proof {
            if old(self).has_id(id) {
                let k = old(self).ids().index_of(id);
                assert(old(self).buffers[k].id == id);
            }
        }
        self.buffers.push(buf);
        self.current_buffer = Some(self.buffers.len() - 1);
        self.next_id = self.next_id + 1;
        proof {
            let n = old(self).buffers.len() as int;
            assert(self.ids() =~= old(self).ids().push(id));
            assert(self.ids()[n] == id);
            assert forall|i: int, j: int|
                0 <= i < self.ids().len() && 0 <= j < self.ids().len() && i != j implies self.ids()[i]
                != self.ids()[j] by {
                if i < n && j < n {
                    assert(old(self).ids()[i] != old(self).ids()[j]);
                } else if i < n {
                    assert(old(self).buffers[i].id < id);
                } else {
                    assert(old(self).buffers[j].id < id);
                }
            }
            assert(self.ids().index_of(id) == n);
        }
        id
    }

    /// Makes an empty buffer named `name`, takes it in and returns its id.
    pub fn add_new_buffer(&mut self, name: &str) -> (id: usize)
        requires
            old(self).wf(),
            old(self).next_id < usize::MAX,
        ensures
            final(self).wf(),
            id == old(self).next_id,
            final(self).buffer_added(old(self), name@),
    {
        let buf: Buffer = Buffer::new(name);
        let id: usize = self.add_buffer(buf);
        proof {
            assert(self.buffers@.drop_last() =~= old(self).buffers@);
        }
        id
    }

    /// Takes in the buffer that `Buffer::from_file` builds from `probe` and
    /// returns its id. On an error nothing changes.
    pub fn open_file(&mut self, path: &str, name: &str, probe: FileProbe) -> (r: Result<
        usize,
        BufferError,
    >)
        requires
            old(self).wf(),
            old(self).next_id < usize::MAX,
        ensures
            final(self).wf(),
            match probe {
                FileProbe::NotAFile => r matches Err(e) && e is NotAFile && *final(self) == *old(
                    self,
                ),
                FileProbe::Unreadable(cause) => r matches Err(e) && e == BufferError::IOError(
                    cause,
                ) && *final(self) == *old(self),
                FileProbe::Loaded { text, size, read_only } => {
                    &&& r matches Ok(id)
                    &&& id == old(self).next_id
                    &&& final(self).next_id == old(self).next_id + 1
                    &&& final(self).buffers@.len() == old(self).buffers@.len() + 1
                    &&& final(self).buffers@.drop_last() == old(self).buffers@
                    &&& final(self).current_buffer == Some(old(self).buffers.len())
                    &&& final(self).has_id(id)
                    &&& final(self).buffer(id).id == id
                    &&& final(self).buffer(id).lines() == file_lines(text@)
                    &&& final(self).buffer(id).name@ == name@
                    &&& final(self).buffer(id).saved
                    &&& final(self).buffer(id).path matches Some(p)
                    &&& p@ == path@
                },
            },
    {
        match Buffer::from_file(path, name, probe) {
            Ok(buf) => {
                let id: usize = self.add_buffer(buf);
                proof {
                    assert(self.buffers@.drop_last() =~= old(self).buffers@);
                }
                Ok(id)
            },
            Err(e) => Err(e),
        }
    }

    /// The buffer with id `id`, or `InvalidId` if there is none.
    pub fn get_buffer(&self, id: usize) -> (r: Result<&Buffer, BufferError>)
        requires
            self.wf(),
        ensures
            match r {
                Ok(b) => self.has_id(id) && *b == self.buffer(id) && b.id == id && b.wf(),
                Err(e) => e is InvalidId && !self.has_id(id),
            },
    {
        match self.find_index(id) {
            Some(i) => Ok(&self.buffers[i]),
            None => Err(BufferError::InvalidId),
        }
    }

    /// The buffer with id `id` for changing, or `InvalidId` if there is
    /// none. Whatever the caller leaves in the buffer is what the manager
    /// holds afterwards, in the same place.
    pub fn get_buffer_mut(&mut self, id: usize) -> (r: Result<&mut Buffer, BufferError>)
        requires
            old(self).wf(),
        ensures
            match r {
                Ok(b) => {
                    &&& old(self).has_id(id)
                    &&& *b == old(self).buffer(id)
                    &&& b.id == id
                    &&& b.wf()
                    &&& final(self).buffers@ == old(self).buffers@.update(
                        old(self).index_of(id),
                        *final(b),
                    )
                    &&& final(self).current_buffer == old(self).current_buffer
                    &&& final(self).next_id == old(self).next_id
                },
                Err(e) => e is InvalidId && !old(self).has_id(id) && *final(self) == *old(self),
            },
    {
        match self.find_index(id) {
            Some(i) => Ok(&mut self.buffers[i]),
            None => Err(BufferError::InvalidId),
        }
    }

    /// Takes the buffer with id `id` out and returns it, or gives
    /// `InvalidId`, changing nothing, if there is none. The current buffer
    /// stays the same buffer; if it was the one removed, none is current.
    pub fn remove_buffer(&mut self, id: usize) -> (r: Result<Buffer, BufferError>)
        requires
            old(self).wf(),
        ensures
            final(self).wf(),
            match r {
                Ok(b) => {
                    let i = old(self).index_of(id);
                    &&& old(self).has_id(id)
                    &&& b == old(self).buffer(id)
                    &&& final(self).buffers@ == old(self).buffers@.remove(i)
                    &&& !final(self).has_id(id)
                    &&& final(self).next_id == old(self).next_id
                    &&& final(self).current_buffer == match old(self).current_buffer {
                        Some(c) => if c == i {
                            None
                        } else if c > i {
                            Some((c - 1) as usize)
                        } else {
                            Some(c)
                        },
                        None => None,
                    }
                },
                Err(e) => e is InvalidId && !old(self).has_id(id) && *final(self) == *old(self),
            },
    {
        match self.find_index(id) {
            Some(i) => {
                let b: Buffer = self.buffers.remove(i);
                self.current_buffer = match self.current_buffer {
                    Some(c) => if c == i {
                        None
                    } else if c > i {
                        Some(c - 1)
                    } else {
                        Some(c)
                    },
                    None => None,
                };
                proof {
                    let was = old(self).ids();
                    let now = self.ids();
                    assert(now =~= was.remove(i as int));
                    assert forall|a: int, c: int|
                        0 <= a < now.len() && 0 <= c < now.len() && a != c implies now[a]
                        != now[c] by {
                        let a0 = if a < i { a } else { a + 1 };
                        let c0 = if c < i { c } else { c + 1 };
                        assert(was[a0] != was[c0]);
                    }
                    if now.contains(id) {
                        let k = now.index_of(id);
                        let k0 = if k < i { k } else { k + 1 };
                        assert(was[k0] == was[i as int]);
                    }
                    assert forall|a: int| 0 <= a < self.buffers.len() implies (
                    #[trigger] self.buffers[a]).wf() && self.buffers[a].id < self.next_id by {
                        let a0 = if a < i { a } else { a + 1 };
                        assert(old(self).buffers[a0].wf());
                    }
                }
                Ok(b)
            },
            None => Err(BufferError::InvalidId),
        }
    }

    /// The current buffer, if the current index names one.
    pub fn get_current_buffer(&self) -> (r: Option<&Buffer>)
        ensures
            match r {
                Some(b) => self.current_buffer matches Some(c) && c < self.buffers.len() && *b
                    == self.buffers[c as int],
                None => match self.current_buffer {
                    Some(c) => c >= self.buffers.len(),
                    None => true,
                },
            },
    {
        match self.current_buffer {
            Some(cur) => {
                if cur >= self.buffers.len() {
                    None
                } else {
                    Some(&self.buffers[cur])
                }
            },
            None => None,
        }
    }

    /// The current buffer for changing, if the current index names one.
    /// Whatever the caller leaves in it is what the manager holds
    /// afterwards, in the same place.
    pub fn get_current_buffer_mut(&mut self) -> (r: Option<&mut Buffer>)
        ensures
            match r {
                Some(b) => {
                    &&& old(self).current_buffer matches Some(c)
                    &&& c < old(self).buffers.len()
                    &&& *b == old(self).buffers[c as int]
                    &&& final(self).buffers@ == old(self).buffers@.update(c as int, *final(b))
                    &&& final(self).current_buffer == old(self).current_buffer
                    &&& final(self).next_id == old(self).next_id
                },
                None => {
                    &&& match old(self).current_buffer {
                        Some(c) => c >= old(self).buffers.len(),
                        None => true,
                    }
                    &&& *final(self) == *old(self)
                },
            },
    {
        match self.current_buffer {
            Some(cur) => {
                if cur >= self.buffers.len() {
                    None
                } else {
                    Some(&mut self.buffers[cur])
                }
            },
            None => None,
        }
    }

    /// The index that comes before `cur` among `len` buffers, going round
    /// from the first to the last.
    pub open spec fn prev_index(cur: int, len: int) -> int {
        if cur == 0 || cur >= len {
            len - 1
        } else {
            cur - 1
        }
    }

    /// The index that comes after `cur` among `len` buffers, going round
    /// from the last to the first.
    pub open spec fn next_index(cur: int, len: int) -> int {
        if cur + 1 >= len {
            0
        } else {
            cur + 1
        }
    }

    /// Makes the buffer before the current one current, going round from
    /// the first to the last. Nothing happens with fewer than two buffers
    /// or without a current buffer.
    pub fn change_to_prev(&mut self)
        ensures
            final(self).buffers == old(self).buffers,
            final(self).next_id == old(self).next_id,
            final(self).current_buffer == match old(self).current_buffer {
                Some(cur) => if old(self).buffers.len() >= 2 {
                    Some(Self::prev_index(cur as int, old(self).buffers.len() as int) as usize)
                } else {
                    Some(cur)
                },
                None => None,
            },
    {
        match self.current_buffer {
            Some(cur) => {
                let len: usize = self.buffers.len();
                if len >= 2 {
                    if cur == 0 || cur >= len {
                        self.current_buffer = Some(len - 1);
                    } else {
                        self.current_buffer = Some(cur - 1);
                    }
                }
            },
            None => {},
        }
    }

    /// Makes the buffer after the current one current, going round from
    /// the last to the first. Nothing happens with fewer than two buffers
    /// or without a current buffer.
    pub fn change_to_next(&mut self)
        ensures
            final(self).buffers == old(self).buffers,
            final(self).next_id == old(self).next_id,
            final(self).current_buffer == match old(self).current_buffer {
                Some(cur) => if old(self).buffers.len() >= 2 {
                    Some(Self::next_index(cur as int, old(self).buffers.len() as int) as usize)
                } else {
                    Some(cur)
                },
                None => None,
            },
    {
        match self.current_buffer {
            Some(cur) => {
                let len: usize = self.buffers.len();
                if len >= 2 {
                    if cur >= len - 1 {
                        self.current_buffer = Some(0);
                    } else {
                        self.current_buffer = Some(cur + 1);
                    }
                }
            },
            None => {},
        }
    }
}

/// Putting a well-formed buffer with the same id in the place of the
/// buffer with id `id` keeps a manager well formed and keeps every id
/// where it was.
pub proof fn lemma_replace_keeps_wf(before: BufferManager, after: BufferManager, id: usize)
    requires
        before.wf(),
        before.has_id(id),
        after.next_id == before.next_id,
        after.buffers@.len() == before.buffers@.len(),
        after.buffers@ == before.buffers@.update(
            before.index_of(id),
            after.buffers[before.index_of(id)],
        ),
        after.buffers[before.index_of(id)].wf(),
        after.buffers[before.index_of(id)].id == id,
    ensures
        after.wf(),
        after.ids() == before.ids(),
{
    let i = before.index_of(id);
    assert(before.ids()[i] == id);
    assert(after.ids() =~= before.ids());
    assert forall|a: int| 0 <= a < after.buffers.len() implies (#[trigger] after.buffers[a]).wf()
        && after.buffers[a].id < after.next_id by {
        if a != i {
            assert(before.buffers[a].wf());
        } else {
            assert(before.buffers[i].id < before.next_id);
        }
    }
}

} // verus!
