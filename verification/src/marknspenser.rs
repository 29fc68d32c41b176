//! A moving collector over a memory of words.
//!
//! Memory is a run of words and an address is the number of a word, counted
//! from 1, so that 0 can stand for "no object". Every object, on the heap or
//! on the stack, starts with a tag word. An even tag is twice the number of
//! the object's type in the table of types; an odd tag says that the object
//! has moved, and holds twice its new address plus one. A stack frame is an
//! object whose type names the field that holds the address of the frame
//! above it.
//!
//! The collector trusts nothing that it reads: a word that cannot be what it
//! should be ends the collection with `AllocError::Corrupt`.

use vstd::prelude::*;

verus! {

/// The layout of the objects of one type.
#[derive(Debug)]
pub struct TypeDesc<T> {
    /// The number of words of an object, the tag among them.
    pub size: usize,
    /// The places, counted in words from the tag, of the fields that hold
    /// addresses.
    pub offsets: T,
    /// In the type of a stack frame, the place of the field that holds the
    /// address of the parent frame; zero in every other type.
    pub parent: usize,
}

pub type FinalTypeDesc = TypeDesc<Vec<usize>>;

/// What a tag says of its object.
#[derive(Clone, Copy, Debug, PartialEq, Eq)]
pub enum ObjectInfo {
    /// The object has moved to this address.
    Forward(usize),
    /// The object is in place and has the type of this number.
    Object(usize),
}

/// Why an allocation failed.
#[derive(Clone, Copy, Debug, PartialEq, Eq)]
pub enum AllocError {
    /// There is no room for an object of so many words.
    OutOufMemory { words: usize },
    /// The heap, the stack or the table of types is not what the collector
    /// relies on.
    Corrupt,
}

/// What the tag `tag` says.
pub open spec fn object_info(tag: usize) -> ObjectInfo {
    if tag % 2 == 0 {
        ObjectInfo::Object(tag / 2)
    } else {
        ObjectInfo::Forward(tag / 2)
    }
}

/// Reads a tag.
pub fn read_object_info(tag: usize) -> (info: ObjectInfo)
    ensures
        info == object_info(tag),
{
    if tag % 2 == 0 {
        ObjectInfo::Object(tag / 2)
    } else {
        ObjectInfo::Forward(tag / 2)
    }
}

/// A heap that is filled from its end towards its start.
pub struct Arena {
    mem: Vec<usize>,
    current: usize,
}

impl Arena {
    /// The words of the heap.
    pub closed spec fn view(&self) -> Seq<usize> {
        self.mem@
    }

    /// The number of words that are free: those before the first object.
    pub closed spec fn spec_free(&self) -> nat {
        self.current as nat
    }

    /// The free words lie inside the heap.
    pub closed spec fn wf(&self) -> bool {
        self.current <= self.mem@.len()
    }

    /// An empty heap over `memory`.
    pub fn from_memory(memory: Vec<usize>) -> (arena: Self)
        ensures
            arena.wf(),
            arena@ == memory@,
            arena.spec_free() == memory@.len(),
    {
        let current = memory.len();
        Arena { mem: memory, current }
    }

    /// Makes room for one object of the type of number `type_id` and writes
    /// its tag. The other words of the object are what the heap held.
    pub fn allocate(&mut self, types: &[FinalTypeDesc], type_id: usize) -> (r: Result<
        usize,
        AllocError,
    >)
        requires
            old(self).wf(),
            type_id < types@.len(),
        ensures
            final(self).wf(),
            final(self)@.len() == old(self)@.len(),
            match r {
                Ok(addr) => {
                    &&& 1 <= types@[type_id as int].size <= old(self).spec_free()
                    &&& type_id <= usize::MAX / 2
                    &&& final(self).spec_free() == old(self).spec_free() - types@[type_id as int].size
                    &&& addr == final(self).spec_free() + 1
                    &&& final(self)@ == old(self)@.update(addr - 1, (2 * type_id) as usize)
                },
                Err(AllocError::OutOufMemory { words }) => {
                    &&& words == types@[type_id as int].size
                    &&& type_id <= usize::MAX / 2
                    &&& words > old(self).spec_free()
                    &&& *final(self) == *old(self)
                },
                Err(AllocError::Corrupt) => {
                    &&& types@[type_id as int].size == 0 || type_id > usize::MAX / 2
                    &&& *final(self) == *old(self)
                },
            },
    {
        let len = types[type_id].size;
        if len == 0 || type_id > usize::MAX / 2 {
            return Err(AllocError::Corrupt);
        }
        if len <= self.current {
            let new_addr = self.current - len;
            self.current = new_addr;
            self.mem.set(new_addr, 2 * type_id);
            Ok(new_addr + 1)
        } else {
            Err(AllocError::OutOufMemory { words: len })
        }
    }

    /// The number of words of the heap.
    pub fn size(&self) -> (words: usize)
        ensures
            words == self@.len(),
    {
        self.mem.len()
    }

    /// The number of words that are free.
    pub fn free(&self) -> (words: usize)
        ensures
            words == self.spec_free(),
    {
        self.current
    }

    /// The word at the address `addr`, where that is an address of the
    /// heap.
    pub fn load(&self, addr: usize) -> (word: Option<usize>)
        ensures
            word == (if 1 <= addr <= self@.len() {
                Some(self@[addr - 1])
            } else {
                None
            }),
    {
        if addr >= 1 && addr <= self.mem.len() {
            Some(self.mem[addr - 1])
        } else {
            None
        }
    }

    /// Writes `word` at the address `addr`, where that is an address of the
    /// heap, and says whether it was.
    pub fn store(&mut self, addr: usize, word: usize) -> (done: bool)
        ensures
            done == (1 <= addr <= old(self)@.len()),
            final(self).spec_free() == old(self).spec_free(),
            final(self).wf() == old(self).wf(),
            final(self)@ == (if done {
                old(self)@.update(addr - 1, word)
            } else {
                old(self)@
            }),
    {
        if addr >= 1 && addr <= self.mem.len() {
            self.mem.set(addr - 1, word);
            true
        } else {
            false
        }
    }
}

/// A place that holds an address which the collector has yet to follow.
#[derive(Clone, Copy, Debug)]
enum Slot {
    /// The word of this number of the stack.
    Stack(usize),
    /// The word of this number of the heap that the objects move to.
    Heap(usize),
}

/// The size of the heap that a collection moves the objects to, from a heap
/// of `size` words that had no room for `extra` more: the old size and as
/// much again, or `extra` more where that is more, but never more than
/// `max_size`.
pub open spec fn grown_size(size: int, extra: int, max_size: int) -> int {
    let more = if size >= extra {
        size
    } else {
        extra
    };
    if size + more <= max_size {
        size + more
    } else {
        max_size
    }
}

/// `len` words of zero.
fn zeros(len: usize) -> (mem: Vec<usize>)
    ensures
        mem@.len() == len,
        forall|i: int| 0 <= i < len ==> mem@[i] == 0,
{
    let mut mem: Vec<usize> = Vec::new();
    while mem.len() < len
        invariant
            mem@.len() <= len,
            forall|i: int| 0 <= i < mem@.len() ==> mem@[i] == 0,
        decreases len - mem@.len(),
    {
        mem.push(0);
    }
    mem
}

/// The field at `offset` of an object of `size` words at word `at` lies
/// inside the object and inside memory of `len` words.
spec fn field_inside(len: int, at: int, size: usize, offset: usize) -> bool {
    offset < size && offset < len && at < len - offset
}

/// The first `k` fields of an object of the type `type_desc` at word `at`
/// all lie inside the object and inside memory of `len` words.
spec fn sound_upto(len: int, at: int, type_desc: FinalTypeDesc, k: int) -> bool
    decreases k,
{
    k <= 0 || (sound_upto(len, at, type_desc, k - 1) && field_inside(
        len,
        at,
        type_desc.size,
        type_desc.offsets@[k - 1],
    ))
}

/// The place of the word `field`, in the heap or on the stack.
spec fn slot_of(in_heap: bool, field: int) -> Slot {
    if in_heap {
        Slot::Heap(field as usize)
    } else {
        Slot::Stack(field as usize)
    }
}

/// The places that noting the first `k` fields of the object at word `at`
/// of `words` adds to what is yet to be followed: of the fields before the
/// first that lies outside, those that hold an address, in their order.
spec fn noted_upto(
    words: Seq<usize>,
    at: int,
    in_heap: bool,
    type_desc: FinalTypeDesc,
    k: int,
) -> Seq<Slot>
    decreases k,
{
    if k <= 0 {
        Seq::empty()
    } else {
        let before = noted_upto(words, at, in_heap, type_desc, k - 1);
        let field = at + type_desc.offsets@[k - 1];
        if sound_upto(words.len() as int, at, type_desc, k) && words[field] != 0 {
            before.push(slot_of(in_heap, field))
        } else {
            before
        }
    }
}

/// Behind a field that lies outside nothing more is noted.
proof fn lemma_unsound_stays(
    words: Seq<usize>,
    at: int,
    in_heap: bool,
    type_desc: FinalTypeDesc,
    k: int,
    n: int,
)
    requires
        0 <= k <= n,
        !sound_upto(words.len() as int, at, type_desc, k),
    ensures
        !sound_upto(words.len() as int, at, type_desc, n),
        noted_upto(words, at, in_heap, type_desc, n) == noted_upto(
            words,
            at,
            in_heap,
            type_desc,
            k - 1,
        ),
    decreases n - k,
{
    if k < n {
        lemma_unsound_stays(words, at, in_heap, type_desc, k, n - 1);
    }
}

/// The state of a collection as plain values: the heap that the objects
/// leave, the heap that they move to with the number of its free words, the
/// stack, and the places that are yet to be followed, the next one last.
struct Space {
    from: Seq<usize>,
    target: Seq<usize>,
    free: int,
    stack: Seq<usize>,
    todo: Seq<Slot>,
}

/// The state that the two heaps, the stack and the places to follow make.
spec fn space(from: Arena, target: Arena, stack: Seq<usize>, todo: Seq<Slot>) -> Space {
    Space { from: from@, target: target@, free: target.spec_free() as int, stack, todo }
}

/// What making room in a heap for an object of the type of number
/// `type_id` gives: the heap with the tag written, the number of its free
/// words, and the address of the object.
spec fn allocated(
    heap: Seq<usize>,
    free: int,
    types: Seq<FinalTypeDesc>,
    type_id: int,
) -> Result<(Seq<usize>, int, usize), AllocError> {
    let size = types[type_id].size;
    if size == 0 || type_id > usize::MAX / 2 {
        Err(AllocError::Corrupt)
    } else if size <= free {
        Ok((heap.update(free - size, (2 * type_id) as usize), free - size, (free - size + 1) as usize))
    } else {
        Err(AllocError::OutOufMemory { words: size })
    }
}

/// `heap` with the `size` words from word `to` on replaced by those of
/// `other` from word `src` on.
spec fn copied(heap: Seq<usize>, to: int, other: Seq<usize>, src: int, size: int) -> Seq<usize> {
    Seq::new(
        heap.len(),
        |i: int|
            if to <= i < to + size {
                other[src + i - to]
            } else {
                heap[i]
            },
    )
}

/// The state with the address `addr` written to the place `slot`.
spec fn placed(s: Space, slot: Slot, addr: usize) -> Space {
    match slot {
        Slot::Stack(i) => Space { stack: s.stack.update(i as int, addr), ..s },
        Slot::Heap(i) => Space { target: s.target.update(i as int, addr), ..s },
    }
}

/// The address that the place `slot` holds, where there is such a place.
spec fn held(s: Space, slot: Slot) -> Option<usize> {
    match slot {
        Slot::Stack(i) => if i < s.stack.len() {
            Some(s.stack[i as int])
        } else {
            None
        },
        Slot::Heap(i) => if i < s.target.len() {
            Some(s.target[i as int])
        } else {
            None
        },
    }
}

/// What following the place `slot` makes of a collection. The object that
/// the place points to has moved already, and the place gets its new
/// address; or it moves now: room is made for it in the new heap, its words
/// are copied, its old tag becomes the mark that it has moved, and its
/// fields that hold an address are noted to be followed in their turn. A
/// place or an address that is none, a type that is none, an object or a
/// field that lies outside the heap end the collection with `Corrupt`, a new
/// heap without room for the object with `OutOufMemory`; the state is then
/// as it was when that was found.
spec fn moved(s: Space, slot: Slot, types: Seq<FinalTypeDesc>) -> (Space, Result<(), AllocError>) {
    match held(s, slot) {
        None => (s, Err(AllocError::Corrupt)),
        Some(obj) => if !(1 <= obj <= s.from.len()) {
            (s, Err(AllocError::Corrupt))
        } else {
            match object_info(s.from[obj - 1]) {
                ObjectInfo::Forward(new_loc) => (placed(s, slot, new_loc), Ok(())),
                ObjectInfo::Object(type_id) => if type_id >= types.len() || types[type_id as int].size
                    > s.from.len() - (obj - 1) {
                    (s, Err(AllocError::Corrupt))
                } else {
                    match allocated(s.target, s.free, types, type_id as int) {
                        Err(e) => (s, Err(e)),
                        Ok((tagged, free, new_loc)) => if new_loc > (usize::MAX - 1) / 2 {
                            (Space { target: tagged, free, ..s }, Err(AllocError::Corrupt))
                        } else {
                            let type_desc = types[type_id as int];
                            let target = copied(
                                tagged,
                                new_loc - 1,
                                s.from,
                                obj - 1,
                                type_desc.size as int,
                            );
                            let fields = type_desc.offsets@.len() as int;
                            let there = Space {
                                from: s.from.update(obj - 1, (2 * new_loc + 1) as usize),
                                target,
                                free,
                                stack: s.stack,
                                todo: s.todo + noted_upto(target, new_loc - 1, true, type_desc, fields),
                            };
                            if sound_upto(target.len() as int, new_loc - 1, type_desc, fields) {
                                (placed(there, slot, new_loc), Ok(()))
                            } else {
                                (there, Err(AllocError::Corrupt))
                            }
                        },
                    }
                },
            }
        },
    }
}

/// What following every place that is yet to be followed, and every place
/// that is noted on the way, makes of a collection: the places are followed
/// one by one, the last that was noted first, until none is left or one of
/// them ends the collection. (No collection has a negative number of free
/// words; such a state is left as it is.)
spec fn drained(s: Space, types: Seq<FinalTypeDesc>) -> (Space, Result<(), AllocError>)
    decreases s.free, s.todo.len(),
{
    if s.todo.len() == 0 || s.free < 0 {
        (s, Ok(()))
    } else {
        let next = moved(Space { todo: s.todo.drop_last(), ..s }, s.todo.last(), types);
        if next.1 is Err {
            next
        } else {
            drained(next.0, types)
        }
    }
}

/// `next` where the collection goes on, the error where it ended.
spec fn carried(r: Result<(), AllocError>, next: usize) -> Result<usize, AllocError> {
    match r {
        Err(e) => Err(e),
        Ok(_) => Ok(next),
    }
}

/// What following everything that the frame at the address `frame` points
/// to makes of a collection, and the address of the frame above it. A frame
/// that is none, that has moved, whose type is none or names no parent, or
/// whose fields lie outside the stack ends the collection with `Corrupt`.
spec fn stepped(s: Space, frame: usize, types: Seq<FinalTypeDesc>) -> (
    Space,
    Result<usize, AllocError>,
) {
    if frame == 0 || frame > s.stack.len() {
        (s, Err(AllocError::Corrupt))
    } else {
        let at = frame - 1;
        match object_info(s.stack[at]) {
            ObjectInfo::Forward(_) => (s, Err(AllocError::Corrupt)),
            ObjectInfo::Object(type_id) => if type_id >= types.len() {
                (s, Err(AllocError::Corrupt))
            } else {
                let type_desc = types[type_id as int];
                let fields = type_desc.offsets@.len() as int;
                let noted = Space {
                    todo: s.todo + noted_upto(s.stack, at, false, type_desc, fields),
                    ..s
                };
                if !sound_upto(s.stack.len() as int, at, type_desc, fields) || type_desc.parent == 0
                    || type_desc.parent >= s.stack.len() - at {
                    (noted, Err(AllocError::Corrupt))
                } else {
                    let done = drained(noted, types);
                    (done.0, carried(done.1, s.stack[at + type_desc.parent]))
                }
            },
        }
    }
}

/// What walking up the frames from the one at the address `frame` makes of
/// a collection. A chain of more than `frames_left` frames does not end, and
/// ends the collection with `Corrupt`.
spec fn walked(s: Space, frame: usize, frames_left: nat, types: Seq<FinalTypeDesc>) -> (
    Space,
    Result<(), AllocError>,
)
    decreases frames_left,
{
    if frame == 0 {
        (s, Ok(()))
    } else if frames_left == 0 {
        (s, Err(AllocError::Corrupt))
    } else {
        let step = stepped(s, frame, types);
        match step.1 {
            Err(e) => (step.0, Err(e)),
            Ok(next) => walked(step.0, next, (frames_left - 1) as nat, types),
        }
    }
}

/// Notes the fields of the object at word `at` of `words` that hold an
/// address. Says whether all the fields lie inside the object and inside
/// `words`.
fn push_fields(
    words: &Vec<usize>,
    at: usize,
    in_heap: bool,
    type_desc: &FinalTypeDesc,
    ptr_stack: &mut Vec<Slot>,
) -> (sound: bool)
    ensures
        sound == sound_upto(
            words@.len() as int,
            at as int,
            *type_desc,
            type_desc.offsets@.len() as int,
        ),
        final(ptr_stack)@ == old(ptr_stack)@ + noted_upto(
            words@,
            at as int,
            in_heap,
            *type_desc,
            type_desc.offsets@.len() as int,
        ),
{
    let mut i: usize = 0;
    while i < type_desc.offsets.len()
        invariant
            i <= type_desc.offsets@.len(),
            sound_upto(words@.len() as int, at as int, *type_desc, i as int),
            ptr_stack@ == old(ptr_stack)@ + noted_upto(
                words@,
                at as int,
                in_heap,
                *type_desc,
                i as int,
            ),
        decreases type_desc.offsets@.len() - i,
    {
        let field_offset = type_desc.offsets[i];
        if field_offset >= type_desc.size || field_offset >= words.len() || at >= words.len()
            - field_offset {
            proof {
                lemma_unsound_stays(
                    words@,
                    at as int,
                    in_heap,
                    *type_desc,
                    i + 1,
                    type_desc.offsets@.len() as int,
                );
            }
            return false;
        }
        let field = at + field_offset;
        if words[field] != 0 {
            if in_heap {
                ptr_stack.push(Slot::Heap(field));
            } else {
                ptr_stack.push(Slot::Stack(field));
            }
        }
        assert(ptr_stack@ =~= old(ptr_stack)@ + noted_upto(
            words@,
            at as int,
            in_heap,
            *type_desc,
            i + 1,
        ));
        i += 1;
    }
    true
}

/// Moves the object that the address in `slot` points to, unless it has
/// moved already, and lets `slot` point to where it is now.
fn move_object(
    slot: Slot,
    types: &[FinalTypeDesc],
    stack: &mut Vec<usize>,
    from: &mut Arena,
    target: &mut Arena,
    ptr_stack: &mut Vec<Slot>,
) -> (r: Result<(), AllocError>)
    requires
        old(from).wf(),
        old(target).wf(),
    ensures
        final(from).wf(),
        final(target).wf(),
        final(from).spec_free() == old(from).spec_free(),
        final(from)@.len() == old(from)@.len(),
        final(target)@.len() == old(target)@.len(),
        final(stack)@.len() == old(stack)@.len(),
        final(target).spec_free() <= old(target).spec_free(),
        r is Ok ==> final(target).spec_free() < old(target).spec_free() || final(ptr_stack)@.len()
            == old(ptr_stack)@.len(),
        space(*final(from), *final(target), final(stack)@, final(ptr_stack)@) == moved(
            space(*old(from), *old(target), old(stack)@, old(ptr_stack)@),
            slot,
            types@,
        ).0,
        r == moved(
            space(*old(from), *old(target), old(stack)@, old(ptr_stack)@),
            slot,
            types@,
        ).1,
{
    let ghost before = space(*from, *target, stack@, ptr_stack@);
    let obj_addr: usize = match slot {
        Slot::Stack(i) => {
            if i >= stack.len() {
                return Err(AllocError::Corrupt);
            }
            stack[i]
        },
        Slot::Heap(i) => {
            if i >= target.mem.len() {
                return Err(AllocError::Corrupt);
            }
            target.mem[i]
        },
    };
    assert(held(before, slot) == Some(obj_addr));
    let tag: usize = match from.load(obj_addr) {
        Some(tag) => tag,
        None => {
            return Err(AllocError::Corrupt);
        },
    };
    let new_loc: usize = match read_object_info(tag) {
        ObjectInfo::Forward(new_loc) => new_loc,
        ObjectInfo::Object(type_id) => {
            if type_id >= types.len() {
                return Err(AllocError::Corrupt);
            }
            let type_desc = &types[type_id];
            let size = type_desc.size;
            if size > from.mem.len() - (obj_addr - 1) {
                return Err(AllocError::Corrupt);
            }
            let new_loc: usize = match target.allocate(types, type_id) {
                Ok(addr) => addr,
                Err(e) => {
                    return Err(e);
                },
            };
            let ghost tagged = target@;
            assert(allocated(before.target, before.free, types@, type_id as int) == Ok::<
                (Seq<usize>, int, usize),
                AllocError,
            >((tagged, target.spec_free() as int, new_loc)));
            if new_loc > (usize::MAX - 1) / 2 {
                return Err(AllocError::Corrupt);
            }
            let ghost from_len = from.mem.len();
            let ghost target_len = target.mem.len();
            let mut k: usize = 0;
            while k < size
                invariant
                    k <= size,
                    from@.len() == from_len,
                    target@.len() == target_len,
                    from.wf(),
                    target.wf(),
                    *from == *old(from),
                    stack@ == old(stack)@,
                    ptr_stack@ == old(ptr_stack)@,
                    target@.len() == old(target)@.len(),
                    target.spec_free() == new_loc - 1,
                    1 <= obj_addr,
                    obj_addr - 1 + size <= from@.len(),
                    new_loc - 1 + size <= target@.len(),
                    target@ == copied(tagged, new_loc - 1, from@, obj_addr - 1, k as int),
                decreases size - k,
            {
                let word = from.mem[obj_addr - 1 + k];
                target.mem.set(new_loc - 1 + k, word);
                assert(target@ =~= copied(tagged, new_loc - 1, from@, obj_addr - 1, k + 1));
                k += 1;
            }
            from.mem.set(obj_addr - 1, 2 * new_loc + 1);
            if !push_fields(&target.mem, new_loc - 1, true, type_desc, ptr_stack) {
                return Err(AllocError::Corrupt);
            }
            new_loc
        },
    };
    match slot {
        Slot::Stack(i) => {
            stack.set(i, new_loc);
        },
        Slot::Heap(i) => {
            target.mem.set(i, new_loc);
        },
    }
    Ok(())
}

/// Follows everything that the frame at the address `frame` points to, and
/// gives the address of the frame above it.
fn run_gc_step(
    frame: usize,
    types: &[FinalTypeDesc],
    stack: &mut Vec<usize>,
    from: &mut Arena,
    target: &mut Arena,
    ptr_stack: &mut Vec<Slot>,
) -> (r: Result<usize, AllocError>)
    requires
        old(from).wf(),
        old(target).wf(),
    ensures
        final(from).wf(),
        final(target).wf(),
        final(from).spec_free() == old(from).spec_free(),
        final(from)@.len() == old(from)@.len(),
        final(target)@.len() == old(target)@.len(),
        final(stack)@.len() == old(stack)@.len(),
        space(*final(from), *final(target), final(stack)@, final(ptr_stack)@) == stepped(
            space(*old(from), *old(target), old(stack)@, old(ptr_stack)@),
            frame,
            types@,
        ).0,
        r == stepped(
            space(*old(from), *old(target), old(stack)@, old(ptr_stack)@),
            frame,
            types@,
        ).1,
{
    let ghost goal = stepped(space(*from, *target, stack@, ptr_stack@), frame, types@);
    if frame == 0 || frame > stack.len() {
        return Err(AllocError::Corrupt);
    }
    let at = frame - 1;
    let next: usize = match read_object_info(stack[at]) {
        ObjectInfo::Forward(_) => {
            return Err(AllocError::Corrupt);
        },
        ObjectInfo::Object(type_id) => {
            if type_id >= types.len() {
                return Err(AllocError::Corrupt);
            }
            let type_desc = &types[type_id];
            if !push_fields(stack, at, false, type_desc, ptr_stack) {
                return Err(AllocError::Corrupt);
            }
            if type_desc.parent == 0 || type_desc.parent >= stack.len() - at {
                return Err(AllocError::Corrupt);
            }
            stack[at + type_desc.parent]
        },
    };
    let ghost noted = space(*from, *target, stack@, ptr_stack@);
    assert(goal.0 == drained(noted, types@).0);
    assert(goal.1 == carried(drained(noted, types@).1, next));
    loop
        invariant
            goal == stepped(
                space(*old(from), *old(target), old(stack)@, old(ptr_stack)@),
                frame,
                types@,
            ),
            goal.0 == drained(noted, types@).0,
            goal.1 == carried(drained(noted, types@).1, next),
            from.wf(),
            target.wf(),
            from.spec_free() == old(from).spec_free(),
            from@.len() == old(from)@.len(),
            target@.len() == old(target)@.len(),
            stack@.len() == old(stack)@.len(),
            drained(space(*from, *target, stack@, ptr_stack@), types@) == drained(noted, types@),
        decreases target.spec_free(), ptr_stack@.len(),
    {
        let ghost here = space(*from, *target, stack@, ptr_stack@);
        let field = match ptr_stack.pop() {
            Some(field) => field,
            None => {
                return Ok(next);
            },
        };
        assert(space(*from, *target, stack@, ptr_stack@) == (Space {
            todo: here.todo.drop_last(),
            ..here
        }));
        match move_object(field, types, stack, from, target, ptr_stack) {
            Ok(_) => {},
            Err(e) => {
                return Err(e);
            },
        }
    }
}

/// A heap with the collector that makes room in it.
pub struct Gc {
    arena: Arena,
    max_size: usize,
}

impl Gc {
    /// The heap.
    pub closed spec fn heap(&self) -> Arena {
        self.arena
    }

    /// The most words that the heap may grow to.
    pub closed spec fn max_size(&self) -> usize {
        self.max_size
    }

    pub open spec fn wf(&self) -> bool {
        self.heap().wf()
    }

    /// A collector with an empty heap of `size` words that may grow to
    /// `max_size` words.
    pub fn new(size: usize, max_size: usize) -> (gc: Self)
        ensures
            gc.wf(),
            gc.max_size() == max_size,
            gc.heap()@.len() == size,
            gc.heap().spec_free() == size,
    {
        Gc { arena: Arena::from_memory(zeros(size)), max_size }
    }

    /// The heap.
    pub fn arena(&self) -> (arena: &Arena)
        ensures
            *arena == self.heap(),
    {
        &self.arena
    }

    /// The word at the address `addr` of the heap.
    pub fn load(&self, addr: usize) -> (word: Option<usize>)
        ensures
            word == (if 1 <= addr <= self.heap()@.len() {
                Some(self.heap()@[addr - 1])
            } else {
                None
            }),
    {
        self.arena.load(addr)
    }

    /// Writes `word` at the address `addr` of the heap, where there is such
    /// an address, and says whether there was.
    pub fn store(&mut self, addr: usize, word: usize) -> (done: bool)
        ensures
            done == (1 <= addr <= old(self).heap()@.len()),
            final(self).max_size() == old(self).max_size(),
            final(self).wf() == old(self).wf(),
            final(self).heap().spec_free() == old(self).heap().spec_free(),
            final(self).heap()@ == (if done {
                old(self).heap()@.update(addr - 1, word)
            } else {
                old(self).heap()@
            }),
    {
        self.arena.store(addr, word)
    }

    /// Makes room for one object of the type of number `type_id` and gives
    /// its address. Where the heap has no room, it is collected first: what
    /// can be reached from the frame at the address `frame` of `stack`, and
    /// from the frames above it, moves to a new heap of `grown_size` words,
    /// and the addresses on the stack and in the objects follow.
    pub fn allocate(
        &mut self,
        types: &[FinalTypeDesc],
        type_id: usize,
        stack: &mut Vec<usize>,
        frame: usize,
    ) -> (r: Result<usize, AllocError>)
        requires
            old(self).wf(),
            type_id < types@.len(),
        ensures
            final(self).wf(),
            final(self).max_size() == old(self).max_size(),
            final(stack)@.len() == old(stack)@.len(),
            // With room in the heap nothing is collected.
            1 <= types@[type_id as int].size <= old(self).heap().spec_free() && type_id
                <= usize::MAX / 2 ==> {
                &&& r == Ok::<usize, AllocError>(
                    (old(self).heap().spec_free() - types@[type_id as int].size + 1) as usize,
                )
                &&& final(self).heap()@ == old(self).heap()@.update(
                    r->Ok_0 - 1,
                    (2 * type_id) as usize,
                )
                &&& final(stack)@ == old(stack)@
            },
            // However room was made, the object stands at the front of the heap.
            r is Ok ==> {
                &&& 1 <= r->Ok_0
                &&& r->Ok_0 - 1 + types@[type_id as int].size <= final(self).heap()@.len()
                &&& final(self).heap().spec_free() == r->Ok_0 - 1
                &&& final(self).heap()@[r->Ok_0 - 1] == 2 * type_id
            },
            r is Ok && types@[type_id as int].size > old(self).heap().spec_free()
                ==> final(self).heap()@.len() == grown_size(
                old(self).heap()@.len() as int,
                types@[type_id as int].size as int,
                old(self).max_size() as int,
            ),
            r is Err && r->Err_0 is OutOufMemory ==> r->Err_0->words == types@[type_id as int].size,
            types@[type_id as int].size == 0 || type_id > usize::MAX / 2 ==> r == Err::<
                usize,
                AllocError,
            >(AllocError::Corrupt),
    {
        match self.arena.allocate(types, type_id) {
            Ok(addr) => Ok(addr),
            Err(AllocError::Corrupt) => Err(AllocError::Corrupt),
            Err(AllocError::OutOufMemory { .. }) => self.alloc_after_gc(
                types,
                type_id,
                stack,
                frame,
            ),
        }
    }

    fn alloc_after_gc(
        &mut self,
        types: &[FinalTypeDesc],
        type_id: usize,
        stack: &mut Vec<usize>,
        frame: usize,
    ) -> (r: Result<usize, AllocError>)
        requires
            old(self).wf(),
            type_id < types@.len(),
        ensures
            final(self).wf(),
            final(self).max_size() == old(self).max_size(),
            final(stack)@.len() == old(stack)@.len(),
            r is Ok ==> {
                &&& 1 <= r->Ok_0
                &&& r->Ok_0 - 1 + types@[type_id as int].size <= final(self).heap()@.len()
                &&& final(self).heap().spec_free() == r->Ok_0 - 1
                &&& final(self).heap()@[r->Ok_0 - 1] == 2 * type_id
                &&& final(self).heap()@.len() == grown_size(
                    old(self).heap()@.len() as int,
                    types@[type_id as int].size as int,
                    old(self).max_size() as int,
                )
            },
            r is Err && r->Err_0 is OutOufMemory ==> r->Err_0->words == types@[type_id as int].size,
    {
        let extra_size = types[type_id].size;
        match self.gc(extra_size, types, stack, frame) {
            Ok(_) => {},
            Err(AllocError::OutOufMemory { .. }) => {
                return Err(AllocError::OutOufMemory { words: extra_size });
            },
            Err(AllocError::Corrupt) => {
                return Err(AllocError::Corrupt);
            },
        }
        self.arena.allocate(types, type_id)
    }

    /// Collects: moves what can be reached from the stack to a new heap.
    /// Where the collection ends with an error, the old heap stays, with the
    /// marks of the objects that had moved by then.
    fn gc(
        &mut self,
        extra_size: usize,
        types: &[FinalTypeDesc],
        stack: &mut Vec<usize>,
        frame: usize,
    ) -> (r: Result<(), AllocError>)
        requires
            old(self).wf(),
        ensures
            final(self).wf(),
            final(self).max_size() == old(self).max_size(),
            final(stack)@.len() == old(stack)@.len(),
            r is Ok ==> final(self).heap()@.len() == grown_size(
                old(self).heap()@.len() as int,
                extra_size as int,
                old(self).max_size() as int,
            ),
            r == old(self).collected(extra_size, types@, old(stack)@, frame).1,
            final(stack)@ == old(self).collected(extra_size, types@, old(stack)@, frame).0.stack,
            r is Ok ==> final(self).heap()@ == old(self).collected(
                extra_size,
                types@,
                old(stack)@,
                frame,
            ).0.target && final(self).heap().spec_free() == old(self).collected(
                extra_size,
                types@,
                old(stack)@,
                frame,
            ).0.free,
            r is Err ==> final(self).heap()@ == old(self).collected(
                extra_size,
                types@,
                old(stack)@,
                frame,
            ).0.from && final(self).heap().spec_free() == old(self).heap().spec_free(),
    {
        let ghost goal = self.collected(extra_size, types@, stack@, frame);
        let mut ptr_stack: Vec<Slot> = Vec::new();
        let size = self.arena.size();
        let more = if size >= extra_size {
            size
        } else {
            extra_size
        };
        let maxed_new_size = if more <= usize::MAX - size && size + more <= self.max_size {
            size + more
        } else {
            self.max_size
        };
        let mut new_arena = Arena::from_memory(zeros(maxed_new_size));
        let mut current = frame;
        let mut frames_left = stack.len();
        assert(new_arena@ =~= Seq::new(maxed_new_size as nat, |i: int| 0usize));
        assert(ptr_stack@ =~= Seq::<Slot>::empty());
        while current != 0
            invariant
                self.arena.wf(),
                new_arena.wf(),
                self.arena.spec_free() == old(self).arena.spec_free(),
                self.arena@.len() == old(self).arena@.len(),
                self.max_size == old(self).max_size,
                new_arena@.len() == maxed_new_size,
                maxed_new_size == grown_size(
                    old(self).arena@.len() as int,
                    extra_size as int,
                    old(self).max_size as int,
                ),
                stack@.len() == old(stack)@.len(),
                goal == old(self).collected(extra_size, types@, old(stack)@, frame),
                goal == walked(
                    space(self.arena, new_arena, stack@, ptr_stack@),
                    current,
                    frames_left as nat,
                    types@,
                ),
            decreases frames_left,
        {
            if frames_left == 0 {
                return Err(AllocError::Corrupt);
            }
            frames_left -= 1;
            current = match run_gc_step(
                current,
                types,
                stack,
                &mut self.arena,
                &mut new_arena,
                &mut ptr_stack,
            ) {
                Ok(next) => next,
                Err(e) => {
                    return Err(e);
                },
            };
        }
        std::mem::swap(&mut self.arena, &mut new_arena);
        Ok(())
    }

    /// What a collection for `extra_size` more words makes of the heap and
    /// of `stack`, and how it ends: the state in which all that can be
    /// reached from the frame at the address `frame`, and from the frames
    /// above it, of which there are no more than the stack has words, has
    /// moved to a new heap of `grown_size` words that was all zero.
    spec fn collected(
        &self,
        extra_size: usize,
        types: Seq<FinalTypeDesc>,
        stack: Seq<usize>,
        frame: usize,
    ) -> (Space, Result<(), AllocError>) {
        let size = grown_size(
            self.heap()@.len() as int,
            extra_size as int,
            self.max_size() as int,
        );
        walked(
            Space {
                from: self.heap()@,
                target: Seq::new(size as nat, |i: int| 0usize),
                free: size,
                stack,
                todo: Seq::empty(),
            },
            frame,
            stack.len(),
            types,
        )
    }
}

} // verus!
