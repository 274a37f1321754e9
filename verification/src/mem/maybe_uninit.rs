//! Slots that reserve room for a value before the value exists.
//!
//! A [`Slot`] is either still unwritten or holds a value. Storage is created
//! unwritten, filled slot by slot by whoever produces the data, and read only
//! once the reader can show that every slot it looks at has been written.
//! That obligation is a precondition: the verifier discharges it at every
//! call, so nothing is checked, copied or allocated when the slots are read.
//!
//! A sequence of `N` elements can be reserved in two shapes: as one
//! [`ArraySlot`] for the whole array, or as an array of `N` separate slots.
//! Both hold the same slots in the same order, and [`transpose`] turns the
//! first shape into the second without touching what the slots hold.

use vstd::prelude::*;

verus! {

/// Room for one `T`, which may or may not have been written yet.
#[derive(Debug, PartialEq, Eq)]
pub enum Slot<T> {
    /// Nothing has been written: there is no value to read.
    Uninit,
    /// The slot holds this value.
    Init(T),
}

impl<T: Copy> Clone for Slot<T> {
    fn clone(&self) -> (copy: Self)
        ensures
            copy == *self,
    {
        *self
    }
}

impl<T: Copy> Copy for Slot<T> {

}

/// `n` slots, none of them written.
pub open spec fn uninit_slots<T>(n: nat) -> Seq<Slot<T>> {
    Seq::new(n, |i: int| Slot::Uninit)
}

/// Whether every one of the slots has been written.
pub open spec fn all_init<T>(slots: Seq<Slot<T>>) -> bool {
    forall|i: int| 0 <= i < slots.len() ==> (#[trigger] slots[i]) is Init
}

/// The values that the slots hold, in the order of the slots. An unwritten
/// slot stands for no particular value, so this says something only where
/// `all_init(slots)`.
pub open spec fn init_values<T>(slots: Seq<Slot<T>>) -> Seq<T>
    recommends
        all_init(slots),
{
    Seq::new(slots.len(), |i: int| slots[i]->Init_0)
}

/// The slots as a writer leaves them that has put `values`, one per slot,
/// into the leading `values.len()` of them. The slots behind that prefix are
/// as they were.
pub open spec fn write_prefix<T>(slots: Seq<Slot<T>>, values: Seq<T>) -> Seq<Slot<T>>
    recommends
        values.len() <= slots.len(),
{
    Seq::new(
        slots.len(),
        |i: int|
            if i < values.len() {
                Slot::Init(values[i])
            } else {
                slots[i]
            },
    )
}

/// `std::array::from_fn`: the array whose element at each index is what `f`
/// returns for that index. `f` is called once for every index below `N`, so
/// it has to accept each of them.
#[verifier::external_body]
fn array_from_fn<T, const N: usize, F: Fn(usize) -> T>(f: F) -> (out: [T; N])
    requires
        forall|i: usize| i < N ==> call_requires(f, (i,)),
    ensures
        forall|i: usize| i < N ==> call_ensures(f, (i,), #[trigger] out@[i as int]),
{
    std::array::from_fn(f)
}

/// Creates an array of `N` slots, none of them written.
///
/// `N` may be zero; the array is then empty.
pub fn uninit_array<const N: usize, T>() -> (slots: [Slot<T>; N])
    ensures
        slots@ == uninit_slots::<T>(N as nat),
{
    let unwritten = |_index: usize| -> (slot: Slot<T>)
        ensures
            slot is Uninit,
    {
        Slot::Uninit
    };
    let slots = array_from_fn(unwritten);
    assert(slots@ =~= uninit_slots::<T>(N as nat));
    slots
}

/// Room for a whole `[T; N]`, reserved in one piece.
///
/// Inside, it is `N` slots in a row; they can be reached only by taking the
/// piece apart with [`transpose`].
#[derive(Debug)]
pub struct ArraySlot<T, const N: usize> {
    slots: [Slot<T>; N],
}

impl<T, const N: usize> View for ArraySlot<T, N> {
    type V = Seq<Slot<T>>;

    open spec fn view(&self) -> Seq<Slot<T>> {
        self.slots()@
    }
}

impl<T, const N: usize> ArraySlot<T, N> {
    /// The `N` slots that make up this piece of storage.
    pub closed spec fn slots(self) -> [Slot<T>; N] {
        self.slots
    }

    /// Reserves room for a `[T; N]` without writing any of it.
    pub fn uninit() -> (block: Self)
        ensures
            block@ == uninit_slots::<T>(N as nat),
    {
        ArraySlot { slots: uninit_array() }
    }

    /// Joins `N` separate slots into one piece of storage for a `[T; N]`.
    /// The slots keep their order and what they hold.
    pub fn from_slots(slots: [Slot<T>; N]) -> (block: Self)
        ensures
            block.slots() == slots,
    {
        ArraySlot { slots }
    }
}

/// Turns room for a whole array into an array of separate slots.
///
/// The slots come out in their order and as they are: one that was written
/// still holds its value, one that was not is still unwritten.
pub fn transpose<T, const N: usize>(value: ArraySlot<T, N>) -> (slots: [Slot<T>; N])
    ensures
        slots == value.slots(),
        slots@ == value@,
{
    value.slots
}

/// A run of slots that have all been written, read as the values they hold.
///
/// It borrows the slots for as long as it lives and owns no storage of its
/// own: element `i` of the view is the value in slot `i`.
#[derive(Debug)]
pub struct InitSlice<'a, T> {
    slots: &'a [Slot<T>],
}

impl<'a, T> View for InitSlice<'a, T> {
    type V = Seq<T>;

    open spec fn view(&self) -> Seq<T> {
        init_values(self.slots())
    }
}

impl<'a, T> InitSlice<'a, T> {
    #[verifier::type_invariant]
    spec fn written(self) -> bool {
        all_init(self.slots@)
    }

    /// The slots that this view reads.
    pub closed spec fn slots(self) -> Seq<Slot<T>> {
        self.slots@
    }

    /// The number of values, which is the number of slots.
    pub fn len(&self) -> (n: usize)
        ensures
            n == self@.len(),
            n == self.slots().len(),
    {
        self.slots.len()
    }

    /// The value in slot `index`.
    pub fn get(&self, index: usize) -> (value: &'a T)
        requires
            index < self@.len(),
        ensures
            *value == self@[index as int],
    {
        proof {
            use_type_invariant(self);
        }
        let slots: &'a [Slot<T>] = self.slots;
        match &slots[index] {
            Slot::Init(value) => value,
            Slot::Uninit => vstd::pervasive::unreached(),
        }
    }

    /// The slots behind the view, as slots again. Every one of them has been
    /// written.
    pub fn as_slots(&self) -> (slots: &'a [Slot<T>])
        ensures
            slots@ == self.slots(),
            all_init(slots@),
    {
        proof {
            use_type_invariant(self);
        }
        self.slots
    }
}

/// Reads a run of slots, all of which have been written, as the values they
/// hold.
///
/// The result covers exactly the slots of `slice`, in place: it has one value
/// per slot and borrows `slice` for its whole life. That every slot has been
/// written is the caller's to show.
pub fn slice_assume_init_ref<'a, T>(slice: &'a [Slot<T>]) -> (values: InitSlice<'a, T>)
    requires
        all_init(slice@),
    ensures
        values.slots() == slice@,
        values@ == init_values(slice@),
        values@.len() == slice@.len(),
{
    InitSlice { slots: slice }
}

/// Writing one more value extends the written prefix by one slot and leaves
/// every other slot alone: `write_prefix` is what slot-by-slot writing, front
/// to back, arrives at.
pub proof fn lemma_write_prefix_step<T>(slots: Seq<Slot<T>>, values: Seq<T>, next: T)
    requires
        values.len() < slots.len(),
    ensures
        write_prefix(slots, values.push(next)) == write_prefix(slots, values).update(
            values.len() as int,
            Slot::Init(next),
        ),
{
    assert(write_prefix(slots, values.push(next)) =~= write_prefix(slots, values).update(
        values.len() as int,
        Slot::Init(next),
    ));
}

/// Once values have been written into the leading slots of any storage, those
/// leading slots may be read as initialized, and reading them gives back the
/// values that were written, as many and in the same order.
pub proof fn lemma_written_prefix_reads_back<T>(slots: Seq<Slot<T>>, values: Seq<T>)
    requires
        values.len() <= slots.len(),
    ensures
        all_init(write_prefix(slots, values).subrange(0, values.len() as int)),
        init_values(write_prefix(slots, values).subrange(0, values.len() as int)) == values,
{
    let prefix = write_prefix(slots, values).subrange(0, values.len() as int);
    assert(init_values(prefix) =~= values);
}

/// A fresh array of `n` slots, each of which has since been written, may be
/// read as initialized, and reads as exactly the `n` values written: the
/// result is as long as the storage and holds nothing else.
pub proof fn lemma_filled_array_reads_back<T>(n: nat, values: Seq<T>)
    requires
        values.len() == n,
    ensures
        all_init(write_prefix(uninit_slots::<T>(n), values)),
        init_values(write_prefix(uninit_slots::<T>(n), values)) == values,
        init_values(write_prefix(uninit_slots::<T>(n), values)).len() == n,
{
    assert(init_values(write_prefix(uninit_slots::<T>(n), values)) =~= values);
}

/// Taking room for an array apart and joining the slots again gives back the
/// storage one started with, whatever it held: any `back` that holds the
/// slots of `value`, as `from_slots(transpose(value))` does, is `value`.
pub proof fn lemma_transpose_round_trip<T, const N: usize>(
    value: ArraySlot<T, N>,
    back: ArraySlot<T, N>,
)
    requires
        back.slots() == value.slots(),
    ensures
        back == value,
{
}

} // verus!
