use vstd::prelude::*;

verus! {

/// The largest count a list model can report.
pub const MAX_COUNT: u32 = 0xffff_ffff;

/// How many times a catalog is repeated when shown in a scrolling grid.
pub const DEFAULT_MULTIPLIER: u32 = 1000;

/// `a * b`, clamped to `MAX_COUNT`.
pub open spec fn saturating_product(a: int, b: int) -> int {
    if a * b > MAX_COUNT as int {
        MAX_COUNT as int
    } else {
        a * b
    }
}

/// `a * b`, clamped to `MAX_COUNT` instead of wrapping.
fn saturating_mul(a: u32, b: u32) -> (r: u32)
    ensures
        r as int == saturating_product(a as int, b as int),
{
    assert((a as int) * (b as int) <= (MAX_COUNT as int) * (MAX_COUNT as int)) by (nonlinear_arith)
        requires
            a <= MAX_COUNT,
            b <= MAX_COUNT,
    ;
    let p: u64 = (a as u64) * (b as u64);
    if p > MAX_COUNT as u64 {
        MAX_COUNT
    } else {
        p as u32
    }
}

/// A list that repeats a backing sequence `multiplier` times, so that a
/// scrolling view can move far in either direction without reaching an end.
/// No item is copied: a logical position is mapped onto the backing
/// sequence modulo its length.
pub struct InfiniteListModel<T> {
    base: Vec<T>,
    multiplier: u32,
}

impl<T> InfiniteListModel<T> {
    /// The backing sequence.
    pub closed spec fn backing(&self) -> Seq<T> {
        self.base@
    }

    /// How many times the backing sequence is repeated.
    pub closed spec fn factor(&self) -> nat {
        self.multiplier as nat
    }

    #[verifier::type_invariant]
    spec fn positions_fit(&self) -> bool {
        self.base@.len() <= MAX_COUNT as int
    }

    /// Number of logical positions: backing length times the multiplier,
    /// clamped to `MAX_COUNT`.
    pub open spec fn logical_count(&self) -> int {
        saturating_product(self.backing().len() as int, self.factor() as int)
    }

    /// The item at a logical position: none for an empty backing sequence,
    /// else the backing item at the position modulo the backing length.
    pub open spec fn item_at(&self, position: int) -> Option<T> {
        let n = self.backing().len() as int;
        if n == 0 {
            None
        } else {
            Some(self.backing()[position % n])
        }
    }

    /// The logical position from which a view starts: half the multiplier,
    /// rounded down, times the backing length, clamped to `MAX_COUNT`.
    pub open spec fn middle(&self) -> int {
        saturating_product(self.factor() as int / 2, self.backing().len() as int)
    }

    /// Wraps `base`, repeated `multiplier` times.
    pub fn new(base: Vec<T>, multiplier: u32) -> (r: Self)
        requires
            base@.len() <= MAX_COUNT as int,
        ensures
            r.backing() == base@,
            r.factor() == multiplier as nat,
    {
        InfiniteListModel { base, multiplier }
    }

    /// Appends an item to the backing sequence; the logical count and the
    /// items follow the new length at once.
    pub fn push(&mut self, item: T)
        requires
            old(self).backing().len() < MAX_COUNT as int,
        ensures
            final(self).backing() == old(self).backing().push(item),
            final(self).factor() == old(self).factor(),
    {
        let mut base: Vec<T> = Vec::new();
        std::mem::swap(&mut self.base, &mut base);
        base.push(item);
        std::mem::swap(&mut self.base, &mut base);
    }

    /// Length of the backing sequence.
    pub fn real_count(&self) -> (r: u32)
        ensures
            r as int == self.backing().len(),
    {
        proof {
            use_type_invariant(self);
        }
        self.base.len() as u32
    }

    /// Number of logical positions.
    pub fn n_items(&self) -> (r: u32)
        ensures
            r as int == self.logical_count(),
    {
        saturating_mul(self.real_count(), self.multiplier)
    }

    /// The item at a logical position, or none where the backing sequence is
    /// empty.
    pub fn item(&self, position: u32) -> (r: Option<&T>)
        ensures
            r is None <==> self.backing().len() == 0,
            r matches Some(x) ==> self.item_at(position as int) == Some(*x),
    {
        let n = self.real_count();
        if n == 0 {
            return None;
        }
        Some(&self.base[(position % n) as usize])
    }

    /// The logical position at which a view starts, so that it can move
    /// in either direction.
    pub fn middle_position(&self) -> (r: u32)
        ensures
            r as int == self.middle(),
    {
        saturating_mul(self.multiplier / 2, self.real_count())
    }
}

/// Logical positions one backing length apart show the same item.
pub proof fn lemma_wraps_around<T>(m: InfiniteListModel<T>, position: int)
    requires
        position >= 0,
    ensures
        m.item_at(position + m.backing().len()) == m.item_at(position),
{
    let n = m.backing().len() as int;
    if n > 0 {
        vstd::arithmetic::div_mod::lemma_mod_add_multiples_vanish(position, n);
    }
}

/// With an empty backing sequence the model has no positions and no
/// position holds an item.
pub proof fn lemma_empty_backing<T>(m: InfiniteListModel<T>)
    requires
        m.backing().len() == 0,
    ensures
        m.logical_count() == 0,
        forall|p: int| #[trigger] m.item_at(p) is None,
{
}

/// Where the start position is not clamped, it shows the first backing item.
pub proof fn lemma_middle_is_first<T>(m: InfiniteListModel<T>)
    requires
        m.backing().len() > 0,
        (m.factor() / 2) * m.backing().len() <= MAX_COUNT as int,
    ensures
        m.item_at(m.middle()) == Some(m.backing()[0]),
{
    let n = m.backing().len() as int;
    let k = m.factor() as int / 2;
    vstd::arithmetic::div_mod::lemma_mod_multiples_basic(k, n);
}

} // verus!
