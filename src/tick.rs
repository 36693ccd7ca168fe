use vstd::prelude::*;
use crate::errors::ErrorCode;
use crate::math::{MAX_TICK_INDEX, MIN_TICK_INDEX};

verus! {

/// Number of tick slots in one tick array.
pub const TICK_ARRAY_SIZE: usize = 88;

/// Most tick arrays that one swap may walk through.
pub const MAX_SEQUENCE_ARRAYS: usize = 3;

/// A tick: the change of active liquidity when the price crosses it, and the
/// fee growth recorded on its far side.
#[derive(Clone, Copy, Debug, PartialEq, Eq, Structural)]
pub struct Tick {
    /// Added to the active liquidity when the price crosses the tick upward,
    /// subtracted when it crosses downward.
    pub liquidity_net: i128,
    /// Total liquidity that references the tick; non-zero exactly when the
    /// tick is initialized.
    pub liquidity_gross: u128,
    pub fee_growth_outside_a: u128,
    pub fee_growth_outside_b: u128,
}

impl Tick {
    pub open spec fn is_initialized(&self) -> bool {
        self.liquidity_gross != 0
    }

    /// An uninitialized tick.
    pub fn empty() -> (r: Tick)
        ensures
            !r.is_initialized(),
            r.liquidity_net == 0,
    {
        Tick { liquidity_net: 0, liquidity_gross: 0, fee_growth_outside_a: 0, fee_growth_outside_b: 0 }
    }
}

/// A window of `TICK_ARRAY_SIZE` consecutive tick slots of one pool, the
/// first at `start_tick_index`, one every `tick_spacing` ticks.
#[derive(Clone, Debug)]
pub struct TickArray {
    pub start_tick_index: i32,
    pub ticks: Vec<Tick>,
}

impl TickArray {
    /// A copy of the array, slot for slot.
    pub fn copy(&self) -> (r: TickArray)
        ensures
            same_array(r, *self),
    {
        let mut ticks: Vec<Tick> = Vec::new();
        let mut i: usize = 0;
        while i < self.ticks.len()
            invariant
                i <= self.ticks@.len(),
                ticks@ == self.ticks@.subrange(0, i as int),
            decreases self.ticks@.len() - i,
        {
            ticks.push(self.ticks[i]);
            i = i + 1;
            proof {
                assert(ticks@ =~= self.ticks@.subrange(0, i as int));
            }
        }
        proof {
            assert(ticks@ =~= self.ticks@);
        }
        TickArray { start_tick_index: self.start_tick_index, ticks }
    }
}

/// A copy of an optional tick array.
pub fn copy_option(array: &Option<TickArray>) -> (r: Option<TickArray>)
    ensures
        r.is_some() == array.is_some(),
        r.is_some() ==> same_array(r.unwrap(), array.unwrap()),
{
    match array {
        Some(a) => Some(a.copy()),
        None => None,
    }
}

/// Whether two tick arrays hold the same window and the same ticks.
pub open spec fn same_array(a: TickArray, b: TickArray) -> bool {
    a.start_tick_index == b.start_tick_index && a.ticks@ == b.ticks@
}

/// Whether two lists of arrays agree array for array.
pub open spec fn same_arrays(a: Seq<TickArray>, b: Seq<TickArray>) -> bool {
    a.len() == b.len() && forall|j: int| 0 <= j < a.len() ==> same_array(#[trigger] a[j], b[j])
}

/// Arrays that agree give the same validity and the same joined slots.
pub proof fn lemma_same_arrays(a: Seq<TickArray>, b: Seq<TickArray>, tick_spacing: u16, a_to_b: bool, step: int)
    requires
        same_arrays(a, b),
        0 <= step <= a.len(),
    ensures
        arrays_valid(tick_spacing, a, a_to_b) == arrays_valid(tick_spacing, b, a_to_b),
        joined_ticks(a, a_to_b, step) == joined_ticks(b, a_to_b, step),
    decreases step,
{
    if step > 0 {
        lemma_same_arrays(a, b, tick_spacing, a_to_b, step - 1);
        let i = ascending_index(a.len() as int, step - 1, a_to_b);
        assert(same_array(a[i], b[i]));
    }
    if arrays_valid(tick_spacing, a, a_to_b) {
        assert forall|j: int| 0 < j < b.len() implies #[trigger] b[j].start_tick_index == b[j - 1].start_tick_index
            + (if a_to_b { -(TICK_ARRAY_SIZE * tick_spacing) } else { TICK_ARRAY_SIZE * tick_spacing }) by {
            assert(same_array(a[j], b[j]));
            assert(same_array(a[j - 1], b[j - 1]));
        }
        assert forall|j: int| 0 <= j < b.len() implies #[trigger] b[j].ticks@.len() == TICK_ARRAY_SIZE by {
            assert(same_array(a[j], b[j]));
        }
        assert forall|j: int| 0 <= j < b.len() implies MIN_SEQUENCE_START <= #[trigger] b[j].start_tick_index <= MAX_SEQUENCE_START by {
            assert(same_array(a[j], b[j]));
        }
    }
    if arrays_valid(tick_spacing, b, a_to_b) {
        assert forall|j: int| 0 < j < a.len() implies #[trigger] a[j].start_tick_index == a[j - 1].start_tick_index
            + (if a_to_b { -(TICK_ARRAY_SIZE * tick_spacing) } else { TICK_ARRAY_SIZE * tick_spacing }) by {
            assert(same_array(a[j], b[j]));
            assert(same_array(a[j - 1], b[j - 1]));
        }
        assert forall|j: int| 0 <= j < a.len() implies #[trigger] a[j].ticks@.len() == TICK_ARRAY_SIZE by {
            assert(same_array(a[j], b[j]));
        }
        assert forall|j: int| 0 <= j < a.len() implies MIN_SEQUENCE_START <= #[trigger] a[j].start_tick_index <= MAX_SEQUENCE_START by {
            assert(same_array(a[j], b[j]));
        }
    }
}

/// The arrays of a sequence in the order of travel; a third counts only
/// after a second.
pub open spec fn arrays_in_order(first: TickArray, second: Option<TickArray>, third: Option<TickArray>) -> Seq<TickArray> {
    match second {
        None => seq![first],
        Some(a) => match third {
            None => seq![first, a],
            Some(b) => seq![first, a, b],
        },
    }
}

/// Whether `arrays` (in the order of travel) can form a sequence: a
/// positive spacing, `TICK_ARRAY_SIZE` slots each, starts within the allowed
/// range, each array beginning where the one before ends in the direction of
/// travel.
pub open spec fn arrays_valid(tick_spacing: u16, arrays: Seq<TickArray>, a_to_b: bool) -> bool {
    let width = TICK_ARRAY_SIZE * tick_spacing;
    &&& tick_spacing >= 1
    &&& forall|j: int| 0 <= j < arrays.len() ==> #[trigger] arrays[j].ticks@.len() == TICK_ARRAY_SIZE
    &&& forall|j: int| 0 <= j < arrays.len() ==> MIN_SEQUENCE_START <= #[trigger] arrays[j].start_tick_index <= MAX_SEQUENCE_START
    &&& forall|j: int| 0 < j < arrays.len() ==> #[trigger] arrays[j].start_tick_index == arrays[j - 1].start_tick_index
        + (if a_to_b { -width } else { width })
}

/// Position of the `step`-th array in ascending tick order.
pub open spec fn ascending_index(n: int, step: int, a_to_b: bool) -> int {
    if a_to_b { n - 1 - step } else { step }
}

/// The slots of the first `step` arrays in ascending tick order, joined.
pub open spec fn joined_ticks(arrays: Seq<TickArray>, a_to_b: bool, step: int) -> Seq<Tick>
    decreases step,
{
    if step <= 0 {
        Seq::empty()
    } else {
        joined_ticks(arrays, a_to_b, step - 1) + arrays[ascending_index(arrays.len() as int, step - 1, a_to_b)].ticks@
    }
}

/// Value of `a - b` modulo 2^128.
pub open spec fn wrapping_sub_u128(a: u128, b: u128) -> u128 {
    if a >= b {
        (a - b) as u128
    } else {
        (a - b + u128::MAX + 1) as u128
    }
}

/// Lowest start index that a tick array in a sequence may have.
pub const MIN_SEQUENCE_START: i32 = -20000000;

/// Highest start index that a tick array in a sequence may have.
pub const MAX_SEQUENCE_START: i32 = 20000000;

/// Up to three adjacent tick arrays of one pool, laid out as one run of slots
/// in ascending tick order. Slot `k` stands for tick
/// `start_tick_index + k * tick_spacing`; the run ends (exclusive) at
/// `end_tick_index()`.
#[derive(Clone, Debug)]
pub struct TickSequence {
    pub start_tick_index: i32,
    pub tick_spacing: u16,
    pub ticks: Vec<Tick>,
}

/// The highest initialized slot at or below slot `k`.
pub open spec fn highest_initialized(ticks: Seq<Tick>, k: int) -> Option<int>
    decreases k + 1,
{
    if k < 0 || k >= ticks.len() {
        None
    } else if ticks[k].is_initialized() {
        Some(k)
    } else {
        highest_initialized(ticks, k - 1)
    }
}

/// The lowest initialized slot at or above slot `k`.
pub open spec fn lowest_initialized(ticks: Seq<Tick>, k: int) -> Option<int>
    decreases ticks.len() - k,
{
    if k < 0 || k >= ticks.len() {
        None
    } else if ticks[k].is_initialized() {
        Some(k)
    } else {
        lowest_initialized(ticks, k + 1)
    }
}

/// The next tick that a swap from `tick` meets in a run of slots starting at
/// `start`, one every `spacing` ticks: its index, and its slot when it is
/// initialized (the edge of the run stands in where none is left).
pub open spec fn next_tick_spec(start: int, spacing: int, ticks: Seq<Tick>, tick: int, a_to_b: bool) -> (int, Option<int>) {
    let offset = (tick - start) / spacing;
    if a_to_b {
        match highest_initialized(ticks, offset) {
            Some(k) => (start + k * spacing, Some(k)),
            None => (start, None),
        }
    } else {
        match lowest_initialized(ticks, offset + 1) {
            Some(k) => (start + k * spacing, Some(k)),
            None => (start + ticks.len() * spacing, None),
        }
    }
}

/// The slots that writing a run (starting at `start`, one slot every
/// `spacing` ticks) back leaves in `array`: its window of the run where it
/// is one, else its own.
pub open spec fn written_back(start: int, spacing: int, ticks: Seq<Tick>, array: TickArray) -> Seq<Tick> {
    let diff = array.start_tick_index - start;
    let first = diff / spacing;
    if array.ticks@.len() == TICK_ARRAY_SIZE && diff >= 0 && diff % spacing == 0
        && first + TICK_ARRAY_SIZE <= ticks.len() {
        ticks.subrange(first, first + TICK_ARRAY_SIZE)
    } else {
        array.ticks@
    }
}

impl TickSequence {
    pub open spec fn wf(&self) -> bool {
        &&& self.tick_spacing >= 1
        &&& self.ticks@.len() <= MAX_SEQUENCE_ARRAYS * TICK_ARRAY_SIZE
        &&& MIN_SEQUENCE_START <= self.start_tick_index <= MAX_SEQUENCE_START
    }

    pub open spec fn end(&self) -> int {
        self.start_tick_index + self.ticks@.len() * self.tick_spacing
    }

    /// Tick index of slot `k`.
    pub open spec fn slot_tick(&self, k: int) -> int {
        self.start_tick_index + k * self.tick_spacing
    }

    proof fn lemma_slot_bounds(&self, k: int)
        requires
            self.wf(),
            0 <= k <= self.ticks@.len(),
        ensures
            self.start_tick_index <= self.slot_tick(k) <= self.end(),
            self.end() <= MAX_SEQUENCE_START + 264 * 65535,
            k < self.ticks@.len() ==> self.slot_tick(k) + self.tick_spacing <= self.end(),
    {
        let s = self.tick_spacing as int;
        let n = self.ticks@.len() as int;
        assert(0 <= k * s <= n * s) by (nonlinear_arith) requires 0 <= k <= n, s >= 1;
        assert(n * s <= 264 * 65535) by (nonlinear_arith) requires 0 <= n <= 264, 1 <= s <= 65535;
        assert(k < n ==> k * s + s <= n * s) by (nonlinear_arith) requires s >= 1;
    }

    /// Joins the tick arrays that one swap may walk through, given in the
    /// order of travel: downward when `a_to_b`, else upward. Each array must
    /// hold `TICK_ARRAY_SIZE` slots, start within
    /// `[MIN_SEQUENCE_START, MAX_SEQUENCE_START]`, and begin where the one
    /// before it ends in the direction of travel; otherwise the sequence is
    /// refused with `InvalidTickArraySequence`. A third array is used only
    /// after a second.
    pub fn new(
        tick_spacing: u16,
        first: TickArray,
        second: Option<TickArray>,
        third: Option<TickArray>,
        a_to_b: bool,
    ) -> (r: Result<TickSequence, ErrorCode>)
        ensures
            r.is_ok() == arrays_valid(tick_spacing, arrays_in_order(first, second, third), a_to_b),
            match r {
                Ok(seq) => {
                    let arrays = arrays_in_order(first, second, third);
                    &&& seq.start_tick_index == arrays[ascending_index(arrays.len() as int, 0, a_to_b)].start_tick_index
                    &&& seq.ticks@ == joined_ticks(arrays, a_to_b, arrays.len() as int)
                    &&& seq.wf()
                    &&& seq.tick_spacing == tick_spacing
                    &&& seq.ticks@.len() >= TICK_ARRAY_SIZE
                    &&& a_to_b ==> seq.end() == first.start_tick_index + TICK_ARRAY_SIZE * tick_spacing
                    &&& !a_to_b ==> seq.start_tick_index == first.start_tick_index
                },
                Err(e) => e == ErrorCode::InvalidTickArraySequence,
            },
    {
        let mut arrays: Vec<TickArray> = Vec::new();
        arrays.push(first);
        if let Some(a) = second {
            arrays.push(a);
            if let Some(b) = third {
                arrays.push(b);
            }
        }
        if tick_spacing == 0 {
            return Err(ErrorCode::InvalidTickArraySequence);
        }
        proof {
            assert(88 * tick_spacing <= 88 * 65535) by (nonlinear_arith) requires tick_spacing <= 65535;
        }
        let width: i64 = 88 * (tick_spacing as i64);
        let ghost delta: int = if a_to_b { -(width as int) } else { width as int };
        let mut i: usize = 0;
        while i < arrays.len()
            invariant
                1 <= arrays@.len() <= 3,
                arrays@[0] == first,
                arrays@ == arrays_in_order(first, second, third),
                i <= arrays@.len(),
                width == TICK_ARRAY_SIZE * tick_spacing,
                tick_spacing >= 1,
                delta == (if a_to_b { -(width as int) } else { width as int }),
                forall|j: int| 0 <= j < i ==> #[trigger] arrays@[j].ticks@.len() == TICK_ARRAY_SIZE,
                forall|j: int| 0 <= j < i ==> MIN_SEQUENCE_START <= #[trigger] arrays@[j].start_tick_index <= MAX_SEQUENCE_START,
                forall|j: int| 0 < j < i ==> #[trigger] arrays@[j].start_tick_index == arrays@[j - 1].start_tick_index + delta,
            decreases arrays@.len() - i,
        {
            let a = &arrays[i];
            if a.ticks.len() != TICK_ARRAY_SIZE || a.start_tick_index < MIN_SEQUENCE_START
                || a.start_tick_index > MAX_SEQUENCE_START {
                return Err(ErrorCode::InvalidTickArraySequence);
            }
            if i > 0 {
                let prev = arrays[i - 1].start_tick_index as i64;
                let expected = if a_to_b { prev - width } else { prev + width };
                if a.start_tick_index as i64 != expected {
                    return Err(ErrorCode::InvalidTickArraySequence);
                }
            }
            i = i + 1;
        }
        let n = arrays.len();
        let lowest = if a_to_b { n - 1 } else { 0 };
        proof {
            assert(MIN_SEQUENCE_START <= arrays@[lowest as int].start_tick_index <= MAX_SEQUENCE_START);
        }
        let start_tick_index = arrays[lowest].start_tick_index;
        let mut ticks: Vec<Tick> = Vec::new();
        let mut step: usize = 0;
        while step < n
            invariant
                n == arrays@.len(),
                1 <= n <= 3,
                step <= n,
                arrays@[0] == first,
                arrays@ == arrays_in_order(first, second, third),
                ticks@ == joined_ticks(arrays@, a_to_b, step as int),
                MIN_SEQUENCE_START <= start_tick_index <= MAX_SEQUENCE_START,
                start_tick_index == arrays@[lowest as int].start_tick_index,
                lowest == if a_to_b { n - 1 } else { 0 },
                width == TICK_ARRAY_SIZE * tick_spacing,
                delta == (if a_to_b { -(width as int) } else { width as int }),
                forall|j: int| 0 < j < n ==> #[trigger] arrays@[j].start_tick_index == arrays@[j - 1].start_tick_index + delta,
                ticks@.len() == step * TICK_ARRAY_SIZE,
                forall|j: int| 0 <= j < n ==> #[trigger] arrays@[j].ticks@.len() == TICK_ARRAY_SIZE,
            decreases n - step,
        {
            let idx = if a_to_b { n - 1 - step } else { step };
            let mut k: usize = 0;
            while k < TICK_ARRAY_SIZE
                invariant
                    n == arrays@.len(),
                    1 <= n <= 3,
                    step < n,
                    idx < n,
                    idx == ascending_index(n as int, step as int, a_to_b),
                    k <= TICK_ARRAY_SIZE,
                    ticks@.len() == step * TICK_ARRAY_SIZE + k,
                    ticks@ == joined_ticks(arrays@, a_to_b, step as int) + arrays@[idx as int].ticks@.subrange(0, k as int),
                    forall|j: int| 0 <= j < n ==> #[trigger] arrays@[j].ticks@.len() == TICK_ARRAY_SIZE,
                decreases TICK_ARRAY_SIZE - k,
            {
                ticks.push(arrays[idx].ticks[k]);
                k = k + 1;
                proof {
                    assert(ticks@ =~= joined_ticks(arrays@, a_to_b, step as int) + arrays@[idx as int].ticks@.subrange(0, k as int));
                }
            }
            proof {
                assert(arrays@[idx as int].ticks@.subrange(0, TICK_ARRAY_SIZE as int) =~= arrays@[idx as int].ticks@);
            }
            step = step + 1;
        }
        proof {
            if n >= 2 {
                assert(arrays@[1].start_tick_index == arrays@[0].start_tick_index + delta);
            }
            if n == 3 {
                assert(arrays@[2].start_tick_index == arrays@[1].start_tick_index + delta);
            }
            assert(ticks@.len() <= 264) by (nonlinear_arith) requires ticks@.len() == n * 88, n <= 3;
            assert(ticks@.len() >= 88) by (nonlinear_arith) requires ticks@.len() == n * 88, n >= 1;
            assert(ticks@.len() * tick_spacing == n * width) by (nonlinear_arith)
                requires ticks@.len() == n * 88, width == 88 * tick_spacing;
        }
        Ok(TickSequence { start_tick_index, tick_spacing, ticks })
    }

    /// Whether `tick` lies within the run of slots.
    pub open spec fn covers(&self, tick: int) -> bool {
        self.start_tick_index <= tick < self.end()
    }

    /// Whether `tick` lies within the run of slots.
    pub fn covers_exec(&self, tick: i32) -> (r: bool)
        requires
            self.wf(),
        ensures
            r == self.covers(tick as int),
    {
        proof {
            self.lemma_slot_bounds(self.ticks@.len() as int);
        }
        let end = self.start_tick_index as i64 + (self.ticks.len() as i64) * (self.tick_spacing as i64);
        self.start_tick_index <= tick && (tick as i64) < end
    }

    /// The next tick that a swap from `tick` meets in the direction of
    /// travel: downward, the highest initialized slot at or below `tick`;
    /// upward, the lowest initialized slot above it. Where no initialized
    /// slot is left, the edge of the run stands in for one, with no slot.
    /// Fails with `TickSequenceExhausted` when `tick` lies outside the run.
    pub fn next_initialized_tick(&self, tick: i32, a_to_b: bool) -> (r: Result<(i32, Option<usize>), ErrorCode>)
        requires
            self.wf(),
        ensures
            match r {
                Ok((idx, slot)) => {
                    &&& idx == next_tick_spec(self.start_tick_index as int, self.tick_spacing as int, self.ticks@, tick as int, a_to_b).0
                    &&& (match slot { Some(k) => Some(k as int), None => None::<int> })
                        == next_tick_spec(self.start_tick_index as int, self.tick_spacing as int, self.ticks@, tick as int, a_to_b).1
                    &&& self.covers(tick as int)
                    &&& a_to_b ==> self.start_tick_index <= idx <= tick
                    &&& !a_to_b ==> tick < idx <= self.end()
                    &&& match slot {
                        Some(k) => k < self.ticks@.len() && idx == self.slot_tick(k as int)
                            && self.ticks@[k as int].is_initialized(),
                        None => idx == if a_to_b { self.start_tick_index as int } else { self.end() },
                    }
                    &&& forall|j: int| 0 <= j < self.ticks@.len() && (if a_to_b {
                        idx < #[trigger] self.slot_tick(j) <= tick
                    } else {
                        tick < self.slot_tick(j) < idx
                    }) ==> !self.ticks@[j].is_initialized()
                },
                Err(e) => e == ErrorCode::TickSequenceExhausted && !self.covers(tick as int),
            },
    {
        let len = self.ticks.len();
        let s = self.tick_spacing as i64;
        let start = self.start_tick_index as i64;
        proof {
            self.lemma_slot_bounds(len as int);
        }
        let end = start + (len as i64) * s;
        if (tick as i64) < start || (tick as i64) >= end {
            return Err(ErrorCode::TickSequenceExhausted);
        }
        let offset: usize = ((tick as i64 - start) / s) as usize;
        proof {
            let d = tick - start;
            let si = s as int;
            vstd::arithmetic::div_mod::lemma_fundamental_div_mod(d, si);
            assert(offset * si <= d < offset * si + si) by (nonlinear_arith)
                requires d == si * offset + d % si, 0 <= d % si < si, si >= 1;
            assert(offset < len) by (nonlinear_arith)
                requires offset * si <= d, d < len * si, si >= 1, offset >= 0;
            assert forall|j: int| 0 <= j <= len implies
                (j <= offset <==> #[trigger] self.slot_tick(j) <= tick) by {
                if j <= offset {
                    assert(j * si <= offset * si) by (nonlinear_arith) requires j <= offset, si >= 1;
                } else {
                    assert(j * si >= offset * si + si) by (nonlinear_arith) requires j >= offset + 1, si >= 1;
                }
            }
            assert forall|i: int, j: int| 0 <= i <= len && 0 <= j <= len implies
                (i < j <==> #[trigger] self.slot_tick(i) < #[trigger] self.slot_tick(j)) by {
                if i < j {
                    assert(i * si < j * si) by (nonlinear_arith) requires i < j, si >= 1;
                } else {
                    assert(j * si <= i * si) by (nonlinear_arith) requires j <= i, si >= 1;
                }
            }
        }
        if a_to_b {
            let mut k: usize = offset + 1;
            while k > 0
                invariant
                    k <= offset + 1,
                    offset < len,
                    len == self.ticks@.len(),
                    self.wf(),
                    forall|j: int| 0 <= j <= len ==> (j <= offset <==> #[trigger] self.slot_tick(j) <= tick),
                    forall|i: int, j: int| 0 <= i <= len && 0 <= j <= len ==>
                        (i < j <==> #[trigger] self.slot_tick(i) < #[trigger] self.slot_tick(j)),
                    s == self.tick_spacing,
                    start == self.start_tick_index,
                    end == self.end(),
                    start <= tick < end,
                    a_to_b,
                    offset == (tick - start) / (s as int),
                    highest_initialized(self.ticks@, k - 1) == highest_initialized(self.ticks@, offset as int),
                    forall|j: int| k <= j <= offset ==> !(#[trigger] self.ticks@[j]).is_initialized(),
                decreases k,
            {
                if self.ticks[k - 1].liquidity_gross != 0 {
                    proof {
                        self.lemma_slot_bounds((k - 1) as int);
                    }
                    let idx = (start + ((k - 1) as i64) * s) as i32;
                    assert forall|j: int| 0 <= j < self.ticks@.len() && (if a_to_b {
                        idx < #[trigger] self.slot_tick(j) <= tick
                    } else {
                        tick < self.slot_tick(j) < idx
                    }) implies !self.ticks@[j].is_initialized() by {
                        assert(j <= offset);
                        assert((k - 1) < j);
                    }
                    return Ok((idx, Some(k - 1)));
                }
                k = k - 1;
            }
            proof {
                assert forall|j: int| 0 <= j < len && self.start_tick_index < #[trigger] self.slot_tick(j) <= tick
                    implies !self.ticks@[j].is_initialized() by {
                    assert(j <= offset);
                }
            }
            Ok((self.start_tick_index, None))
        } else {
            let mut k: usize = offset + 1;
            while k < len
                invariant
                    offset + 1 <= k <= len,
                    len == self.ticks@.len(),
                    self.wf(),
                    forall|j: int| 0 <= j <= len ==> (j <= offset <==> #[trigger] self.slot_tick(j) <= tick),
                    forall|i: int, j: int| 0 <= i <= len && 0 <= j <= len ==>
                        (i < j <==> #[trigger] self.slot_tick(i) < #[trigger] self.slot_tick(j)),
                    s == self.tick_spacing,
                    start == self.start_tick_index,
                    end == self.end(),
                    start <= tick < end,
                    !a_to_b,
                    offset == (tick - start) / (s as int),
                    lowest_initialized(self.ticks@, k as int) == lowest_initialized(self.ticks@, offset + 1),
                    forall|j: int| offset < j < k ==> !(#[trigger] self.ticks@[j]).is_initialized(),
                decreases len - k,
            {
                if self.ticks[k].liquidity_gross != 0 {
                    proof {
                        self.lemma_slot_bounds(k as int);
                    }
                    let idx = (start + (k as i64) * s) as i32;
                    assert forall|j: int| 0 <= j < self.ticks@.len() && (if a_to_b {
                        idx < #[trigger] self.slot_tick(j) <= tick
                    } else {
                        tick < self.slot_tick(j) < idx
                    }) implies !self.ticks@[j].is_initialized() by {
                        assert(j > offset);
                        assert(j < k);
                    }
                    return Ok((idx, Some(k)));
                }
                k = k + 1;
            }
            proof {
                assert(self.slot_tick(len as int) == self.end());
                assert forall|j: int| 0 <= j < len && tick < #[trigger] self.slot_tick(j) < self.end()
                    implies !self.ticks@[j].is_initialized() by {
                    assert(j > offset);
                }
            }
            Ok((end as i32, None))
        }
    }

    /// Whether `array` is a window of this run: aligned to a slot and wholly
    /// inside.
    pub open spec fn holds_window(&self, array: TickArray) -> bool {
        exists|k: int| 0 <= k && k + TICK_ARRAY_SIZE <= self.ticks@.len()
            && self.slot_tick(k) == array.start_tick_index && array.ticks@.len() == TICK_ARRAY_SIZE
    }

    /// Copies the slots of this run back into the tick array whose window
    /// they came from; an array that is no window of the run is left as it is.
    pub fn write_back(&self, array: &mut TickArray)
        requires
            self.wf(),
        ensures
            final(array).start_tick_index == old(array).start_tick_index,
            final(array).ticks@.len() == old(array).ticks@.len(),
            final(array).ticks@ == written_back(self.start_tick_index as int, self.tick_spacing as int, self.ticks@, *old(array)),
            !self.holds_window(*old(array)) ==> *final(array) == *old(array),
            self.holds_window(*old(array)) ==> exists|k: int| 0 <= k && k + TICK_ARRAY_SIZE <= self.ticks@.len()
                && self.slot_tick(k) == old(array).start_tick_index
                && final(array).ticks@ == self.ticks@.subrange(k, k + TICK_ARRAY_SIZE),
    {
        let s = self.tick_spacing as i64;
        let diff = array.start_tick_index as i64 - self.start_tick_index as i64;
        proof {
            self.lemma_slot_bounds(self.ticks@.len() as int);
        }
        if array.ticks.len() != TICK_ARRAY_SIZE || diff < 0 || diff % s != 0
            || diff / s + (TICK_ARRAY_SIZE as i64) > self.ticks.len() as i64 {
            proof {
                if self.holds_window(*array) {
                    let k = choose|k: int| 0 <= k && k + TICK_ARRAY_SIZE <= self.ticks@.len()
                        && self.slot_tick(k) == array.start_tick_index && array.ticks@.len() == TICK_ARRAY_SIZE;
                    let si = s as int;
                    let di = diff as int;
                    assert(di == k * si);
                    vstd::arithmetic::div_mod::lemma_fundamental_div_mod_converse(di, si, k, 0);
                }
            }
            return;
        }
        let first: usize = (diff / s) as usize;
        proof {
            let si = s as int;
            let di = diff as int;
            vstd::arithmetic::div_mod::lemma_fundamental_div_mod(di, si);
            assert(self.slot_tick(first as int) == array.start_tick_index) by {
                assert(di == si * (di / si)) by (nonlinear_arith) requires di == si * (di / si) + di % si, di % si == 0;
                assert(first * si == si * first) by (nonlinear_arith);
            }
        }
        let ghost old_array = *array;
        let mut j: usize = 0;
        while j < TICK_ARRAY_SIZE
            invariant
                j <= TICK_ARRAY_SIZE,
                first + TICK_ARRAY_SIZE <= self.ticks@.len(),
                array.start_tick_index == old_array.start_tick_index,
                array.ticks@.len() == TICK_ARRAY_SIZE,
                self.wf(),
                forall|i: int| 0 <= i < j ==> #[trigger] array.ticks@[i] == self.ticks@[first + i],
            decreases TICK_ARRAY_SIZE - j,
        {
            array.ticks.set(j, self.ticks[first + j]);
            j = j + 1;
        }
        proof {
            assert(array.ticks@ =~= self.ticks@.subrange(first as int, first + TICK_ARRAY_SIZE));
        }
    }

    /// Crosses the tick of slot `k`: its fee growth outside becomes the
    /// global fee growth less what it held (modulo 2^128), so that what lay
    /// outside the tick now lies inside and the reverse. Returns the tick's
    /// liquidity net.
    pub fn cross(&mut self, k: usize, fee_growth_global_a: u128, fee_growth_global_b: u128) -> (net: i128)
        requires
            k < old(self).ticks@.len(),
        ensures
            final(self).start_tick_index == old(self).start_tick_index,
            final(self).tick_spacing == old(self).tick_spacing,
            final(self).ticks@ == old(self).ticks@.update(k as int, Tick {
                fee_growth_outside_a: wrapping_sub_u128(fee_growth_global_a, old(self).ticks@[k as int].fee_growth_outside_a),
                fee_growth_outside_b: wrapping_sub_u128(fee_growth_global_b, old(self).ticks@[k as int].fee_growth_outside_b),
                ..old(self).ticks@[k as int]
            }),
            net == old(self).ticks@[k as int].liquidity_net,
    {
        let t = self.ticks[k];
        let crossed = Tick {
            fee_growth_outside_a: wrapping_sub(fee_growth_global_a, t.fee_growth_outside_a),
            fee_growth_outside_b: wrapping_sub(fee_growth_global_b, t.fee_growth_outside_b),
            ..t
        };
        self.ticks.set(k, crossed);
        t.liquidity_net
    }
}

fn wrapping_sub(a: u128, b: u128) -> (r: u128)
    ensures
        r == wrapping_sub_u128(a, b),
{
    if a >= b {
        a - b
    } else {
        (u128::MAX - b) + a + 1
    }
}

/// Active liquidity after crossing a tick with `net`: `+net` upward,
/// `-net` downward.
pub open spec fn liquidity_after_crossing(liquidity: int, net: int, a_to_b: bool) -> int {
    if a_to_b {
        liquidity - net
    } else {
        liquidity + net
    }
}

/// Applies a crossed tick's liquidity net to the active liquidity; fails with
/// `MathOverflow` where the result leaves the range of `u128`.
pub fn apply_liquidity_net(liquidity: u128, net: i128, a_to_b: bool) -> (r: Result<u128, ErrorCode>)
    ensures
        match r {
            Ok(v) => v == liquidity_after_crossing(liquidity as int, net as int, a_to_b),
            Err(e) => e == ErrorCode::MathOverflow && !(0 <= liquidity_after_crossing(
                liquidity as int,
                net as int,
                a_to_b,
            ) <= u128::MAX),
        },
{
    let magnitude: u128 = if net >= 0 { net as u128 } else { ((-(net + 1)) as u128) + 1 };
    let adds = (net >= 0) != a_to_b;
    if adds {
        match liquidity.checked_add(magnitude) {
            Some(v) => Ok(v),
            None => Err(ErrorCode::MathOverflow),
        }
    } else {
        match liquidity.checked_sub(magnitude) {
            Some(v) => Ok(v),
            None => Err(ErrorCode::MathOverflow),
        }
    }
}

/// Sum of the liquidity net of the initialized ticks among the first `n`
/// slots.
pub open spec fn net_liquidity_below(ticks: Seq<Tick>, n: int) -> int
    decreases n,
{
    if n <= 0 || n > ticks.len() {
        0
    } else {
        net_liquidity_below(ticks, n - 1) + if ticks[n - 1].is_initialized() {
            ticks[n - 1].liquidity_net as int
        } else {
            0
        }
    }
}

/// Liquidity conservation at a tick: where the active liquidity is `base`
/// plus the nets of the initialized ticks below slot `k`, crossing slot `k`
/// upward adds exactly its net and gives `base` plus the nets up to and
/// including it; crossing it downward from there subtracts exactly its net
/// and gives the first sum back.
pub proof fn lemma_crossing_conserves_liquidity(ticks: Seq<Tick>, k: int, base: int, liquidity: int)
    requires
        0 <= k < ticks.len(),
        ticks[k].is_initialized(),
        liquidity == base + net_liquidity_below(ticks, k),
    ensures
        liquidity_after_crossing(liquidity, ticks[k].liquidity_net as int, false)
            == liquidity + ticks[k].liquidity_net,
        liquidity_after_crossing(liquidity, ticks[k].liquidity_net as int, false)
            == base + net_liquidity_below(ticks, k + 1),
        liquidity_after_crossing(base + net_liquidity_below(ticks, k + 1), ticks[k].liquidity_net as int, true)
            == liquidity,
{
}

/// Crossing a tick changes none of the nets: the sums of
/// `net_liquidity_below` are the same before and after.
pub proof fn lemma_crossing_keeps_net_sums(ticks: Seq<Tick>, k: int, crossed: Tick, n: int)
    requires
        0 <= k < ticks.len(),
        crossed.liquidity_net == ticks[k].liquidity_net,
        crossed.liquidity_gross == ticks[k].liquidity_gross,
    ensures
        net_liquidity_below(ticks.update(k, crossed), n) == net_liquidity_below(ticks, n),
    decreases n,
{
    if n > 0 && n <= ticks.len() {
        lemma_crossing_keeps_net_sums(ticks, k, crossed, n - 1);
    }
}

} // verus!
