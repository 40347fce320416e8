//! The PLL that clocks the L2CPUs, and how it is stepped to a frequency.
use vstd::prelude::*;

verus! {

/// The feedback divider register.
pub const CNTL_1: u64 = 0x8002_0504;

/// The register of the four post dividers.
pub const CNTL_5: u64 = 0x8002_0514;

/// The frequencies that have a solution, in MHz.
pub open spec fn supported(mhz: u32) -> bool {
    mhz == 200 || mhz == 1750 || mhz == 15
}

/// The feedback divider and the post dividers of a frequency.
pub open spec fn solution(mhz: u32) -> (u16, Seq<u8>) {
    if mhz == 200 {
        (128, seq![15u8, 15, 15, 15])
    } else if mhz == 1750 {
        (140, seq![1u8, 1, 1, 1])
    } else {
        (120, seq![99u8, 99, 99, 99])
    }
}

/// The feedback divider and the post dividers of a frequency.
pub fn frequency_solution(mhz: u32) -> (r: (u16, [u8; 4]))
    requires
        supported(mhz),
    ensures
        r.0 == solution(mhz).0,
        r.1@ =~= solution(mhz).1,
{
    if mhz == 200 {
        (128, [15, 15, 15, 15])
    } else if mhz == 1750 {
        (140, [1, 1, 1, 1])
    } else {
        (120, [99, 99, 99, 99])
    }
}

/// Four bytes as a word, the first in the lowest place.
pub open spec fn word(b: Seq<u8>) -> nat {
    (b[0] + b[1] * 0x100 + b[2] * 0x1_0000 + b[3] * 0x100_0000) as nat
}

/// The feedback divider register, field by field.
#[derive(Clone, Copy, Debug, PartialEq, Eq, Structural)]
pub struct PllCntl1 {
    pub refdiv: u8,
    pub postdiv: u8,
    pub fbdiv: u16,
}

impl PllCntl1 {
    /// The register's value.
    pub open spec fn value(self) -> nat {
        (self.refdiv + self.postdiv * 0x100 + self.fbdiv * 0x1_0000) as nat
    }

    pub fn from_u32(val: u32) -> (c: Self)
        ensures
            c.value() == val,
    {
        let above: u32 = val / 0x100;
        let low: u32 = val % 0x100;
        let middle: u32 = above % 0x100;
        let high: u32 = above / 0x100;
        assert(val == low + above * 0x100);
        assert(above == middle + high * 0x100);
        PllCntl1 { refdiv: low as u8, postdiv: middle as u8, fbdiv: high as u16 }
    }

    pub fn to_u32(self) -> (val: u32)
        ensures
            val == self.value(),
    {
        self.refdiv as u32 + self.postdiv as u32 * 0x100 + self.fbdiv as u32 * 0x1_0000
    }
}

/// The post divider register.
#[derive(Clone, Copy, Debug)]
pub struct PllCntl5 {
    pub postdiv: [u8; 4],
}

impl PllCntl5 {
    /// The register's value.
    pub open spec fn value(self) -> nat {
        word(self.postdiv@)
    }

    pub fn from_u32(val: u32) -> (c: Self)
        ensures
            c.value() == val,
    {
        let above: u32 = val / 0x100;
        let top: u32 = above / 0x100;
        let b0: u32 = val % 0x100;
        let b1: u32 = above % 0x100;
        let b2: u32 = top % 0x100;
        let b3: u32 = top / 0x100;
        assert(val == b0 + above * 0x100);
        assert(above == b1 + top * 0x100);
        assert(top == b2 + b3 * 0x100);
        PllCntl5 { postdiv: [b0 as u8, b1 as u8, b2 as u8, b3 as u8] }
    }

    pub fn to_u32(self) -> (val: u32)
        ensures
            val == self.value(),
    {
        self.postdiv[0] as u32 + self.postdiv[1] as u32 * 0x100 + self.postdiv[2] as u32 * 0x1_0000
            + self.postdiv[3] as u32 * 0x100_0000
    }
}

/// The fields of a register are what its value determines.
pub proof fn cntl1_fields_are_unique(a: PllCntl1, b: PllCntl1)
    requires
        a.value() == b.value(),
    ensures
        a == b,
{
}

/// The post dividers are what the register's value determines.
pub proof fn cntl5_fields_are_unique(a: PllCntl5, b: PllCntl5)
    requires
        a.value() == b.value(),
    ensures
        a.postdiv@ == b.postdiv@,
{
    lemma_word_unique(a.postdiv@, b.postdiv@);
}

proof fn lemma_word_unique(a: Seq<u8>, b: Seq<u8>)
    requires
        a.len() == 4,
        b.len() == 4,
        word(a) == word(b),
    ensures
        a == b,
{
    lemma_word_parts(a);
    lemma_word_parts(b);
    assert(a =~= b);
}

proof fn lemma_word_parts(a: Seq<u8>)
    requires
        a.len() == 4,
    ensures
        a[0] == word(a) % 0x100,
        a[1] == (word(a) / 0x100) % 0x100,
        a[2] == (word(a) / 0x1_0000) % 0x100,
        a[3] == word(a) / 0x100_0000,
{
    let above2: int = a[2] + a[3] * 0x100;
    let above1: int = a[1] + above2 * 0x100;
    assert(word(a) == a[0] + above1 * 0x100);
    assert(word(a) / 0x100 == above1);
    assert(word(a) / 0x1_0000 == above1 / 0x100);
    assert(above1 / 0x100 == above2);
    assert(word(a) / 0x100_0000 == above2 / 0x100);
}

/// A register write.
pub type PllWrite = (u64, nat);

pub open spec fn divs_write(divs: Seq<u8>) -> PllWrite {
    (CNTL_5, word(divs))
}

/// The post dividers from the `i`th on, raised to at least their target, one step at a time.
pub open spec fn raise(divs: Seq<u8>, target: Seq<u8>, i: nat) -> Seq<PllWrite>
    decreases 4 - i, (if i < 4 { target[i as int] - divs[i as int] } else { 0 }),
{
    if i >= 4 || divs.len() != 4 {
        Seq::empty()
    } else if divs[i as int] < target[i as int] {
        let next = divs.update(i as int, (divs[i as int] + 1) as u8);
        seq![divs_write(next)] + raise(next, target, i)
    } else {
        raise(divs, target, i + 1)
    }
}

/// The post dividers from the `i`th on, lowered to at most their target, one step at a time.
pub open spec fn lower(divs: Seq<u8>, target: Seq<u8>, i: nat) -> Seq<PllWrite>
    decreases 4 - i, (if i < 4 { divs[i as int] - target[i as int] } else { 0 }),
{
    if i >= 4 || divs.len() != 4 {
        Seq::empty()
    } else if divs[i as int] > target[i as int] {
        let next = divs.update(i as int, (divs[i as int] - 1) as u8);
        seq![divs_write(next)] + lower(next, target, i)
    } else {
        lower(divs, target, i + 1)
    }
}

/// The larger of two dividers, place by place.
pub open spec fn upper(a: Seq<u8>, b: Seq<u8>) -> Seq<u8> {
    Seq::new(4, |i: int| if a[i] >= b[i] { a[i] } else { b[i] })
}

pub open spec fn distance(a: u16, b: u16) -> nat {
    if a <= b {
        (b - a) as nat
    } else {
        (a - b) as nat
    }
}

/// The feedback divider, moved to its target one step at a time.
pub open spec fn move_fbdiv(c: PllCntl1, target: u16) -> Seq<PllWrite>
    decreases distance(c.fbdiv, target),
{
    if c.fbdiv == target {
        Seq::empty()
    } else {
        let next = PllCntl1 {
            fbdiv: if target > c.fbdiv {
                (c.fbdiv + 1) as u16
            } else {
                (c.fbdiv - 1) as u16
            },
            ..c
        };
        seq![(CNTL_1, next.value())] + move_fbdiv(next, target)
    }
}

/// Everything that is written to reach a frequency: post dividers up, feedback divider, post
/// dividers down.
pub open spec fn pll_writes(c1: PllCntl1, divs: Seq<u8>, mhz: u32) -> Seq<PllWrite> {
    let (fbdiv, target) = solution(mhz);
    raise(divs, target, 0) + move_fbdiv(c1, fbdiv) + lower(upper(divs, target), target, 0)
}

/// A write as numbers.
pub open spec fn write_views(writes: Seq<(u64, u32)>) -> Seq<PllWrite> {
    writes.map(|i: int, w: (u64, u32)| (w.0, w.1 as nat))
}

/// Appends the writes that raise the post dividers.
fn push_raise(divs: &mut PllCntl5, target: &[u8; 4], out: &mut Vec<(u64, u32)>)
    ensures
        write_views(final(out)@) =~= write_views(old(out)@) + raise(
            old(divs).postdiv@,
            target@,
            0,
        ),
        final(divs).postdiv@ =~= upper(old(divs).postdiv@, target@),
{
    let ghost start = divs.postdiv@;
    let mut i: usize = 0;
    while i < 4
        invariant
            i <= 4,
            start == old(divs).postdiv@,
            write_views(out@) + raise(divs.postdiv@, target@, i as nat) =~= write_views(old(out)@)
                + raise(start, target@, 0),
            forall|k: int| 0 <= k < i ==> divs.postdiv@[k] == upper(start, target@)[k],
            forall|k: int| i <= k < 4 ==> divs.postdiv@[k] == start[k],
        decreases 4 - i,
    {
        while divs.postdiv[i] < target[i]
            invariant
                i < 4,
                start == old(divs).postdiv@,
                write_views(out@) + raise(divs.postdiv@, target@, i as nat) =~= write_views(
                    old(out)@,
                ) + raise(start, target@, 0),
                forall|k: int| 0 <= k < i ==> divs.postdiv@[k] == upper(start, target@)[k],
                forall|k: int| i < k < 4 ==> divs.postdiv@[k] == start[k],
                start[i as int] <= divs.postdiv@[i as int],
                divs.postdiv@[i as int] <= upper(start, target@)[i as int],
            decreases target[i as int] - divs.postdiv[i as int],
        {
            let ghost before = divs.postdiv@;
            let ghost written = write_views(out@);
            divs.postdiv[i] = divs.postdiv[i] + 1;
            assert(divs.postdiv@ =~= before.update(i as int, (before[i as int] + 1) as u8));
            let value: u32 = divs.to_u32();
            out.push((CNTL_5, value));
            proof {
                let step = seq![divs_write(divs.postdiv@)];
                assert(raise(before, target@, i as nat) == step + raise(
                    divs.postdiv@,
                    target@,
                    i as nat,
                ));
                assert(write_views(out@) =~= written + step);
                assert((written + step) + raise(divs.postdiv@, target@, i as nat) =~= written + (
                step + raise(divs.postdiv@, target@, i as nat)));
            }
        }
        i = i + 1;
    }
    assert(write_views(out@) + Seq::<PllWrite>::empty() =~= write_views(out@));
}

/// Appends the writes that lower the post dividers.
fn push_lower(divs: &mut PllCntl5, target: &[u8; 4], out: &mut Vec<(u64, u32)>)
    ensures
        write_views(final(out)@) =~= write_views(old(out)@) + lower(
            old(divs).postdiv@,
            target@,
            0,
        ),
{
    let ghost start = divs.postdiv@;
    let mut i: usize = 0;
    while i < 4
        invariant
            i <= 4,
            write_views(out@) + lower(divs.postdiv@, target@, i as nat) =~= write_views(old(out)@)
                + lower(start, target@, 0),
        decreases 4 - i,
    {
        while divs.postdiv[i] > target[i]
            invariant
                i < 4,
                write_views(out@) + lower(divs.postdiv@, target@, i as nat) =~= write_views(
                    old(out)@,
                ) + lower(start, target@, 0),
            decreases divs.postdiv[i as int] - target[i as int],
        {
            let ghost before = divs.postdiv@;
            let ghost written = write_views(out@);
            divs.postdiv[i] = divs.postdiv[i] - 1;
            assert(divs.postdiv@ =~= before.update(i as int, (before[i as int] - 1) as u8));
            let value: u32 = divs.to_u32();
            out.push((CNTL_5, value));
            proof {
                let step = seq![divs_write(divs.postdiv@)];
                assert(lower(before, target@, i as nat) == step + lower(
                    divs.postdiv@,
                    target@,
                    i as nat,
                ));
                assert(write_views(out@) =~= written + step);
                assert((written + step) + lower(divs.postdiv@, target@, i as nat) =~= written + (
                step + lower(divs.postdiv@, target@, i as nat)));
            }
        }
        i = i + 1;
    }
    assert(write_views(out@) + Seq::<PllWrite>::empty() =~= write_views(out@));
}

/// Appends the writes that move the feedback divider.
fn push_fbdiv(c: PllCntl1, target: u16, out: &mut Vec<(u64, u32)>)
    ensures
        write_views(final(out)@) =~= write_views(old(out)@) + move_fbdiv(c, target),
{
    let mut cur: PllCntl1 = c;
    while cur.fbdiv != target
        invariant
            write_views(out@) + move_fbdiv(cur, target) =~= write_views(old(out)@) + move_fbdiv(
                c,
                target,
            ),
        decreases distance(cur.fbdiv, target),
    {
        let ghost before = cur;
        let ghost written = write_views(out@);
        if target > cur.fbdiv {
            cur = PllCntl1 { refdiv: cur.refdiv, postdiv: cur.postdiv, fbdiv: cur.fbdiv + 1 };
        } else {
            cur = PllCntl1 { refdiv: cur.refdiv, postdiv: cur.postdiv, fbdiv: cur.fbdiv - 1 };
        }
        let value: u32 = cur.to_u32();
        out.push((CNTL_1, value));
        proof {
            let step = seq![(CNTL_1, cur.value())];
            assert(move_fbdiv(before, target) == step + move_fbdiv(cur, target));
            assert(write_views(out@) =~= written + step);
            assert((written + step) + move_fbdiv(cur, target) =~= written + (step + move_fbdiv(
                cur,
                target,
            )));
        }
    }
    assert(write_views(out@) + Seq::<PllWrite>::empty() =~= write_views(out@));
}

/// The register writes that take the PLL from its present state to a frequency.
pub fn frequency_steps(cntl1: u32, cntl5: u32, mhz: u32) -> (writes: Vec<(u64, u32)>)
    requires
        supported(mhz),
    ensures
        forall|c1: PllCntl1, c5: PllCntl5|
            c1.value() == cntl1 && c5.value() == cntl5 ==> #[trigger] pll_writes(
                c1,
                c5.postdiv@,
                mhz,
            ) == write_views(writes@),
{
    let (target_fbdiv, target_postdiv): (u16, [u8; 4]) = frequency_solution(mhz);
    let mut divs: PllCntl5 = PllCntl5::from_u32(cntl5);
    let start: PllCntl1 = PllCntl1::from_u32(cntl1);
    let ghost first = divs;
    let mut writes: Vec<(u64, u32)> = Vec::new();
    push_raise(&mut divs, &target_postdiv, &mut writes);
    push_fbdiv(start, target_fbdiv, &mut writes);
    push_lower(&mut divs, &target_postdiv, &mut writes);
    proof {
        assert(write_views(writes@) =~= pll_writes(start, first.postdiv@, mhz));
        assert forall|c1: PllCntl1, c5: PllCntl5|
            c1.value() == cntl1 && c5.value() == cntl5 implies #[trigger] pll_writes(
            c1,
            c5.postdiv@,
            mhz,
        ) == write_views(writes@) by {
            cntl1_fields_are_unique(c1, start);
            cntl5_fields_are_unique(c5, first);
        }
    }
    writes
}

/// One of the two registers of the PLL.
pub open spec fn pll_register(addr: u64) -> bool {
    addr == CNTL_1 || addr == CNTL_5
}

/// Access to the two registers of the PLL, which hold what was last written to them.
pub trait PllAccess {
    /// The writes made so far.
    spec fn written(&self) -> Seq<(u64, u32)>;

    /// What a register holds.
    spec fn reads(&self, addr: u64) -> u32;

    fn pll_read32(&self, addr: u64) -> (value: u32)
        requires
            pll_register(addr),
        ensures
            value == self.reads(addr),
    ;

    /// Writes a register and gives the PLL time to follow.
    fn pll_write32(&mut self, addr: u64, value: u32)
        requires
            pll_register(addr),
        ensures
            final(self).written() == old(self).written().push((addr, value)),
            final(self).reads(addr) == value,
            forall|other: u64|
                other != addr ==> #[trigger] final(self).reads(other) == old(self).reads(other),
    ;
}

/// A PLL that is simulated: its two registers, and every write in order.
pub struct PllRegisters {
    pub cntl1: u32,
    pub cntl5: u32,
    pub log: Vec<(u64, u32)>,
}

impl PllRegisters {
    pub fn new(cntl1: u32, cntl5: u32) -> (pll: Self)
        ensures
            pll.cntl1 == cntl1,
            pll.cntl5 == cntl5,
            pll.log@.len() == 0,
    {
        PllRegisters { cntl1, cntl5, log: Vec::new() }
    }
}

impl PllAccess for PllRegisters {
    open spec fn written(&self) -> Seq<(u64, u32)> {
        self.log@
    }

    open spec fn reads(&self, addr: u64) -> u32 {
        if addr == CNTL_1 {
            self.cntl1
        } else if addr == CNTL_5 {
            self.cntl5
        } else {
            0
        }
    }

    fn pll_read32(&self, addr: u64) -> (value: u32) {
        if addr == CNTL_1 {
            self.cntl1
        } else {
            self.cntl5
        }
    }

    fn pll_write32(&mut self, addr: u64, value: u32)
        ensures
            final(self).cntl1 == if addr == CNTL_1 {
                value
            } else {
                old(self).cntl1
            },
            final(self).cntl5 == if addr == CNTL_5 {
                value
            } else {
                old(self).cntl5
            },
    {
        self.log.push((addr, value));
        if addr == CNTL_1 {
            self.cntl1 = value;
        } else {
            self.cntl5 = value;
        }
    }
}

/// Steps the PLL to a frequency. What is written is what takes a PLL with these registers to the
/// frequency; both registers end on its solution, but for the lower half of the first, which stays.
pub fn set_frequency<A: PllAccess>(access: &mut A, mhz: u32)
    requires
        supported(mhz),
    ensures
        forall|c1: PllCntl1, c5: PllCntl5|
            c1.value() == old(access).reads(CNTL_1) && c5.value() == old(access).reads(CNTL_5)
                ==> write_views(final(access).written()) == write_views(old(access).written())
                + #[trigger] pll_writes(c1, c5.postdiv@, mhz),
        final(access).reads(CNTL_1) == solution(mhz).0 * 0x1_0000 + old(access).reads(CNTL_1)
            % 0x1_0000,
        final(access).reads(CNTL_5) == word(solution(mhz).1),
        forall|other: u64|
            !pll_register(other) ==> #[trigger] final(access).reads(other) == old(access).reads(
                other,
            ),
{
    let cntl5: u32 = access.pll_read32(CNTL_5);
    let cntl1: u32 = access.pll_read32(CNTL_1);
    let writes: Vec<(u64, u32)> = frequency_steps(cntl1, cntl5, mhz);
    let c1: PllCntl1 = PllCntl1::from_u32(cntl1);
    let c5: PllCntl5 = PllCntl5::from_u32(cntl5);
    let ghost steps = pll_writes(c1, c5.postdiv@, mhz);
    proof {
        assert(write_views(writes@) == steps);
        set_frequency_keeps_order(c1, c5, mhz);
        set_frequency_reaches_target(c1, c5, mhz);
        assert forall|k: int| 0 <= k < writes@.len() implies pll_register(
            (#[trigger] writes@[k]).0,
        ) by {
            assert(steps[k].0 == writes@[k].0);
        }
        assert(steps.take(0) =~= Seq::<PllWrite>::empty());
    }
    let mut i: usize = 0;
    while i < writes.len()
        invariant
            i <= writes@.len(),
            write_views(writes@) == steps,
            forall|k: int| 0 <= k < writes@.len() ==> pll_register((#[trigger] writes@[k]).0),
            access.written() =~= old(access).written() + writes@.take(i as int),
            (access.reads(CNTL_1) as nat, access.reads(CNTL_5) as nat) == after_writes(
                cntl1 as nat,
                cntl5 as nat,
                steps.take(i as int),
            ),
            forall|other: u64|
                !pll_register(other) ==> #[trigger] access.reads(other) == old(access).reads(other),
        decreases writes@.len() - i,
    {
        proof {
            assert(steps.take(i + 1).drop_last() =~= steps.take(i as int));
            assert(steps.take(i + 1).last() == (writes@[i as int].0, writes@[i as int].1 as nat));
        }
        access.pll_write32(writes[i].0, writes[i].1);
        i = i + 1;
    }
    proof {
        assert(writes@.take(writes@.len() as int) =~= writes@);
        assert(steps.take(steps.len() as int) =~= steps);
        let all = write_views(access.written());
        assert(all =~= write_views(old(access).written()) + steps);
        assert forall|d1: PllCntl1, d5: PllCntl5|
            d1.value() == cntl1 && d5.value() == cntl5 implies all == write_views(
            old(access).written(),
        ) + #[trigger] pll_writes(d1, d5.postdiv@, mhz) by {
            cntl1_fields_are_unique(c1, d1);
            cntl5_fields_are_unique(c5, d5);
        }
        assert(cntl1 % 0x1_0000 == c1.refdiv + c1.postdiv * 0x100);
    }
}

// ---------------------------------------------------------------------------
// What the writes achieve
// ---------------------------------------------------------------------------

/// The registers after some writes.
pub open spec fn after_writes(cntl1: nat, cntl5: nat, writes: Seq<PllWrite>) -> (nat, nat)
    decreases writes.len(),
{
    if writes.len() == 0 {
        (cntl1, cntl5)
    } else {
        let (a, b) = after_writes(cntl1, cntl5, writes.drop_last());
        let w = writes.last();
        if w.0 == CNTL_1 {
            (w.1, b)
        } else if w.0 == CNTL_5 {
            (a, w.1)
        } else {
            (a, b)
        }
    }
}

proof fn lemma_after_concat(cntl1: nat, cntl5: nat, x: Seq<PllWrite>, y: Seq<PllWrite>)
    ensures
        after_writes(cntl1, cntl5, x + y) == after_writes(
            after_writes(cntl1, cntl5, x).0,
            after_writes(cntl1, cntl5, x).1,
            y,
        ),
    decreases y.len(),
{
    if y.len() == 0 {
        assert(x + y =~= x);
    } else {
        assert((x + y).drop_last() =~= x + y.drop_last());
        lemma_after_concat(cntl1, cntl5, x, y.drop_last());
    }
}

proof fn lemma_after_one(cntl1: nat, cntl5: nat, w: PllWrite)
    requires
        w.0 == CNTL_1 || w.0 == CNTL_5,
    ensures
        after_writes(cntl1, cntl5, seq![w]) == if w.0 == CNTL_1 {
            (w.1, cntl5)
        } else {
            (cntl1, w.1)
        },
{
    assert(seq![w].drop_last() =~= Seq::<PllWrite>::empty());
    assert(after_writes(cntl1, cntl5, Seq::<PllWrite>::empty()) == (cntl1, cntl5));
}

/// `divs` with the places from `i` on replaced by those of `top`.
spec fn from_place(divs: Seq<u8>, top: Seq<u8>, i: nat) -> Seq<u8> {
    Seq::new(4, |k: int| if k < i { divs[k] } else { top[k] })
}

proof fn lemma_raise_reaches(cntl1: nat, divs: Seq<u8>, target: Seq<u8>, i: nat)
    requires
        divs.len() == 4,
        target.len() == 4,
    ensures
        after_writes(cntl1, word(divs), raise(divs, target, i)) == (
            cntl1,
            word(from_place(divs, upper(divs, target), i)),
        ),
        forall|k: int|
            0 <= k < raise(divs, target, i).len() ==> (#[trigger] raise(divs, target, i)[k]).0
                == CNTL_5,
    decreases 4 - i, (if i < 4 { target[i as int] - divs[i as int] } else { 0 }),
{
    if i >= 4 {
        assert(from_place(divs, upper(divs, target), i) =~= divs);
    } else if divs[i as int] < target[i as int] {
        let next = divs.update(i as int, (divs[i as int] + 1) as u8);
        lemma_raise_reaches(cntl1, next, target, i);
        lemma_after_one(cntl1, word(divs), divs_write(next));
        lemma_after_concat(cntl1, word(divs), seq![divs_write(next)], raise(next, target, i));
        assert(from_place(next, upper(next, target), i) =~= from_place(
            divs,
            upper(divs, target),
            i,
        ));
    } else {
        lemma_raise_reaches(cntl1, divs, target, i + 1);
        assert(from_place(divs, upper(divs, target), i + 1) =~= from_place(
            divs,
            upper(divs, target),
            i,
        ));
    }
}

proof fn lemma_lower_reaches(cntl1: nat, divs: Seq<u8>, target: Seq<u8>, i: nat)
    requires
        divs.len() == 4,
        target.len() == 4,
        forall|k: int| i <= k < 4 ==> divs[k] >= target[k],
    ensures
        after_writes(cntl1, word(divs), lower(divs, target, i)) == (
            cntl1,
            word(from_place(divs, target, i)),
        ),
        forall|k: int|
            0 <= k < lower(divs, target, i).len() ==> (#[trigger] lower(divs, target, i)[k]).0
                == CNTL_5,
    decreases 4 - i, (if i < 4 { divs[i as int] - target[i as int] } else { 0 }),
{
    if i >= 4 {
        assert(from_place(divs, target, i) =~= divs);
    } else if divs[i as int] > target[i as int] {
        let next = divs.update(i as int, (divs[i as int] - 1) as u8);
        lemma_lower_reaches(cntl1, next, target, i);
        lemma_after_one(cntl1, word(divs), divs_write(next));
        lemma_after_concat(cntl1, word(divs), seq![divs_write(next)], lower(next, target, i));
        assert(from_place(next, target, i) =~= from_place(divs, target, i));
    } else {
        lemma_lower_reaches(cntl1, divs, target, i + 1);
        assert(from_place(divs, target, i + 1) =~= from_place(divs, target, i));
    }
}

proof fn lemma_move_reaches(c: PllCntl1, target: u16, cntl5: nat)
    ensures
        after_writes(c.value(), cntl5, move_fbdiv(c, target)) == (
            (PllCntl1 { fbdiv: target, ..c }).value(),
            cntl5,
        ),
        forall|k: int|
            0 <= k < move_fbdiv(c, target).len() ==> (#[trigger] move_fbdiv(c, target)[k]).0
                == CNTL_1,
    decreases distance(c.fbdiv, target),
{
    if c.fbdiv != target {
        let next = PllCntl1 {
            fbdiv: if target > c.fbdiv {
                (c.fbdiv + 1) as u16
            } else {
                (c.fbdiv - 1) as u16
            },
            ..c
        };
        lemma_move_reaches(next, target, cntl5);
        lemma_after_one(c.value(), cntl5, (CNTL_1, next.value()));
        lemma_after_concat(
            c.value(),
            cntl5,
            seq![(CNTL_1, next.value())],
            move_fbdiv(next, target),
        );
    }
}

/// The writes take the PLL to the frequency: both registers end on its solution, and the fields
/// that the solution does not speak of stay as they were.
pub proof fn set_frequency_reaches_target(c1: PllCntl1, c5: PllCntl5, mhz: u32)
    requires
        supported(mhz),
    ensures
        after_writes(c1.value(), c5.value(), pll_writes(c1, c5.postdiv@, mhz)) == (
            (PllCntl1 { fbdiv: solution(mhz).0, ..c1 }).value(),
            word(solution(mhz).1),
        ),
{
    let (fbdiv, target) = solution(mhz);
    let divs = c5.postdiv@;
    let up = upper(divs, target);
    let a = raise(divs, target, 0);
    let b = move_fbdiv(c1, fbdiv);
    let c = lower(up, target, 0);
    lemma_raise_reaches(c1.value(), divs, target, 0);
    assert(from_place(divs, up, 0) =~= up);
    lemma_move_reaches(c1, fbdiv, word(up));
    let moved = (PllCntl1 { fbdiv, ..c1 }).value();
    lemma_lower_reaches(moved, up, target, 0);
    assert(from_place(up, target, 0) =~= target);
    lemma_after_concat(c1.value(), c5.value(), a, b);
    lemma_after_concat(c1.value(), c5.value(), a + b, c);
}

/// What a register held before the `k`th of some writes to it.
pub open spec fn value_before(from: nat, writes: Seq<PllWrite>, k: int) -> nat {
    if k == 0 {
        from
    } else {
        writes[k - 1].1
    }
}

/// Each write makes the register larger.
pub open spec fn rising(from: nat, writes: Seq<PllWrite>) -> bool {
    forall|k: int|
        0 <= k < writes.len() ==> #[trigger] value_before(from, writes, k) < writes[k].1
}

/// Each write makes the register smaller.
pub open spec fn falling(from: nat, writes: Seq<PllWrite>) -> bool {
    forall|k: int|
        0 <= k < writes.len() ==> #[trigger] value_before(from, writes, k) > writes[k].1
}

/// A post divider that is moved moves its register the same way.
proof fn lemma_word_order(divs: Seq<u8>, i: int, v: u8)
    requires
        divs.len() == 4,
        0 <= i < 4,
    ensures
        divs[i] < v ==> word(divs) < word(divs.update(i, v)),
        divs[i] > v ==> word(divs) > word(divs.update(i, v)),
{
}

proof fn lemma_raise_rises(divs: Seq<u8>, target: Seq<u8>, i: nat)
    requires
        divs.len() == 4,
        target.len() == 4,
    ensures
        rising(word(divs), raise(divs, target, i)),
    decreases 4 - i, (if i < 4 { target[i as int] - divs[i as int] } else { 0 }),
{
    if i >= 4 {
    } else if divs[i as int] < target[i as int] {
        let v = (divs[i as int] + 1) as u8;
        let next = divs.update(i as int, v);
        lemma_word_order(divs, i as int, v);
        lemma_raise_rises(next, target, i);
        let rest = raise(next, target, i);
        let all = raise(divs, target, i);
        assert(all =~= seq![divs_write(next)] + rest);
        assert forall|k: int| 0 <= k < all.len() implies #[trigger] value_before(word(divs), all, k)
            < all[k].1 by {
            if k > 0 {
                assert(all[k] == rest[k - 1]);
                assert(value_before(word(next), rest, k - 1) == all[k - 1].1);
            }
        }
    } else {
        lemma_raise_rises(divs, target, i + 1);
    }
}

proof fn lemma_lower_falls(divs: Seq<u8>, target: Seq<u8>, i: nat)
    requires
        divs.len() == 4,
        target.len() == 4,
    ensures
        falling(word(divs), lower(divs, target, i)),
    decreases 4 - i, (if i < 4 { divs[i as int] - target[i as int] } else { 0 }),
{
    if i >= 4 {
    } else if divs[i as int] > target[i as int] {
        let v = (divs[i as int] - 1) as u8;
        let next = divs.update(i as int, v);
        lemma_word_order(divs, i as int, v);
        lemma_lower_falls(next, target, i);
        let rest = lower(next, target, i);
        let all = lower(divs, target, i);
        assert(all =~= seq![divs_write(next)] + rest);
        assert forall|k: int| 0 <= k < all.len() implies #[trigger] value_before(word(divs), all, k)
            > all[k].1 by {
            if k > 0 {
                assert(all[k] == rest[k - 1]);
                assert(value_before(word(next), rest, k - 1) == all[k - 1].1);
            }
        }
    } else {
        lemma_lower_falls(divs, target, i + 1);
    }
}

/// The order of the writes: all raises of a post divider, then all moves of the feedback divider,
/// then all cuts of a post divider. Between the raises and the cuts the post dividers are at their
/// largest.
pub proof fn set_frequency_keeps_order(c1: PllCntl1, c5: PllCntl5, mhz: u32)
    requires
        supported(mhz),
    ensures
        ({
            let (fbdiv, target) = solution(mhz);
            let writes = pll_writes(c1, c5.postdiv@, mhz);
            let up = raise(c5.postdiv@, target, 0).len() as int;
            let moved = up + move_fbdiv(c1, fbdiv).len();
            &&& forall|k: int| 0 <= k < up ==> (#[trigger] writes[k]).0 == CNTL_5
            &&& forall|k: int| up <= k < moved ==> (#[trigger] writes[k]).0 == CNTL_1
            &&& forall|k: int| moved <= k < writes.len() ==> (#[trigger] writes[k]).0 == CNTL_5
        }),
{
    let (fbdiv, target) = solution(mhz);
    let divs = c5.postdiv@;
    let up = upper(divs, target);
    let a = raise(divs, target, 0);
    let b = move_fbdiv(c1, fbdiv);
    let c = lower(up, target, 0);
    lemma_raise_reaches(0, divs, target, 0);
    lemma_move_reaches(c1, fbdiv, 0);
    lemma_lower_reaches(0, up, target, 0);
    let writes = pll_writes(c1, divs, mhz);
    assert(writes =~= a + b + c);
    assert forall|k: int| 0 <= k < a.len() implies (#[trigger] writes[k]).0 == CNTL_5 by {
        assert(writes[k] == a[k]);
    }
    assert forall|k: int| a.len() <= k < a.len() + b.len() implies (#[trigger] writes[k]).0
        == CNTL_1 by {
        assert(writes[k] == b[k - a.len()]);
    }
    assert forall|k: int| a.len() + b.len() <= k < writes.len() implies (#[trigger] writes[k]).0
        == CNTL_5 by {
        assert(writes[k] == c[k - a.len() - b.len()]);
    }
}

/// The post dividers' register only rises before the feedback divider moves, to where each post
/// divider is at its largest; it only falls afterwards.
pub proof fn set_frequency_raises_before_it_cuts(c1: PllCntl1, c5: PllCntl5, mhz: u32)
    requires
        supported(mhz),
    ensures
        ({
            let (fbdiv, target) = solution(mhz);
            let writes = pll_writes(c1, c5.postdiv@, mhz);
            let up = climb(c5.postdiv@, target, 0) as int;
            let moved: int = up + distance(c1.fbdiv, fbdiv);
            &&& up <= moved <= writes.len()
            &&& rising(c5.value(), writes.take(up))
            &&& falling(word(upper(c5.postdiv@, target)), writes.skip(moved))
        }),
{
    let (fbdiv, target) = solution(mhz);
    let divs = c5.postdiv@;
    let top = upper(divs, target);
    let a = raise(divs, target, 0);
    let b = move_fbdiv(c1, fbdiv);
    let c = lower(top, target, 0);
    let writes = pll_writes(c1, divs, mhz);
    assert(writes =~= a + b + c);
    lemma_raise_steps(c1, divs, mhz, 0);
    lemma_move_steps(c1, top, mhz);
    lemma_raise_rises(divs, target, 0);
    lemma_lower_falls(top, target, 0);
    assert(writes.take(a.len() as int) =~= a);
    assert(writes.skip((a.len() + b.len()) as int) =~= c);
}

/// A PLL that was taken to a frequency is left alone when it is taken there again.
pub proof fn set_frequency_twice_writes_once(
    c1: PllCntl1,
    c5: PllCntl5,
    d1: PllCntl1,
    d5: PllCntl5,
    mhz: u32,
)
    requires
        supported(mhz),
        (d1.value(), d5.value()) == after_writes(
            c1.value(),
            c5.value(),
            pll_writes(c1, c5.postdiv@, mhz),
        ),
    ensures
        pll_writes(d1, d5.postdiv@, mhz) == Seq::<PllWrite>::empty(),
{
    set_frequency_reaches_target(c1, c5, mhz);
    cntl1_fields_are_unique(d1, PllCntl1 { fbdiv: solution(mhz).0, ..c1 });
    lemma_word_unique(d5.postdiv@, solution(mhz).1);
    set_frequency_is_idempotent(d1, d5, mhz);
}

/// A PLL that is already at the frequency is left alone.
pub proof fn set_frequency_is_idempotent(c1: PllCntl1, c5: PllCntl5, mhz: u32)
    requires
        supported(mhz),
        c1.fbdiv == solution(mhz).0,
        c5.postdiv@ == solution(mhz).1,
    ensures
        pll_writes(c1, c5.postdiv@, mhz) == Seq::<PllWrite>::empty(),
{
    let target = solution(mhz).1;
    reveal_with_fuel(raise, 6);
    reveal_with_fuel(lower, 6);
    assert(upper(c5.postdiv@, target) =~= target);
    assert(pll_writes(c1, c5.postdiv@, mhz) =~= Seq::<PllWrite>::empty());
}

// ---------------------------------------------------------------------------
// How far each write goes
// ---------------------------------------------------------------------------

/// One nearer to `to`.
pub open spec fn toward(from: int, to: int) -> int {
    if from < to {
        from + 1
    } else {
        from - 1
    }
}

/// A write that moves one divider by one towards its target, and no other, from these registers.
pub open spec fn one_step(c: PllCntl1, divs: Seq<u8>, w: PllWrite, mhz: u32) -> bool {
    let (fbdiv, target) = solution(mhz);
    ||| {
        &&& c.fbdiv != fbdiv
        &&& w == (
            CNTL_1,
            (PllCntl1 { fbdiv: toward(c.fbdiv as int, fbdiv as int) as u16, ..c }).value(),
        )
    }
    ||| exists|i: int|
        0 <= i < 4 && #[trigger] divs[i] != target[i] && w == divs_write(
            divs.update(i, toward(divs[i] as int, target[i] as int) as u8),
        )
}

/// The same from the values of the registers.
pub open spec fn moves_one(cntl1: nat, cntl5: nat, w: PllWrite, mhz: u32) -> bool {
    exists|c: PllCntl1, divs: Seq<u8>|
        cntl1 == c.value() && divs.len() == 4 && cntl5 == word(divs) && #[trigger] one_step(
            c,
            divs,
            w,
            mhz,
        )
}

/// Every one of the writes moves one divider by one.
pub open spec fn all_move_one(cntl1: nat, cntl5: nat, writes: Seq<PllWrite>, mhz: u32) -> bool {
    forall|k: int|
        0 <= k < writes.len() ==> moves_one(
            after_writes(cntl1, cntl5, writes.take(k)).0,
            after_writes(cntl1, cntl5, writes.take(k)).1,
            #[trigger] writes[k],
            mhz,
        )
}

proof fn lemma_all_move_concat(
    cntl1: nat,
    cntl5: nat,
    x: Seq<PllWrite>,
    y: Seq<PllWrite>,
    mhz: u32,
)
    requires
        all_move_one(cntl1, cntl5, x, mhz),
        all_move_one(
            after_writes(cntl1, cntl5, x).0,
            after_writes(cntl1, cntl5, x).1,
            y,
            mhz,
        ),
    ensures
        all_move_one(cntl1, cntl5, x + y, mhz),
{
    let z = x + y;
    assert forall|k: int| 0 <= k < z.len() implies moves_one(
        after_writes(cntl1, cntl5, z.take(k)).0,
        after_writes(cntl1, cntl5, z.take(k)).1,
        #[trigger] z[k],
        mhz,
    ) by {
        if k < x.len() {
            assert(z.take(k) =~= x.take(k));
            assert(z[k] == x[k]);
        } else {
            let j = k - x.len();
            assert(z.take(k) =~= x + y.take(j));
            assert(z[k] == y[j]);
            lemma_after_concat(cntl1, cntl5, x, y.take(j));
        }
    }
}

proof fn lemma_one_moves(c: PllCntl1, divs: Seq<u8>, w: PllWrite, mhz: u32)
    requires
        divs.len() == 4,
        one_step(c, divs, w, mhz),
    ensures
        all_move_one(c.value(), word(divs), seq![w], mhz),
{
    let x = seq![w];
    assert forall|k: int| 0 <= k < x.len() implies moves_one(
        after_writes(c.value(), word(divs), x.take(k)).0,
        after_writes(c.value(), word(divs), x.take(k)).1,
        #[trigger] x[k],
        mhz,
    ) by {
        assert(x.take(0) =~= Seq::<PllWrite>::empty());
    }
}

/// By how much the dividers from the `i`th on have to rise.
pub open spec fn climb(divs: Seq<u8>, target: Seq<u8>, i: nat) -> nat
    decreases 4 - i,
{
    if i >= 4 {
        0
    } else {
        (if divs[i as int] < target[i as int] {
            (target[i as int] - divs[i as int]) as nat
        } else {
            0
        }) + climb(divs, target, i + 1)
    }
}

proof fn lemma_climb_same(a: Seq<u8>, b: Seq<u8>, target: Seq<u8>, i: nat)
    requires
        forall|k: int| i <= k < 4 ==> a[k] == b[k],
    ensures
        climb(a, target, i) == climb(b, target, i),
        climb(target, a, i) == climb(target, b, i),
    decreases 4 - i,
{
    if i < 4 {
        lemma_climb_same(a, b, target, i + 1);
    }
}

proof fn lemma_raise_steps(c: PllCntl1, divs: Seq<u8>, mhz: u32, i: nat)
    requires
        divs.len() == 4,
    ensures
        all_move_one(c.value(), word(divs), raise(divs, solution(mhz).1, i), mhz),
        raise(divs, solution(mhz).1, i).len() == climb(divs, solution(mhz).1, i),
    decreases
            4 - i,
            (if i < 4 {
                solution(mhz).1[i as int] - divs[i as int]
            } else {
                0
            }),
{
    let target = solution(mhz).1;
    if i >= 4 {
    } else if divs[i as int] < target[i as int] {
        let next = divs.update(i as int, (divs[i as int] + 1) as u8);
        let w = divs_write(next);
        lemma_raise_steps(c, next, mhz, i);
        assert(one_step(c, divs, w, mhz)) by {
            assert(divs[i as int] != target[i as int]);
        }
        lemma_one_moves(c, divs, w, mhz);
        lemma_after_one(c.value(), word(divs), w);
        lemma_all_move_concat(c.value(), word(divs), seq![w], raise(next, target, i), mhz);
        lemma_climb_same(divs, next, target, i + 1);
    } else {
        lemma_raise_steps(c, divs, mhz, i + 1);
    }
}

proof fn lemma_lower_steps(c: PllCntl1, divs: Seq<u8>, mhz: u32, i: nat)
    requires
        divs.len() == 4,
    ensures
        all_move_one(c.value(), word(divs), lower(divs, solution(mhz).1, i), mhz),
        lower(divs, solution(mhz).1, i).len() == climb(solution(mhz).1, divs, i),
    decreases
            4 - i,
            (if i < 4 {
                divs[i as int] - solution(mhz).1[i as int]
            } else {
                0
            }),
{
    let target = solution(mhz).1;
    if i >= 4 {
    } else if divs[i as int] > target[i as int] {
        let next = divs.update(i as int, (divs[i as int] - 1) as u8);
        let w = divs_write(next);
        lemma_lower_steps(c, next, mhz, i);
        assert(one_step(c, divs, w, mhz)) by {
            assert(divs[i as int] != target[i as int]);
        }
        lemma_one_moves(c, divs, w, mhz);
        lemma_after_one(c.value(), word(divs), w);
        lemma_all_move_concat(c.value(), word(divs), seq![w], lower(next, target, i), mhz);
        lemma_climb_same(divs, next, target, i + 1);
    } else {
        lemma_lower_steps(c, divs, mhz, i + 1);
    }
}

proof fn lemma_move_steps(c: PllCntl1, divs: Seq<u8>, mhz: u32)
    requires
        divs.len() == 4,
    ensures
        all_move_one(c.value(), word(divs), move_fbdiv(c, solution(mhz).0), mhz),
        move_fbdiv(c, solution(mhz).0).len() == distance(c.fbdiv, solution(mhz).0),
        forall|k: int|
            0 <= k < move_fbdiv(c, solution(mhz).0).len() ==> (#[trigger] move_fbdiv(
                c,
                solution(mhz).0,
            )[k]).1 % 0x1_0000 == c.value() % 0x1_0000,
    decreases distance(c.fbdiv, solution(mhz).0),
{
    let target = solution(mhz).0;
    if c.fbdiv != target {
        let next = PllCntl1 { fbdiv: toward(c.fbdiv as int, target as int) as u16, ..c };
        let w = (CNTL_1, next.value());
        lemma_move_steps(next, divs, mhz);
        assert(one_step(c, divs, w, mhz));
        lemma_one_moves(c, divs, w, mhz);
        lemma_after_one(c.value(), word(divs), w);
        let rest = move_fbdiv(next, target);
        let all = move_fbdiv(c, target);
        assert(all == seq![w] + rest);
        lemma_all_move_concat(c.value(), word(divs), seq![w], rest, mhz);
        assert(next.value() % 0x1_0000 == c.value() % 0x1_0000);
        assert forall|k: int| 0 <= k < all.len() implies (#[trigger] all[k]).1 % 0x1_0000
            == c.value() % 0x1_0000 by {
            if k > 0 {
                assert(all[k] == rest[k - 1]);
            }
        }
    }
}

/// Each write moves exactly one divider by exactly one towards its target; there are as many as the
/// dividers are apart from their targets, those that raise a post divider first, those of the
/// feedback divider next; and none touches the lower half of the feedback divider's register.
pub proof fn set_frequency_steps_by_one(c1: PllCntl1, c5: PllCntl5, mhz: u32)
    requires
        supported(mhz),
    ensures
        ({
            let (fbdiv, target) = solution(mhz);
            let writes = pll_writes(c1, c5.postdiv@, mhz);
            let up = climb(c5.postdiv@, target, 0);
            let moved = distance(c1.fbdiv, fbdiv);
            let down = climb(target, c5.postdiv@, 0);
            &&& all_move_one(c1.value(), c5.value(), writes, mhz)
            &&& writes.len() == up + moved + down
            &&& forall|k: int|
                0 <= k < writes.len() ==> (#[trigger] writes[k]).0 == if up <= k < up + moved {
                    CNTL_1
                } else {
                    CNTL_5
                }
            &&& forall|k: int|
                up <= k < up + moved ==> (#[trigger] writes[k]).1 % 0x1_0000 == c1.value()
                    % 0x1_0000
        }),
{
    let (fbdiv, target) = solution(mhz);
    let divs = c5.postdiv@;
    let top = upper(divs, target);
    let a = raise(divs, target, 0);
    let b = move_fbdiv(c1, fbdiv);
    let c = lower(top, target, 0);
    let writes = pll_writes(c1, divs, mhz);
    assert(writes =~= a + b + c);
    let moved = PllCntl1 { fbdiv, ..c1 };
    lemma_raise_steps(c1, divs, mhz, 0);
    lemma_raise_reaches(c1.value(), divs, target, 0);
    assert(from_place(divs, top, 0) =~= top);
    lemma_move_steps(c1, top, mhz);
    lemma_move_reaches(c1, fbdiv, word(top));
    lemma_lower_steps(moved, top, mhz, 0);
    lemma_all_move_concat(c1.value(), c5.value(), a, b, mhz);
    lemma_after_concat(c1.value(), c5.value(), a, b);
    lemma_all_move_concat(c1.value(), c5.value(), a + b, c, mhz);
    reveal_with_fuel(climb, 5);
    assert(climb(target, top, 0) == climb(target, divs, 0));
    set_frequency_keeps_order(c1, c5, mhz);
    assert forall|k: int| a.len() <= k < a.len() + b.len() implies (#[trigger] writes[k]).1
        % 0x1_0000 == c1.value() % 0x1_0000 by {
        assert(writes[k] == b[k - a.len()]);
    }
}

} // verus!
